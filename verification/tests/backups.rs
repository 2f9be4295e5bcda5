use gpu_monitor::backup::{backup_document, backup_file_name, backup_mode, BackupMode};
use gpu_monitor::report::{final_report, format_line, RenderedTotal};
use gpu_monitor::snapshot::LogEntry;
use gpu_monitor::totals::{UsageTotals, MIB_SECONDS_PER_GIB_HOUR};

fn rendered(totals: &UsageTotals) -> Vec<RenderedTotal> {
    totals
        .rows()
        .into_iter()
        .map(|r| RenderedTotal {
            user: r.user,
            gib_hours: format!("{}", r.mib_seconds as f64 / MIB_SECONDS_PER_GIB_HOUR as f64),
        })
        .collect()
}

fn row(user: &str, gib_hours: &str) -> RenderedTotal {
    RenderedTotal { user: user.to_string(), gib_hours: gib_hours.to_string() }
}

#[test]
fn only_the_word_overwrite_asks_for_overwriting() {
    for word in ["overwrite", "OVERWRITE", "Overwrite", "oVeRwRiTe"] {
        assert_eq!(backup_mode(word), BackupMode::Overwrite);
    }
    for word in ["new", "", "overwrit", "overwrite ", " overwrite", "overwrited", "0verwrite",
        "timestamped", "over write", "\u{14f}verwrite"]
    {
        assert_eq!(backup_mode(word), BackupMode::Timestamped);
    }
}

#[test]
fn the_mode_agrees_with_std() {
    for word in ["overwrite", "OverWrite", "new", "OVERWRITE!", "overwritE", "\u{212a}"] {
        let expected = if word.eq_ignore_ascii_case("overwrite") {
            BackupMode::Overwrite
        } else {
            BackupMode::Timestamped
        };
        assert_eq!(backup_mode(word), expected);
    }
}

#[test]
fn a_timestamped_backup_is_named_after_its_tick() {
    assert_eq!(
        backup_file_name("gpu_usage_backup", 1700000000, BackupMode::Timestamped),
        "gpu_usage_backup_1700000000.csv"
    );
    assert_eq!(backup_file_name("p", 0, BackupMode::Timestamped), "p_0.csv");
    assert_eq!(backup_file_name("", 12, BackupMode::Timestamped), "_12.csv");
    assert_eq!(
        backup_file_name("dir/x", u64::MAX, BackupMode::Timestamped),
        "dir/x_18446744073709551615.csv"
    );
}

#[test]
fn timestamped_backups_of_different_ticks_have_different_names() {
    let first = backup_file_name("b", 600, BackupMode::Timestamped);
    let second = backup_file_name("b", 1200, BackupMode::Timestamped);
    assert_ne!(first, second);
}

#[test]
fn an_overwriting_backup_has_one_name() {
    assert_eq!(backup_file_name("gpu_usage_backup", 1700000000, BackupMode::Overwrite), "gpu_usage_backup.csv");
    assert_eq!(
        backup_file_name("b", 600, BackupMode::Overwrite),
        backup_file_name("b", 1200, BackupMode::Overwrite)
    );
}

#[test]
fn a_backup_has_a_header_and_one_row_per_user() {
    assert_eq!(backup_document(&vec![]), "user,gib_hr\n");
    assert_eq!(
        backup_document(&vec![row("alice", "2"), row("bob", "0.041666666666666664")]),
        "user,gib_hr\nalice,2\nbob,0.041666666666666664\n"
    );
}

#[test]
fn a_backup_of_totals_reads_back() {
    let mut totals = UsageTotals::new();
    totals.fold(
        &vec![
            LogEntry { user: "alice".to_string(), mem_mib: 2048 },
            LogEntry { user: "bob".to_string(), mem_mib: 512 },
            LogEntry { user: "alice".to_string(), mem_mib: 2048 },
        ],
        1800,
    );
    let text = backup_document(&rendered(&totals));
    let mut lines = text.lines();
    assert_eq!(lines.next(), Some("user,gib_hr"));
    let mut rows: Vec<(String, f64)> = lines
        .map(|l| {
            let (user, amount) = l.split_once(',').unwrap();
            (user.to_string(), amount.parse::<f64>().unwrap())
        })
        .collect();
    rows.sort_by(|a, b| a.0.cmp(&b.0));
    assert_eq!(rows, vec![("alice".to_string(), 2.0), ("bob".to_string(), 0.25)]);
    assert!(text.ends_with('\n'));
}

#[test]
fn a_later_backup_holds_the_users_of_its_time_only() {
    let mut totals = UsageTotals::new();
    totals.fold(&vec![LogEntry { user: "alice".to_string(), mem_mib: 1 }], 1);
    let first = backup_document(&rendered(&totals));
    assert_eq!(first.lines().count(), 1 + 1);
    totals.fold(
        &vec![
            LogEntry { user: "alice".to_string(), mem_mib: 1 },
            LogEntry { user: "bob".to_string(), mem_mib: 1 },
        ],
        1,
    );
    let second = backup_document(&rendered(&totals));
    assert_eq!(second.lines().count(), 1 + 2);
    assert_eq!(second.lines().count() - 1, totals.len());
}

#[test]
fn a_report_line_is_laid_out_in_two_columns() {
    assert_eq!(format_line("alice", "2.000"), "alice              2.000");
    assert_eq!(format_line("alice", "2.000"), format!("{:<15} {:>8}", "alice", "2.000"));
    assert_eq!(format_line("", ""), " ".repeat(24));
    assert_eq!(format_line("exactly15chars_", "12345678"), "exactly15chars_ 12345678");
}

#[test]
fn a_report_line_does_not_cut_what_is_too_wide() {
    assert_eq!(format_line("a_very_long_user_name", "123456.789"), "a_very_long_user_name 123456.789");
    assert_eq!(
        format_line("gr\u{fc}n", "1.5"),
        format!("{:<15} {:>8}", "gr\u{fc}n", "1.5")
    );
}

#[test]
fn a_report_line_agrees_with_std_on_a_float() {
    for (user, amount) in [("alice", 2.0f64), ("bob", 0.0416666), ("carol", 12345.6789), ("d", 0.0005)] {
        assert_eq!(
            format_line(user, &format!("{:.3}", amount)),
            format!("{:<15} {:>8.3}", user, amount)
        );
    }
}

#[test]
fn the_report_without_usage_says_so() {
    assert_eq!(
        final_report(&vec![]),
        vec!["No GPU usage detected during the monitoring period.".to_string()]
    );
}

#[test]
fn the_report_has_a_title_and_one_line_per_user() {
    let lines = final_report(&vec![row("alice", "2.000"), row("bob", "0.250")]);
    assert_eq!(
        lines,
        vec![
            "".to_string(),
            "=== Total GPU usage (GiB\u{b7}h) per user ===".to_string(),
            "alice              2.000".to_string(),
            "bob                0.250".to_string(),
        ]
    );
}

#[test]
fn a_backup_after_one_tick_holds_the_contribution() {
    let mut totals = UsageTotals::new();
    totals.fold(&vec![LogEntry { user: "alice".to_string(), mem_mib: 512 }], 900);
    assert_eq!(backup_document(&rendered(&totals)), "user,gib_hr\nalice,0.125\n");
    totals.fold(&vec![LogEntry { user: "bob".to_string(), mem_mib: 2048 }], 900);
    let text = backup_document(&rendered(&totals));
    let mut rows: Vec<&str> = text.lines().skip(1).collect();
    rows.sort();
    assert_eq!(rows, vec!["alice,0.125", "bob,0.5"]);
}
