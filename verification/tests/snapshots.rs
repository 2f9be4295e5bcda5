use gpu_monitor::snapshot::{
    join_owners, owner_query, parse_app_line, parse_compute_apps, parse_owner_line, parse_owners,
    snapshot, LogEntry,
};
use std::collections::HashMap;

fn chars(s: &str) -> Vec<char> {
    s.chars().collect()
}

fn pairs(entries: &[LogEntry]) -> Vec<(String, u64)> {
    entries.iter().map(|e| (e.user.clone(), e.mem_mib)).collect()
}

#[test]
fn process_lines_are_read_in_order() {
    assert_eq!(parse_compute_apps("1234, 2048\n5678, 512\n"), vec![(1234, 2048), (5678, 512)]);
    assert_eq!(parse_compute_apps("1234,2048"), vec![(1234, 2048)]);
    assert_eq!(parse_compute_apps(" 7 ,\t9 \r\n8,10\r\n"), vec![(7, 9), (8, 10)]);
}

#[test]
fn the_same_process_may_appear_twice() {
    assert_eq!(parse_compute_apps("5, 1\n5, 2\n"), vec![(5, 1), (5, 2)]);
}

#[test]
fn malformed_process_lines_are_skipped() {
    let text = "pid, used_gpu_memory [MiB]\n1,2,3\nabc, 5\n12, \n42\n\n, 7\n-3, 4\n9, 1.5\n7, 9\n";
    assert_eq!(parse_compute_apps(text), vec![(7, 9)]);
}

#[test]
fn a_line_without_two_fields_changes_nothing() {
    let well_formed = "10, 100\n20, 200\n";
    let expected = vec![(10, 100), (20, 200)];
    assert_eq!(parse_compute_apps(well_formed), expected);
    for odd in ["", "30", "30,300,3000", ",,", "no commas here", "1,2,3,4"] {
        let text = format!("10, 100\n{}\n20, 200\n", odd);
        assert_eq!(parse_compute_apps(&text), expected);
        assert_eq!(parse_app_line(&chars(odd)), None);
    }
}

#[test]
fn process_ids_and_memory_have_their_bounds() {
    assert_eq!(parse_app_line(&chars("4294967295, 18446744073709551615")), Some((u32::MAX, u64::MAX)));
    assert_eq!(parse_app_line(&chars("4294967296, 1")), None);
    assert_eq!(parse_app_line(&chars("1, 18446744073709551616")), None);
    assert_eq!(parse_app_line(&chars("+1, +2")), Some((1, 2)));
}

#[test]
fn empty_output_has_no_process() {
    assert_eq!(parse_compute_apps(""), vec![]);
    assert_eq!(parse_compute_apps("\n\n"), vec![]);
    assert_eq!(parse_compute_apps("No running processes found\n"), vec![]);
}

#[test]
fn no_process_means_no_ownership_query() {
    assert_eq!(owner_query(&vec![]), None);
    assert_eq!(owner_query(&parse_compute_apps("garbage\n")), None);
}

#[test]
fn the_ownership_query_lists_the_process_ids() {
    assert_eq!(owner_query(&vec![(1234, 1)]), Some("1234".to_string()));
    assert_eq!(owner_query(&vec![(1234, 1), (5678, 2)]), Some("1234,5678".to_string()));
    assert_eq!(
        owner_query(&vec![(0, 1), (4294967295, 2), (7, 3), (7, 4)]),
        Some("0,4294967295,7,7".to_string())
    );
}

#[test]
fn owner_lines_are_read() {
    assert_eq!(parse_owner_line(&chars("  1234 alice")), Some((1234, chars("alice"))));
    assert_eq!(parse_owner_line(&chars("1234   alice  \r")), Some((1234, chars("alice"))));
    assert_eq!(parse_owner_line(&chars("1234\t alice")), Some((1234, chars("alice"))));
    assert_eq!(parse_owner_line(&chars("1  alice")), Some((1, chars("alice"))));
}

#[test]
fn an_owner_line_with_more_than_two_words_is_skipped() {
    for odd in ["1 a b", "100 alice bob", "100 alice\tbob", "100 alice bob carol", "1 2 alice",
        "100 alice\u{a0}bob", "  100   alice   bob  "]
    {
        assert_eq!(parse_owner_line(&chars(odd)), None);
    }
    assert!(parse_owners("100 alice bob\n").is_empty());
    let owners = parse_owners("100 alice bob\n200 carol\n");
    assert_eq!(owners.len(), 1);
    assert_eq!(owners.get(&200), Some(&"carol".to_string()));
}

#[test]
fn a_process_named_on_a_line_of_three_words_stays_unresolved() {
    assert!(snapshot("100, 2048\n", "100 alice bob\n").is_empty());
    let entries = snapshot("100, 2048\n200, 512\n", "100 alice bob\n200 carol\n");
    assert_eq!(pairs(&entries), vec![("carol".to_string(), 512)]);
}

#[test]
fn a_later_line_of_three_words_does_not_replace_an_owner() {
    let owners = parse_owners("100 alice\n100 bob carol\n");
    assert_eq!(owners.get(&100), Some(&"alice".to_string()));
}

#[test]
fn malformed_owner_lines_are_skipped() {
    for odd in ["", "   ", "1234", "1234\talice", "alice 1234", "12x4 alice", "4294967296 alice", "-1 bob"] {
        assert_eq!(parse_owner_line(&chars(odd)), None);
    }
    let owners = parse_owners("PID USER\n  12 alice\nnonsense\n\n 34 bob\n56\n");
    assert_eq!(owners.len(), 2);
    assert_eq!(owners.get(&12), Some(&"alice".to_string()));
    assert_eq!(owners.get(&34), Some(&"bob".to_string()));
}

#[test]
fn the_later_owner_line_counts() {
    let owners = parse_owners("12 alice\n12 bob\n");
    assert_eq!(owners.len(), 1);
    assert_eq!(owners.get(&12), Some(&"bob".to_string()));
}

#[test]
fn empty_ownership_output_has_no_owner() {
    assert!(parse_owners("").is_empty());
    assert!(parse_owners("\n \n").is_empty());
}

#[test]
fn processes_are_joined_with_their_owners() {
    let mut owners: HashMap<u32, String> = HashMap::new();
    owners.insert(1, "alice".to_string());
    owners.insert(2, "bob".to_string());
    let entries = join_owners(&vec![(2, 20), (1, 10), (2, 5)], &owners);
    assert_eq!(
        pairs(&entries),
        vec![("bob".to_string(), 20), ("alice".to_string(), 10), ("bob".to_string(), 5)]
    );
}

#[test]
fn a_process_without_a_known_owner_is_dropped() {
    let mut owners: HashMap<u32, String> = HashMap::new();
    owners.insert(1, "alice".to_string());
    let entries = join_owners(&vec![(1, 10), (99, 1000), (1, 30)], &owners);
    assert_eq!(pairs(&entries), vec![("alice".to_string(), 10), ("alice".to_string(), 30)]);
    assert!(join_owners(&vec![(1, 10)], &HashMap::new()).is_empty());
    assert!(join_owners(&vec![], &owners).is_empty());
}

#[test]
fn a_snapshot_is_read_from_both_outputs() {
    let entries = snapshot("100, 2048\n200, 512\n300, 64\n", "  100 alice\n  300 carol\n");
    assert_eq!(pairs(&entries), vec![("alice".to_string(), 2048), ("carol".to_string(), 64)]);
    assert!(snapshot("", "100 alice\n").is_empty());
    assert!(snapshot("100, 2048\n", "").is_empty());
}
