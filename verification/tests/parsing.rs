use gpu_monitor::number::{decimal_of, parse_u32, parse_u64, parse_unsigned};
use gpu_monitor::text::{
    chars_of, copy_range, find_first, is_free_of_whitespace, is_whitespace, push_all, split_on,
    string_of, trimmed,
};

fn chars(s: &str) -> Vec<char> {
    s.chars().collect()
}

fn text(v: &[char]) -> String {
    v.iter().collect()
}

#[test]
fn chars_of_keeps_every_character() {
    assert_eq!(chars_of("a\u{e9}\u{4e2d}!"), vec!['a', '\u{e9}', '\u{4e2d}', '!']);
    assert_eq!(chars_of(""), Vec::<char>::new());
}

#[test]
fn string_of_is_the_inverse_of_chars_of() {
    assert_eq!(string_of(&chars("pid=,user=")), "pid=,user=");
    assert_eq!(string_of(&chars_of("gr\u{fc}n")), "gr\u{fc}n");
    assert_eq!(string_of(&[]), "");
}

#[test]
fn whitespace_is_the_unicode_property() {
    for c in [' ', '\t', '\n', '\u{b}', '\u{c}', '\r', '\u{85}', '\u{a0}', '\u{1680}', '\u{2000}',
        '\u{200a}', '\u{2028}', '\u{2029}', '\u{202f}', '\u{205f}', '\u{3000}']
    {
        assert!(is_whitespace(c));
        assert!(c.is_whitespace());
    }
    for c in ['a', '0', ',', '\u{8}', '\u{e}', '\u{200b}', '\u{180e}', '\u{feff}', '\u{84}', '\u{86}'] {
        assert!(!is_whitespace(c));
        assert!(!c.is_whitespace());
    }
}

#[test]
fn whitespace_agrees_with_std_on_every_character() {
    let mut n: u32 = 0;
    while n <= 0x10FFFF {
        if let Some(c) = char::from_u32(n) {
            assert_eq!(is_whitespace(c), c.is_whitespace());
        }
        n += 1;
    }
}

#[test]
fn trimmed_drops_both_ends_only() {
    assert_eq!(text(&trimmed(&chars("  a b \t\r"))), "a b");
    assert_eq!(text(&trimmed(&chars("\u{a0}12\u{3000}"))), "12");
    assert_eq!(text(&trimmed(&chars("x"))), "x");
    assert_eq!(text(&trimmed(&chars(" \t \n"))), "");
    assert_eq!(text(&trimmed(&chars(""))), "");
}

#[test]
fn trimmed_agrees_with_std() {
    for s in ["", " ", "a", " a", "a ", " a b ", "\r\n", "\u{2003}x\u{2003}y\u{2003}", "\u{200b} z"] {
        assert_eq!(text(&trimmed(&chars(s))), s.trim());
    }
}

#[test]
fn split_on_gives_one_piece_more_than_separators() {
    let pieces: Vec<String> = split_on(&chars("a,b,,c"), ',').iter().map(|p| text(p)).collect();
    assert_eq!(pieces, vec!["a", "b", "", "c"]);
    let pieces: Vec<String> = split_on(&chars(""), ',').iter().map(|p| text(p)).collect();
    assert_eq!(pieces, vec![""]);
    let pieces: Vec<String> = split_on(&chars(","), ',').iter().map(|p| text(p)).collect();
    assert_eq!(pieces, vec!["", ""]);
    let pieces: Vec<String> = split_on(&chars("one\ntwo\n"), '\n').iter().map(|p| text(p)).collect();
    assert_eq!(pieces, vec!["one", "two", ""]);
}

#[test]
fn split_on_agrees_with_std() {
    for s in ["", ",", "a", "a,", ",a", "1, 2", "1,2,3", ",,,", "x\u{e9},\u{e9}y"] {
        let ours: Vec<String> = split_on(&chars(s), ',').iter().map(|p| text(p)).collect();
        let theirs: Vec<String> = s.split(',').map(|p| p.to_string()).collect();
        assert_eq!(ours, theirs);
    }
}

#[test]
fn find_first_finds_the_first() {
    assert_eq!(find_first(&chars("12 alice bob"), ' '), 2);
    assert_eq!(find_first(&chars(" x"), ' '), 0);
    assert_eq!(find_first(&chars("none"), ' '), 4);
    assert_eq!(find_first(&chars(""), ' '), 0);
}

#[test]
fn copy_range_copies_the_range() {
    assert_eq!(text(&copy_range(&chars("abcdef"), 1, 4)), "bcd");
    assert_eq!(text(&copy_range(&chars("abcdef"), 6, 6)), "");
    assert_eq!(text(&copy_range(&chars("abcdef"), 0, 6)), "abcdef");
}

#[test]
fn push_all_appends() {
    let mut v = chars("ab");
    push_all(&mut v, &chars("cd"));
    assert_eq!(text(&v), "abcd");
    push_all(&mut v, &[]);
    assert_eq!(text(&v), "abcd");
}

#[test]
fn numerals_are_read() {
    assert_eq!(parse_u64(&chars("42")), Some(42));
    assert_eq!(parse_u64(&chars("0")), Some(0));
    assert_eq!(parse_u64(&chars("+7")), Some(7));
    assert_eq!(parse_u64(&chars("007")), Some(7));
    assert_eq!(parse_u64(&chars("18446744073709551615")), Some(u64::MAX));
    assert_eq!(parse_u64(&chars("000000000000000000000000000000000001")), Some(1));
    assert_eq!(parse_u32(&chars("4294967295")), Some(u32::MAX));
    assert_eq!(parse_unsigned(&chars("100"), 100), Some(100));
}

#[test]
fn what_is_no_numeral_is_refused() {
    for s in ["", "+", "-", "-1", "++1", "+-1", " 1", "1 ", "1_000", "12a", "a12", "1.5", "0x10",
        "\u{661}\u{662}"]
    {
        assert_eq!(parse_u64(&chars(s)), None);
        assert_eq!(parse_u32(&chars(s)), None);
    }
}

#[test]
fn numerals_above_the_bound_are_refused() {
    assert_eq!(parse_u64(&chars("18446744073709551616")), None);
    assert_eq!(parse_u64(&chars("99999999999999999999999999999999999999999")), None);
    assert_eq!(parse_u32(&chars("4294967296")), None);
    assert_eq!(parse_unsigned(&chars("101"), 100), None);
    assert_eq!(parse_unsigned(&chars("1"), 0), None);
    assert_eq!(parse_unsigned(&chars("0"), 0), Some(0));
}

#[test]
fn numerals_agree_with_std() {
    for s in ["", "0", "+0", "-0", "12", "+12", "0012", "4294967295", "4294967296",
        "18446744073709551615", "18446744073709551616", "1e3", " 3", "3\n"]
    {
        assert_eq!(parse_u32(&chars(s)), s.parse::<u32>().ok());
        assert_eq!(parse_u64(&chars(s)), s.parse::<u64>().ok());
    }
}

#[test]
fn decimal_numerals_are_written() {
    assert_eq!(text(&decimal_of(0)), "0");
    assert_eq!(text(&decimal_of(9)), "9");
    assert_eq!(text(&decimal_of(10)), "10");
    assert_eq!(text(&decimal_of(1700000000)), "1700000000");
    assert_eq!(text(&decimal_of(u64::MAX)), "18446744073709551615");
}

#[test]
fn what_is_written_reads_back() {
    for n in [0u64, 1, 9, 10, 99, 100, 4294967295, 4294967296, u64::MAX - 1, u64::MAX] {
        assert_eq!(parse_u64(&decimal_of(n)), Some(n));
        assert_eq!(text(&decimal_of(n)), n.to_string());
    }
}

#[test]
fn a_word_is_free_of_whitespace() {
    for s in ["", "alice", "a-b_c.d", "\u{200b}", "x,y"] {
        assert!(is_free_of_whitespace(&chars(s)));
    }
    for s in [" ", "a b", "a\tb", "ab\n", "\ra", "a\u{a0}b", "a\u{3000}"] {
        assert!(!is_free_of_whitespace(&chars(s)));
    }
}
