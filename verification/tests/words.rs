use auto_harness::number::{read_u64, read_usize, show, show_signed};
use auto_harness::text::{
    find, find_last, first_chars, has, join, last_chars, line_one, lines_of, reply_says, same,
    split_last, split_once, trim, trim_end_matches,
};

#[test]
fn replies_are_recognised_whatever_their_case() {
    assert!(reply_says("skip", "SKIP"));
    assert!(reply_says("  Skip: nothing to do\n", "SKIP"));
    assert!(reply_says("new", "NEW"));
    assert!(!reply_says("continue", "NEW"));
    assert!(!reply_says("I skip", "SKIP"));
    assert!(reply_says("straße", "STRASSE"));
    assert!(!reply_says("", "SKIP"));
}

#[test]
fn white_space_is_trimmed_at_both_ends() {
    assert_eq!(trim(" \t a b \n"), "a b");
    assert_eq!(trim("\u{3000}x\u{a0}"), "x");
    assert_eq!(trim("   "), "");
    assert_eq!(trim_end_matches("a/b//", "/"), "a/b");
    assert_eq!(trim_end_matches("```", "```"), "");
}

#[test]
fn parts_are_found_by_their_first_and_last_place() {
    assert_eq!(find("abcabc", "ca"), Some(2));
    assert_eq!(find("äbc", "c"), Some(2));
    assert_eq!(find("abc", "x"), None);
    assert_eq!(find("abc", ""), Some(0));
    assert_eq!(find_last("abcab", "ab"), Some(3));
    assert_eq!(find_last("abc", "x"), None);
    assert!(has("error: no", "error: "));
    assert!(!has("error", "error: "));
    assert!(same("a", "a"));
    assert!(!same("a", "b"));
}

#[test]
fn texts_are_cut_at_a_mark() {
    assert_eq!(split_once("a=b=c", "="), Some(("a", "b=c")));
    assert_eq!(split_last("a=b=c", "="), Some(("a=b", "c")));
    assert_eq!(split_once("abc", "="), None);
    assert_eq!(first_chars("äöü", 2), "äö");
    assert_eq!(first_chars("äöü", 9), "äöü");
    assert_eq!(last_chars("äöü", 2), "öü");
    assert_eq!(last_chars("äöü", 9), "äöü");
}

#[test]
fn lines_end_at_line_feeds() {
    assert_eq!(lines_of("a\nb\r\n\nc"), vec!["a", "b", "", "c"]);
    assert_eq!(lines_of("a\n"), vec!["a"]);
    assert_eq!(lines_of("a\r"), vec!["a\r"]);
    assert!(lines_of("").is_empty());
    assert_eq!(line_one("first\nsecond"), "first");
    assert_eq!(line_one("\nsecond"), "");
    assert_eq!(line_one(""), "");
    let parts = vec!["a".to_string(), "b".to_string(), "".to_string()];
    assert_eq!(join(&parts, ", "), "a, b, ");
    assert_eq!(join(&Vec::new(), ", "), "");
}

#[test]
fn numbers_are_written_and_read_back() {
    assert_eq!(show(0), "0");
    assert_eq!(show(1713300000), "1713300000");
    assert_eq!(show(u64::MAX), "18446744073709551615");
    assert_eq!(read_u64(&show(u64::MAX)), Some(u64::MAX));
    assert_eq!(read_u64("18446744073709551616"), None);
    assert_eq!(read_u64("+7"), Some(7));
    assert_eq!(read_u64("007"), Some(7));
    assert_eq!(read_u64("+"), None);
    assert_eq!(read_u64("-7"), None);
    assert_eq!(read_u64(""), None);
    assert_eq!(read_u64(" 7"), None);
    assert_eq!(read_usize("16000"), Some(16000));
    assert_eq!(show_signed(-1), "-1");
    assert_eq!(show_signed(i32::MIN), "-2147483648");
    assert_eq!(show_signed(101), "101");
}
