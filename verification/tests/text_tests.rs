use notion_to_md_rs::text::collapse_newlines;
use notion_to_md_rs::text::contains_str;
use notion_to_md_rs::text::filter_not_containing;
use notion_to_md_rs::text::is_blank;
use notion_to_md_rs::text::join;
use notion_to_md_rs::text::lines;
use notion_to_md_rs::text::prefix_each;
use notion_to_md_rs::text::repeat_str;
use notion_to_md_rs::text::split_after_comma;
use notion_to_md_rs::text::str_starts_with;
use notion_to_md_rs::text::trim;
use notion_to_md_rs::text::trim_end;
use notion_to_md_rs::text::usize_to_string;

#[test]
fn lines_splits_and_strips_carriage_returns() {
    assert_eq!(lines("a\r\nb\n"), vec!["a", "b"]);
    assert_eq!(lines("a\n\nb"), vec!["a", "", "b"]);
    assert_eq!(lines(""), Vec::<String>::new());
    assert_eq!(lines("a\r"), vec!["a\r"]);
}

#[test]
fn collapse_newlines_left_to_right() {
    assert_eq!(collapse_newlines("a\n\nb"), "a\nb");
    assert_eq!(collapse_newlines("a\n\n\nb"), "a\n\nb");
    assert_eq!(collapse_newlines("\n\n\n\n"), "\n\n");
    assert_eq!(collapse_newlines("plain"), "plain");
}

#[test]
fn join_and_prefix_lines() {
    let ls = vec!["a".to_string(), "b".to_string()];
    assert_eq!(join(&ls, "\n"), "a\nb");
    let pre = prefix_each(&ls, "  ");
    assert_eq!(join(&pre, "\n"), "  a\n  b");
    assert_eq!(join(&Vec::new(), "\n"), "");
}

#[test]
fn filter_drops_lines_containing_needle() {
    let ls = vec!["keep".to_string(), "drop me".to_string(), "also keep".to_string()];
    assert_eq!(filter_not_containing(&ls, "drop"), vec!["keep", "also keep"]);
    // every line contains the empty needle
    assert_eq!(filter_not_containing(&ls, ""), Vec::<String>::new());
}

#[test]
fn substring_search() {
    assert!(contains_str("hello world", "lo wo"));
    assert!(!contains_str("hello", "world"));
    assert!(contains_str("x", ""));
    assert!(!contains_str("", "x"));
}

#[test]
fn decimal_rendering() {
    assert_eq!(usize_to_string(0), "0");
    assert_eq!(usize_to_string(7), "7");
    assert_eq!(usize_to_string(120), "120");
    assert_eq!(usize_to_string(98765), "98765");
}

#[test]
fn trimming_whitespace() {
    assert_eq!(trim("  x y\t\n"), "x y");
    assert_eq!(trim("   "), "");
    assert_eq!(trim_end("x \t"), "x");
}

#[test]
fn prefixes_and_splitting() {
    assert!(str_starts_with("data:image", "data:"));
    assert!(!str_starts_with("dat", "data:"));
    assert_eq!(split_after_comma("data:x,y,z"), "y,z");
    assert_eq!(split_after_comma("nope"), "");
    assert_eq!(repeat_str("ab", 3), "ababab");
    assert!(is_blank(" \t\r\n"));
    assert!(!is_blank(" x "));
}
