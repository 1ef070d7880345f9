use idle_fighter::number_format::{format_u64_exact, thousands_exponent};
use idle_fighter::text::{is_whitespace, split_paragraphs, trim};

#[test]
fn trim_removes_unicode_whitespace() {
    assert_eq!(trim("  hello world \n"), "hello world");
    assert_eq!(trim("\u{3000}x\u{a0}"), "x");
    assert_eq!(trim(" \t\n "), "");
    assert_eq!(trim(""), "");
    assert_eq!(trim("a"), "a");
    for c in ['\u{85}', '\u{2009}', '\u{202f}', ' ', 'a', '\u{200b}'] {
        assert_eq!(is_whitespace(c), c.is_whitespace());
    }
}

#[test]
fn paragraphs_split_at_blank_lines() {
    let story = "\n  The boss appears.\nIt is large.\n\n   \n\n  It roars.  \n\n";
    assert_eq!(
        split_paragraphs(story),
        Some(vec!["The boss appears.\nIt is large.".to_string(), "It roars.".to_string()])
    );
    assert_eq!(split_paragraphs(""), Some(vec![]));
    assert_eq!(split_paragraphs("one"), Some(vec!["one".to_string()]));
    assert_eq!(
        split_paragraphs("a\nb\n\nc"),
        Some(vec!["a\nb".to_string(), "c".to_string()])
    );
}

#[test]
fn format_u64_exact_below_a_million() {
    assert_eq!(format_u64_exact(0), Some("0".to_string()));
    assert_eq!(format_u64_exact(999), Some("999".to_string()));
    assert_eq!(format_u64_exact(1000), Some("1,000".to_string()));
    assert_eq!(format_u64_exact(999_999), Some("999,999".to_string()));
    assert_eq!(format_u64_exact(1_000_000), None);
}

#[test]
fn thousands_exponent_values() {
    assert_eq!(thousands_exponent(1), 0);
    assert_eq!(thousands_exponent(999), 0);
    assert_eq!(thousands_exponent(1000), 1);
    assert_eq!(thousands_exponent(1_000_000), 2);
    assert_eq!(thousands_exponent(999_999_999), 2);
    assert_eq!(thousands_exponent(u64::MAX), 6);
}
