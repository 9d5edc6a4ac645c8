use ytdlpbot::files::{find_file_pat, out_file, OutFileError};
use ytdlpbot::prefs::CutInterval;
use ytdlpbot::text::{parse_i64, str_eq, str_le, str_starts_with, tokenize};

#[test]
fn tokenize_splits_on_whitespace() {
    assert_eq!(tokenize("a b  c"), vec!["a", "b", "c"]);
    assert_eq!(tokenize("  lead and\ttab\nline  "), vec!["lead", "and", "tab", "line"]);
    assert_eq!(tokenize(""), Vec::<String>::new());
    assert_eq!(tokenize("   \t\n"), Vec::<String>::new());
    assert_eq!(tokenize("single"), vec!["single"]);
}

#[test]
fn tokenize_splits_on_unicode_whitespace() {
    // The full White_Space set separates tokens: no-break space, en quad,
    // vertical tab, next line, ideographic space.
    assert_eq!(tokenize("a\u{a0}b"), vec!["a", "b"]);
    assert_eq!(tokenize("a\u{2000}b\u{200a}c"), vec!["a", "b", "c"]);
    assert_eq!(tokenize("a\u{b}b"), vec!["a", "b"]);
    assert_eq!(tokenize("a\u{85}b\u{3000}c"), vec!["a", "b", "c"]);
    // A non-whitespace exotic character does not separate.
    assert_eq!(tokenize("a\u{200b}b"), vec!["a\u{200b}b"]);
}

#[test]
fn parse_i64_accepts_signed_decimals() {
    assert_eq!(parse_i64("0"), Some(0));
    assert_eq!(parse_i64("42"), Some(42));
    assert_eq!(parse_i64("+42"), Some(42));
    assert_eq!(parse_i64("-42"), Some(-42));
    assert_eq!(parse_i64("007"), Some(7));
    assert_eq!(parse_i64("9223372036854775807"), Some(i64::MAX));
    assert_eq!(parse_i64("-9223372036854775808"), Some(i64::MIN));
}

#[test]
fn parse_i64_rejects_junk_and_overflow() {
    assert_eq!(parse_i64(""), None);
    assert_eq!(parse_i64("+"), None);
    assert_eq!(parse_i64("-"), None);
    assert_eq!(parse_i64("12a"), None);
    assert_eq!(parse_i64("a12"), None);
    assert_eq!(parse_i64("1 2"), None);
    assert_eq!(parse_i64("12.5"), None);
    assert_eq!(parse_i64("9223372036854775808"), None);
    assert_eq!(parse_i64("-9223372036854775809"), None);
    assert_eq!(parse_i64("99999999999999999999999"), None);
}

#[test]
fn interval_parse_follows_the_integer_grammar() {
    assert_eq!(CutInterval::parse("3", "9"), Ok(CutInterval { start: 3, end: 9 }));
    assert_eq!(CutInterval::parse("-1", "2"), Ok(CutInterval { start: -1, end: 2 }));
    assert!(CutInterval::parse("3", "x").is_err());
    assert!(CutInterval::parse("", "9").is_err());
}

#[test]
fn string_helpers_compare_by_characters() {
    assert!(str_eq("none", "none"));
    assert!(!str_eq("none", "nonesuch"));
    assert!(str_starts_with("vp09.2", "vp"));
    assert!(!str_starts_with("av01", "vp"));
    assert!(str_starts_with("anything", ""));
    assert!(str_le("abc", "abd"));
    assert!(str_le("ab", "abc"));
    assert!(!str_le("b", "abc"));
    assert!(str_le("same", "same"));
}

#[test]
fn find_file_pat_picks_least_matching_entry() {
    let files = vec![
        "7_vid.mp4.part".to_string(),
        "7_vid.mp4".to_string(),
        "8_other.mp4".to_string(),
    ];
    let found = find_file_pat(&files, &"7_vid".to_string()).unwrap();
    assert_eq!(found, "7_vid.mp4");
    assert!(find_file_pat(&files, &"9_gone".to_string()).is_err());
    assert!(find_file_pat(&Vec::new(), &"7_vid".to_string()).is_err());
}

#[test]
fn out_file_inserts_cut_before_the_extension() {
    assert_eq!(out_file(&"dl/7_vid.mp4".to_string()), Ok("dl/7_vid.cut.mp4".to_string()));
    assert_eq!(out_file(&"plain.webm".to_string()), Ok("plain.cut.webm".to_string()));
    assert_eq!(
        out_file(&"a/b/c.tar.gz".to_string()),
        Ok("a/b/c.tar.cut.gz".to_string())
    );
    assert_eq!(out_file(&"dl/".to_string()), Err(OutFileError::EmptyFileName));
    assert_eq!(out_file(&"dl/noext".to_string()), Err(OutFileError::NoExtension));
    assert_eq!(out_file(&"dl/.hidden".to_string()), Err(OutFileError::NoExtension));
}
