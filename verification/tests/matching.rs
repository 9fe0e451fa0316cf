use launcher::matching::{entry_matches, AppEntry};
use launcher::text::{find_sub, lower_vec, matches_ignore_case};

fn entry(
    id: u64,
    show: bool,
    name: Option<&str>,
    description: Option<&str>,
    keywords: &[&str],
) -> AppEntry {
    AppEntry {
        id,
        show,
        name: name.map(|s| s.as_bytes().to_vec()),
        description: description.map(|s| s.as_bytes().to_vec()),
        keywords: keywords.iter().map(|s| s.as_bytes().to_vec()).collect(),
    }
}

fn q(s: &str) -> Vec<u8> {
    s.as_bytes().to_vec()
}

#[test]
fn lower_vec_folds_ascii_only() {
    let v = q("MiXeD 123 [Az]");
    assert_eq!(lower_vec(&v), q("mixed 123 [az]"));
}

#[test]
fn find_sub_first_occurrence() {
    assert_eq!(find_sub(&q("hello world"), &q("o w")), Some(4));
    assert_eq!(find_sub(&q("aaa"), &q("aa")), Some(0));
    assert_eq!(find_sub(&q("abc"), &q("d")), None);
    assert_eq!(find_sub(&q("abc"), &q("abcd")), None);
}

#[test]
fn find_sub_empty_needle() {
    assert_eq!(find_sub(&q(""), &q("")), Some(0));
    assert_eq!(find_sub(&q("abc"), &q("")), Some(0));
}

#[test]
fn matches_ignore_case_both_sides() {
    assert!(matches_ignore_case(&q("Firefox Web Browser"), &q("FIRE")));
    assert!(matches_ignore_case(&q("TERMINAL"), &q("term")));
    assert!(!matches_ignore_case(&q("Files"), &q("browser")));
}

#[test]
fn name_match_is_case_insensitive() {
    let e = entry(1, true, Some("Firefox Web Browser"), None, &[]);
    assert!(entry_matches(&e, &q("fire")));
    assert!(entry_matches(&e, &q("WEB")));
    assert!(!entry_matches(&e, &q("chromium")));
}

#[test]
fn description_is_searched() {
    let e = entry(2, true, Some("Files"), Some("Browse the file system"), &[]);
    assert!(entry_matches(&e, &q("file system")));
}

#[test]
fn keywords_are_searched() {
    let e = entry(3, true, Some("Shotwell"), None, &["photos", "camera"]);
    assert!(entry_matches(&e, &q("CAMERA")));
    assert!(!entry_matches(&e, &q("video")));
}

#[test]
fn hidden_entry_never_matches() {
    let e = entry(4, false, Some("Hidden Tool"), Some("hidden"), &["hidden"]);
    assert!(!entry_matches(&e, &q("hidden")));
    assert!(!entry_matches(&e, &q("")));
}

#[test]
fn empty_query_matches_any_named_entry() {
    let e = entry(5, true, Some("Calculator"), None, &[]);
    assert!(entry_matches(&e, &q("")));
}

#[test]
fn entry_without_texts_matches_nothing() {
    let e = entry(6, true, None, None, &[]);
    assert!(!entry_matches(&e, &q("")));
    assert!(!entry_matches(&e, &q("a")));
}
