use blxlib::pattern::{found_or_rejected, search, PatternRejected};

fn texts(groups: &[Option<&str>]) -> Vec<Option<String>> {
    groups.iter().map(|g| g.map(|s| s.to_string())).collect()
}

#[test]
fn search_gives_the_groups_of_the_match() {
    assert_eq!(
        search(r"(\w+)@(\w+)", "to: someone@example, cc: other@example"),
        Ok(Some(texts(&[Some("someone@example"), Some("someone"), Some("example")])))
    );
    assert_eq!(search("b+", "aabbbcc"), Ok(Some(texts(&[Some("bbb")]))));
}

#[test]
fn search_marks_groups_that_took_no_part() {
    assert_eq!(
        search("a(b)?(c)", "xxac"),
        Ok(Some(texts(&[Some("ac"), None, Some("c")])))
    );
}

#[test]
fn search_finds_nothing_where_nothing_matches() {
    assert_eq!(search("^(.{8})", "1234567"), Ok(None));
    assert_eq!(search("^(.{8})", "1234\n5678"), Ok(None));
    assert_eq!(search(r"(\d+)\.(\d+)\.(\d+)$", "1.2.3 "), Ok(None));
    assert_eq!(search("x", ""), Ok(None));
}

#[test]
fn search_for_the_revision_pattern() {
    assert_eq!(
        search("^(.{8})", "12345678abc"),
        Ok(Some(texts(&[Some("12345678"), Some("12345678")])))
    );
}

#[test]
fn search_refuses_a_bad_pattern() {
    assert_eq!(search("(", "text"), Err(PatternRejected));
    assert_eq!(search(r"\", "text"), Err(PatternRejected));
    assert_eq!(search("a{2,1}", "aa"), Err(PatternRejected));
}

#[test]
fn found_or_rejected_keeps_what_was_found() {
    assert_eq!(found_or_rejected(Ok(None)), Ok(None));
    let groups = texts(&[Some("ac"), None, Some("c")]);
    assert_eq!(found_or_rejected(Ok(Some(groups.clone()))), Ok(Some(groups)));
}

#[test]
fn found_or_rejected_replaces_the_error_of_the_matcher() {
    let refused = regex::Regex::new("(").map(|_| None);
    assert!(refused.is_err());
    assert_eq!(found_or_rejected(refused), Err(PatternRejected));
}

#[test]
fn search_refuses_a_sound_pattern_that_compiles_too_large() {
    assert_eq!(search(r"\w{1000}", "text"), Err(PatternRejected));
    assert!(search(r"(?-u:\w){1000}", "text").is_ok());
}
