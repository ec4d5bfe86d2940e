use git_jira::key::{extract_key, extract_keys};
use git_jira::query::{distinct_keys_of, search_expression};

fn some(s: &str) -> Option<String> {
    Some(s.to_string())
}

#[test]
fn key_at_start_of_branch_name() {
    assert_eq!(extract_key("PROJ-123-fix-bug"), some("PROJ-123"));
}

#[test]
fn no_key_gives_none() {
    assert_eq!(extract_key("no-key-here"), None);
    assert_eq!(extract_key(""), None);
    assert_eq!(extract_key("ABC-"), None);
    assert_eq!(extract_key("abc-12"), None);
}

#[test]
fn leftmost_key_is_taken() {
    assert_eq!(extract_key("X-1Y-22"), some("X-1"));
    assert_eq!(extract_key("  feature/AB-7 and CD-8"), some("AB-7"));
}

#[test]
fn key_takes_all_letters_and_digits() {
    assert_eq!(extract_key("* PROJ-12345"), some("PROJ-12345"));
    assert_eq!(extract_key("aBC-1x"), some("BC-1"));
    assert_eq!(extract_key("A-B-3"), some("B-3"));
}

#[test]
fn keys_follow_branch_order() {
    let branches = vec!["PROJ-1-foo".to_string(), "no-key-here".to_string(), "PROJ-2-bar".to_string()];
    assert_eq!(extract_keys(&branches), vec![some("PROJ-1"), None, some("PROJ-2")]);
}

#[test]
fn search_expression_of_three_branches() {
    let branches = vec!["PROJ-1-foo".to_string(), "no-key-here".to_string(), "PROJ-2-bar".to_string()];
    let keys = extract_keys(&branches);
    assert_eq!(search_expression(&keys), "key in (PROJ-1,PROJ-2)");
}

#[test]
fn search_expression_lists_each_key_once() {
    let keys = vec![some("B-2"), some("A-1"), None, some("B-2"), some("C-3"), some("A-1")];
    assert_eq!(distinct_keys_of(&keys), vec!["B-2".to_string(), "A-1".to_string(), "C-3".to_string()]);
    assert_eq!(search_expression(&keys), "key in (B-2,A-1,C-3)");
}

#[test]
fn search_expression_without_keys() {
    assert_eq!(search_expression(&vec![]), "key in ()");
    assert_eq!(search_expression(&vec![None, None]), "key in ()");
}

fn search_params() -> Vec<(String, String)> {
    vec![
        ("jql".to_string(), "key in (PROJ-1,PROJ-2)".to_string()),
        ("fields".to_string(), "summary".to_string()),
    ]
}

#[test]
fn search_url_below_base() {
    assert_eq!(
        git_jira::query::search_url("https://jira.example.com/browse/x", "/rest/api/2/search", &search_params()),
        Some("https://jira.example.com/rest/api/2/search?jql=key+in+%28PROJ-1%2CPROJ-2%29&fields=summary".to_string())
    );
}

#[test]
fn search_url_needs_absolute_base() {
    assert_eq!(git_jira::query::search_url("jira.example.com", "/rest/api/2/search", &search_params()), None);
}

#[test]
fn key_digits_may_be_any_decimal_digits() {
    assert_eq!(extract_key("PROJ-\u{663}-fix"), some("PROJ-\u{663}"));
    assert_eq!(extract_key("AB-1\u{967}2x"), some("AB-1\u{967}2"));
    assert_eq!(extract_key("AB-\u{b2}"), None);
}
