use git_jira::report::{branch_report, plan_branch, report_lines, split_lines, BranchPlan, ReportError};
use git_jira::response::{read_issue, summaries_from_response, JsonValue, ResponseError, SummaryMap};

fn text(s: &str) -> JsonValue {
    JsonValue::Text(s.to_string())
}

fn object(members: Vec<(&str, JsonValue)>) -> JsonValue {
    JsonValue::Object(members.into_iter().map(|(k, v)| (k.to_string(), v)).collect())
}

fn issue(key: &str, summary: &str) -> JsonValue {
    object(vec![("key", text(key)), ("fields", object(vec![("summary", text(summary))]))])
}

fn two_issue_response() -> JsonValue {
    object(vec![("issues", JsonValue::Array(vec![issue("PROJ-1", "Fix login"), issue("PROJ-2", "Add logout")]))])
}

fn plan_of(listing: &str) -> (Vec<String>, Vec<Option<String>>, String, Vec<(String, String)>) {
    match plan_branch(true, listing) {
        BranchPlan::Query { branches, keys, path, params } => (branches, keys, path, params),
        BranchPlan::ForwardError => panic!("listing succeeded"),
    }
}

#[test]
fn lines_of_listing() {
    assert_eq!(split_lines("* master\n  PROJ-1-foo\r\n"), vec!["* master".to_string(), "  PROJ-1-foo".to_string()]);
    assert_eq!(split_lines("a\n\nb"), vec!["a".to_string(), "".to_string(), "b".to_string()]);
    assert_eq!(split_lines(""), Vec::<String>::new());
    assert_eq!(split_lines("x\r"), vec!["x\r".to_string()]);
}

#[test]
fn failed_listing_stops_before_the_tracker() {
    assert!(matches!(plan_branch(false, "PROJ-1-foo\n"), BranchPlan::ForwardError));
    assert!(matches!(plan_branch(false, ""), BranchPlan::ForwardError));
}

#[test]
fn successful_listing_plans_one_search() {
    let (branches, keys, path, params) = plan_of("PROJ-1-foo\nno-key-here\nPROJ-2-bar\n");
    assert_eq!(branches, vec!["PROJ-1-foo".to_string(), "no-key-here".to_string(), "PROJ-2-bar".to_string()]);
    assert_eq!(keys, vec![Some("PROJ-1".to_string()), None, Some("PROJ-2".to_string())]);
    assert_eq!(path, "/rest/api/2/search");
    assert_eq!(
        params,
        vec![
            ("jql".to_string(), "key in (PROJ-1,PROJ-2)".to_string()),
            ("fields".to_string(), "summary".to_string())
        ]
    );
}

#[test]
fn report_of_three_branches() {
    let (branches, keys, _, _) = plan_of("PROJ-1-foo\nno-key-here\nPROJ-2-bar\n");
    let lines = branch_report(&branches, &keys, &two_issue_response()).unwrap();
    assert_eq!(
        lines,
        vec!["PROJ-1-foo \tFix login".to_string(), "no-key-here \t".to_string(), "PROJ-2-bar \tAdd logout".to_string()]
    );
}

#[test]
fn report_is_the_same_when_run_twice() {
    let listing = "PROJ-2-bar\nPROJ-1-foo\nmaster\n";
    let (b1, k1, _, _) = plan_of(listing);
    let (b2, k2, _, _) = plan_of(listing);
    let first = branch_report(&b1, &k1, &two_issue_response()).unwrap();
    let second = branch_report(&b2, &k2, &two_issue_response()).unwrap();
    assert_eq!(first, second);
    assert_eq!(first[0], "PROJ-2-bar \tAdd logout");
}

#[test]
fn key_missing_from_response_is_an_error() {
    let (branches, keys, _, _) = plan_of("PROJ-1-foo\nPROJ-3-baz\nPROJ-4-qux\n");
    assert_eq!(
        branch_report(&branches, &keys, &two_issue_response()),
        Err(ReportError::MissingSummary("PROJ-3".to_string()))
    );
}

#[test]
fn response_without_issues_is_an_error() {
    let branches = vec!["master".to_string()];
    let keys = vec![None];
    assert_eq!(
        branch_report(&branches, &keys, &object(vec![("total", JsonValue::Number)])),
        Err(ReportError::Response(ResponseError::MissingIssues))
    );
    assert_eq!(
        branch_report(&branches, &keys, &object(vec![("issues", text("none"))])),
        Err(ReportError::Response(ResponseError::MissingIssues))
    );
    assert!(summaries_from_response(&JsonValue::Null).is_err());
}

#[test]
fn malformed_issue_is_an_error() {
    let response = object(vec![(
        "issues",
        JsonValue::Array(vec![issue("PROJ-1", "Fix login"), object(vec![("key", text("PROJ-2"))])]),
    )]);
    assert_eq!(summaries_from_response(&response).err(), Some(ResponseError::MalformedIssue(1)));
    assert_eq!(read_issue(&object(vec![("key", JsonValue::Bool(true))])), None);
}

#[test]
fn later_issue_with_same_key_wins() {
    let response = object(vec![("issues", JsonValue::Array(vec![issue("A-1", "old"), issue("A-1", "new")]))]);
    let map = summaries_from_response(&response).unwrap();
    assert_eq!(map.get(&"A-1".to_string()), Some("new".to_string()));
    assert_eq!(map.get(&"A-2".to_string()), None);
}

#[test]
fn summary_map_lookup() {
    let mut m = SummaryMap::new();
    m.insert("K-1".to_string(), "one".to_string());
    m.insert("K-2".to_string(), "two".to_string());
    m.insert("K-1".to_string(), "uno".to_string());
    assert_eq!(m.get(&"K-1".to_string()), Some("uno".to_string()));
    assert_eq!(m.get(&"K-2".to_string()), Some("two".to_string()));
    let branches = vec!["b".to_string(), "K-2-x".to_string()];
    let keys = vec![None, Some("K-2".to_string())];
    assert_eq!(report_lines(&branches, &keys, &m), Ok(vec!["b \t".to_string(), "K-2-x \ttwo".to_string()]));
}
