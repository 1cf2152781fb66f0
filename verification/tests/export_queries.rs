use req_cli::batch::op_add;
use req_cli::cli::{ListArgs, StatusArg};
use req_cli::export::{csv_field, html_escape, to_csv, to_html_ctx};
use req_cli::model::{ActionContext, ActorKind, Project};
use req_cli::queries::{filter, is_test_path, verified_but_defective};

fn ctx() -> ActionContext {
    ActionContext {
        now: "2025-01-02T03:04:05Z".to_string(),
        actor: "alice".to_string(),
        actor_kind: ActorKind::Human,
        on_behalf_of: None,
        head: None,
    }
}

fn add(p: &mut Project, title: &str, statement: &str, tags: Vec<&str>) -> String {
    op_add(
        p,
        title.to_string(),
        statement.to_string(),
        "because".to_string(),
        None,
        None,
        vec![],
        tags.into_iter().map(|t| t.to_string()).collect(),
        None,
        None,
        &None,
        &ctx(),
        false,
    )
    .unwrap()
}

fn list_args() -> ListArgs {
    ListArgs { status: None, include_obsolete: false, kind: None, priority: None, tag: vec![], query: None, json: false }
}

#[test]
fn csv_fields_are_quoted_only_when_needed() {
    assert_eq!(csv_field("plain"), "plain");
    assert_eq!(csv_field("a,b"), "\"a,b\"");
    assert_eq!(csv_field("say \"hi\""), "\"say \"\"hi\"\"\"");
    assert_eq!(csv_field("two\nlines"), "\"two\nlines\"");
    assert_eq!(csv_field(""), "");
}

#[test]
fn csv_export_has_a_header_and_a_row_per_requirement() {
    let mut p = Project::new("demo".to_string(), ctx().now);
    add(&mut p, "Login works", "The user shall log in, quickly", vec!["auth", "ui"]);
    let csv = to_csv(&p).unwrap();
    let lines: Vec<&str> = csv.lines().collect();
    assert_eq!(lines[0], "id,title,kind,priority,status,tags,statement");
    assert_eq!(lines.len(), 2);
    assert!(lines[1].starts_with("REQ-0001,Login works,"));
    assert!(lines[1].ends_with(",auth|ui,\"The user shall log in, quickly\""));
}

#[test]
fn html_escapes_markup() {
    assert_eq!(html_escape("a < b && c > d"), "a &lt; b &amp;&amp; c &gt; d");
    let p = Project::new("<x>".to_string(), "t".to_string());
    let page = to_html_ctx(&p, "# T & U");
    assert!(page.starts_with("<!doctype html><html><head><meta charset=\"utf-8\"><title>&lt;x&gt;</title>"));
    assert!(page.contains("# T &amp; U</pre></body></html>"));
}

#[test]
fn test_paths_are_recognised() {
    assert!(is_test_path("tests/foo.rs:12"));
    assert!(is_test_path("./tests/foo.rs"));
    assert!(is_test_path("crate/TESTS/x.rs:3"));
    assert!(is_test_path("src\\tests\\x.rs"));
    assert!(is_test_path("src/foo_test.rs:10"));
    assert!(is_test_path("web/app.test.tsx"));
    assert!(is_test_path("pkg/mod_test.go:7"));
    assert!(!is_test_path("src/foo.rs:10"));
    assert!(!is_test_path("src/contest.rs"));
}

#[test]
fn listing_filters_by_tag_query_and_status() {
    let mut p = Project::new("demo".to_string(), ctx().now);
    add(&mut p, "Login works", "The user shall log in", vec!["auth"]);
    add(&mut p, "Logout works", "The user shall LOG out", vec!["auth", "ui"]);
    add(&mut p, "Export", "CSV export", vec![]);
    let all = filter(&p, &list_args());
    assert_eq!(all.len(), 3);
    let mut a = list_args();
    a.tag = vec!["auth".to_string(), "ui".to_string()];
    let r = filter(&p, &a);
    assert_eq!(r.len(), 1);
    assert_eq!(r[0].id, "REQ-0002");
    let mut a = list_args();
    a.query = Some("log".to_string());
    assert_eq!(filter(&p, &a).len(), 2);
    let mut a = list_args();
    a.status = Some(StatusArg::Verified);
    assert_eq!(filter(&p, &a).len(), 0);
}

#[test]
fn nothing_verified_is_defective_in_a_fresh_project() {
    let mut p = Project::new("demo".to_string(), ctx().now);
    add(&mut p, "A", "The system shall do A", vec![]);
    assert!(verified_but_defective(&p).is_empty());
}
