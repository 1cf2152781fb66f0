use req_cli::batch::{op_add, op_update};
use req_cli::cli::{NextArgs, PriorityArg, StatusArg};
use req_cli::diff::{changed_req_ids, compare, diff_projects, latest_history_reason, parse_range};
use req_cli::errors::ReqError;
use req_cli::import::{import_candidates, import_kind, import_priority, parse_markdown};
use req_cli::lint::{build_report, marker_scan_wanted, Finding, FindingGroup};
use req_cli::links::op_link;
use req_cli::model::{ActionContext, ActorKind, Kind, LinkKind, Priority, Project, Status};
use req_cli::next::{dependencies_satisfied, pick_next};
use req_cli::renumber::renumber;
use req_cli::testrun::SourceText;

fn ctx() -> ActionContext {
    ActionContext {
        now: "2025-03-04T05:06:07Z".to_string(),
        actor: "bob".to_string(),
        actor_kind: ActorKind::Human,
        on_behalf_of: None,
        head: None,
    }
}

fn add(p: &mut Project, title: &str, priority: &str, rationale: &str, acceptance: Vec<&str>) -> String {
    op_add(
        p,
        title.to_string(),
        format!("The system shall {title}"),
        rationale.to_string(),
        None,
        Some(priority.to_string()),
        acceptance.into_iter().map(|s| s.to_string()).collect(),
        vec![],
        None,
        None,
        &None,
        &ctx(),
        false,
    )
    .unwrap()
}

fn set_status(p: &mut Project, id: &str, status: &str) {
    op_update(
        p,
        id.to_string(),
        None,
        None,
        None,
        None,
        vec![],
        None,
        None,
        Some(status.to_string()),
        vec![],
        vec![],
        Some("moving it along".to_string()),
        true,
        &None,
        &ctx(),
    )
    .unwrap();
}

fn no_filters() -> NextArgs {
    NextArgs { status: None, kind: None, priority: None, tag: vec![], json: false }
}

#[test]
fn next_prefers_priority_then_id() {
    let mut p = Project::new("n".to_string(), "t".to_string());
    add(&mut p, "one", "should", "r", vec![]);
    add(&mut p, "two", "must", "r", vec![]);
    add(&mut p, "three", "must", "r", vec![]);
    assert_eq!(pick_next(&p, &no_filters()).unwrap().id, "REQ-0002");
    let should_only = NextArgs { priority: Some(PriorityArg::Should), ..no_filters() };
    assert_eq!(pick_next(&p, &should_only).unwrap().id, "REQ-0001");
}

#[test]
fn next_skips_requirements_with_open_dependencies() {
    let mut p = Project::new("n".to_string(), "t".to_string());
    add(&mut p, "one", "should", "r", vec![]);
    add(&mut p, "two", "must", "r", vec![]);
    add(&mut p, "three", "must", "r", vec![]);
    op_link(&mut p, "REQ-0002", "REQ-0001", LinkKind::DependsOn, false, &ctx()).unwrap();
    assert!(!dependencies_satisfied(p.requirements.get("REQ-0002").unwrap(), &p));
    assert_eq!(pick_next(&p, &no_filters()).unwrap().id, "REQ-0003");
    set_status(&mut p, "REQ-0001", "implemented");
    assert!(dependencies_satisfied(p.requirements.get("REQ-0002").unwrap(), &p));
    assert_eq!(pick_next(&p, &no_filters()).unwrap().id, "REQ-0002");
}

#[test]
fn next_finds_nothing_when_all_is_filtered_out() {
    let mut p = Project::new("n".to_string(), "t".to_string());
    add(&mut p, "one", "should", "r", vec![]);
    let verified = NextArgs { status: Some(StatusArg::Verified), ..no_filters() };
    assert!(pick_next(&p, &verified).is_none());
    let tagged = NextArgs { tag: vec!["ui".to_string()], ..no_filters() };
    assert!(pick_next(&p, &tagged).is_none());
}

#[test]
fn diff_ranges_default_the_head() {
    assert_eq!(parse_range("v1..v2").unwrap(), ("v1".to_string(), "v2".to_string()));
    assert_eq!(parse_range(" v1 .. ").unwrap(), ("v1".to_string(), "HEAD".to_string()));
    assert_eq!(parse_range("main").unwrap(), ("main".to_string(), "HEAD".to_string()));
    assert!(matches!(parse_range("..v2"), Err(ReqError::NoBaseRef)));
    assert!(matches!(parse_range(""), Err(ReqError::NoBaseRef)));
    match parse_range("req-0004..HEAD") {
        Err(ReqError::IdNotRevision { spec, base }) => {
            assert_eq!(spec, "req-0004..HEAD");
            assert_eq!(base, "req-0004");
        }
        _ => panic!("a requirement id is not a revision"),
    }
}

#[test]
fn diff_reports_added_removed_and_changed() {
    let mut base = Project::new("d".to_string(), "t".to_string());
    add(&mut base, "keep", "must", "r", vec![]);
    add(&mut base, "drop", "must", "r", vec![]);
    let mut head = Project::new("d".to_string(), "t".to_string());
    add(&mut head, "keep", "must", "r", vec![]);
    add(&mut head, "other", "must", "r", vec![]);
    add(&mut head, "new", "must", "r", vec![]);
    set_status(&mut head, "REQ-0001", "proposed");

    let t = compare(base.requirements.get("REQ-0002").unwrap(), head.requirements.get("REQ-0002").unwrap());
    assert_eq!(t, vec!["title: \"drop\" -> \"other\"".to_string(), "statement: changed".to_string()]);

    let d = diff_projects(&base, &head);
    assert_eq!(d.added, vec!["REQ-0003".to_string()]);
    assert!(d.removed.is_empty());
    assert_eq!(d.changed.len(), 2);
    assert_eq!(d.changed[0].id, "REQ-0001");
    assert_eq!(d.changed[0].transitions, vec!["status: draft -> proposed".to_string()]);
    assert_eq!(d.changed[0].reason, "moving it along");
    assert_eq!(latest_history_reason(head.requirements.get("REQ-0001").unwrap()), "moving it along");

    let back = diff_projects(&head, &base);
    assert_eq!(back.removed, vec!["REQ-0003".to_string()]);
    assert!(back.added.is_empty());
}

#[test]
fn markdown_import_reads_sections() {
    let src = "# Spec\n\n## Login\nUsers shall log in.\nignored second line\nRationale: security\nmatters a lot\nAcceptance:\n- wrong password refused\n* lockout after 5\nTags: auth, , ui\n\n### Logout\nUsers shall log out.\n## \n";
    let c = parse_markdown(src);
    assert_eq!(c.len(), 2);
    assert_eq!(c[0].title, "Login");
    assert_eq!(c[0].statement, "Users shall log in.");
    assert_eq!(c[0].rationale, "security matters a lot");
    assert_eq!(c[0].acceptance, vec!["wrong password refused".to_string(), "lockout after 5".to_string()]);
    assert_eq!(c[0].tags, vec!["auth".to_string(), "ui".to_string()]);
    assert_eq!(c[0].kind, Kind::Functional);
    assert_eq!(c[0].priority, Priority::Should);
    assert_eq!(c[1].title, "Logout");
    assert_eq!(c[1].statement, "Users shall log out.");
    assert!(c[1].acceptance.is_empty());
    assert!(parse_markdown("no headings here\n").is_empty());
}

#[test]
fn import_kinds_and_priorities_default() {
    assert_eq!(import_kind(None), Kind::Functional);
    assert_eq!(import_kind(Some("constraint")), Kind::Constraint);
    assert_eq!(import_kind(Some("whatever")), Kind::Functional);
    assert_eq!(import_priority(Some("must")), Priority::Must);
    assert_eq!(import_priority(None), Priority::Should);
}

#[test]
fn import_allocates_fresh_drafts() {
    let cands = parse_markdown("## A\nfirst\n## B\nsecond\n");
    let mut p = Project::new("i".to_string(), "t".to_string());
    add(&mut p, "existing", "must", "r", vec![]);
    let none = import_candidates(&mut p, &cands, true, "notes.md", &ctx());
    assert!(none.is_empty());
    assert_eq!(p.requirements.len(), 1);
    let ids = import_candidates(&mut p, &cands, false, "notes.md", &ctx());
    assert_eq!(ids, vec!["REQ-0002".to_string(), "REQ-0003".to_string()]);
    let b = p.requirements.get("REQ-0003").unwrap();
    assert_eq!(b.title, "B");
    assert_eq!(b.statement, "second");
    assert_eq!(b.status, Status::Draft);
    assert_eq!(p.updated, "2025-03-04T05:06:07Z");
}

#[test]
fn marker_scan_reads_source_files_only() {
    assert!(marker_scan_wanted("src/main.rs"));
    assert!(marker_scan_wanted("lib/x.py"));
    assert!(!marker_scan_wanted("README.md"));
    assert!(!marker_scan_wanted("target/debug/x.rs"));
    assert!(!marker_scan_wanted("a/node_modules/b.js"));
}

#[test]
fn lint_report_counts_and_observes() {
    let mut p = Project::new("lintme".to_string(), "t".to_string());
    add(&mut p, "covered", "must", "short", vec!["one"]);
    add(&mut p, "flagged", "must", "x", vec!["one", "two"]);
    add(&mut p, "draft", "must", "this rationale has easily more than ten words in it all", vec!["a", "b"]);
    set_status(&mut p, "REQ-0001", "proposed");
    set_status(&mut p, "REQ-0002", "proposed");
    let findings = vec![FindingGroup {
        id: "REQ-0002".to_string(),
        findings: vec![
            Finding { rule_code: "REQ-V-0013".to_string(), field: "rationale".to_string(), message: "too short".to_string(), error: false },
            Finding { rule_code: "REQ-V-0001".to_string(), field: "title".to_string(), message: "bad".to_string(), error: true },
        ],
    }];
    let sources = vec![SourceText { path: "src/a.rs".to_string(), text: "// REQ-0001: covered here".to_string() }];
    let r = build_report(&p, findings, &sources);
    assert_eq!(r.project_name, "lintme");
    assert_eq!(r.total, 3);
    assert_eq!(r.by_status, vec![1, 2, 0, 0, 0, 0]);
    assert_eq!((r.validator_errors, r.validator_warnings), (1, 1));
    assert_eq!(r.markerless_active, vec!["REQ-0002".to_string()]);
    assert_eq!(r.short_rationale, vec![("REQ-0001".to_string(), 1)]);
    assert_eq!(r.single_acceptance_functional, vec!["REQ-0001".to_string()]);
    assert_eq!(r.no_test_record, vec!["REQ-0001".to_string(), "REQ-0002".to_string()]);
    assert_eq!(r.verification_kinds, vec![0, 0, 0]);
    let md = r.to_markdown(&p);
    assert!(md.starts_with("# req lint — lintme\n\n**Status:** FAIL — 3 requirement(s); validate 1 error(s), 1 warning(s); 5 quality observation(s).\n\n"));
    assert!(md.contains("- **draft**: 1\n- **proposed**: 2\n"));
    assert!(md.contains("- ERR  **REQ-0002** `REQ-V-0001` [title] bad\n"));
    assert!(md.contains("- **REQ-0002** — flagged (proposed)\n"));
    assert!(md.contains("- **REQ-0001** — 1 word(s)\n"));
    assert!(md.ends_with("- **automated**: 0\n- **composition**: 0\n- **inspection**: 0\n\n"));
}

#[test]
fn renumber_moves_colliding_ids_and_follows_links() {
    let mut cur = Project::new("m".to_string(), "t".to_string());
    add(&mut cur, "ours", "must", "r", vec![]);
    add(&mut cur, "second", "must", "r", vec![]);
    op_link(&mut cur, "REQ-0002", "REQ-0001", LinkKind::DependsOn, false, &ctx()).unwrap();
    let mut base = Project::new("m".to_string(), "t".to_string());
    add(&mut base, "theirs", "must", "r", vec![]);

    let planned = renumber(&mut cur, &base, true, &ctx());
    assert_eq!(planned, vec![("REQ-0001".to_string(), "REQ-0003".to_string())]);
    assert!(cur.requirements.contains_key("REQ-0001"));

    let done = renumber(&mut cur, &base, false, &ctx());
    assert_eq!(done, planned);
    assert!(!cur.requirements.contains_key("REQ-0001"));
    let moved = cur.requirements.get("REQ-0003").unwrap();
    assert_eq!(moved.title, "ours");
    assert_eq!(
        moved.history.last().unwrap().action,
        "renumbered from REQ-0001 (merge with base)"
    );
    assert_eq!(cur.requirements.get("REQ-0002").unwrap().links[0].target, "REQ-0003");
}

#[test]
fn renumber_leaves_identical_sides_alone() {
    let mut cur = Project::new("m".to_string(), "t".to_string());
    add(&mut cur, "same", "must", "r", vec![]);
    let mut base = Project::new("m".to_string(), "t".to_string());
    add(&mut base, "same", "must", "r", vec![]);
    assert!(renumber(&mut cur, &base, false, &ctx()).is_empty());
    assert!(cur.requirements.contains_key("REQ-0001"));
}

#[test]
fn check_revalidates_new_and_changed_requirements() {
    let mut base = Project::new("c".to_string(), "t".to_string());
    add(&mut base, "same", "must", "r", vec![]);
    add(&mut base, "edited", "must", "r", vec![]);
    let mut head = Project::new("c".to_string(), "t".to_string());
    add(&mut head, "same", "must", "r", vec![]);
    add(&mut head, "edited", "must", "r", vec![]);
    add(&mut head, "new", "must", "r", vec![]);
    set_status(&mut head, "REQ-0002", "proposed");
    assert_eq!(changed_req_ids(&head, Some(&base)), vec!["REQ-0002".to_string(), "REQ-0003".to_string()]);
    assert_eq!(changed_req_ids(&head, None).len(), 3);
}
