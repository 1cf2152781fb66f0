use req_cli::batch::op_add;
use req_cli::errors::ReqError;
use req_cli::integration::{
    build_request, default_verdict, ingest_payload, preflight, resolve_verdict, Decision,
    ResultItem, ResultPayload, REQUEST_SCHEMA, RESULT_SCHEMA,
};
use req_cli::model::{ActionContext, ActorKind, EvidenceKind, Project, Status, TestOutcome};
use req_cli::testrun::{auto_linked_files, events_of, hash_sources, run_suite, MapEntry, SourceText};

fn ctx(head: Option<&str>) -> ActionContext {
    ActionContext {
        now: "2025-01-02T03:04:05Z".to_string(),
        actor: "ci".to_string(),
        actor_kind: ActorKind::Human,
        on_behalf_of: None,
        head: head.map(|h| h.to_string()),
    }
}

fn project_with(n: usize) -> Project {
    let c = ctx(None);
    let mut p = Project::new("demo".to_string(), c.now.clone());
    for i in 0..n {
        op_add(
            &mut p,
            format!("Title {i}"),
            format!("The system shall do thing {i}"),
            "r".to_string(),
            None,
            None,
            vec![],
            vec![],
            None,
            None,
            &None,
            &c,
        false,
        )
        .unwrap();
    }
    p
}

const OUTPUT: &str = "running 3 tests\n\
test req_0001_logs_in ... ok\n\
test tests::req_0001_rejects_bad ... FAILED\n\
test req_0002_exports ... ignored\n\
test req_0009_unknown ... ok\n\
test unrelated ... ok\n";

#[test]
fn verdict_lines_become_events() {
    let evs = events_of(OUTPUT, &vec![]);
    let got: Vec<(String, String, String)> = evs.iter().map(|e| (e.id.clone(), e.name.clone(), e.verdict.clone())).collect();
    assert_eq!(
        got,
        vec![
            ("REQ-0001".to_string(), "req_0001_logs_in".to_string(), "ok".to_string()),
            ("REQ-0001".to_string(), "req_0001_rejects_bad".to_string(), "FAILED".to_string()),
            ("REQ-0002".to_string(), "req_0002_exports".to_string(), "ignored".to_string()),
            ("REQ-0009".to_string(), "req_0009_unknown".to_string(), "ok".to_string()),
        ]
    );
}

#[test]
fn mapped_tests_take_their_first_verdict_line() {
    let out = "it renders the page PASS\nother FAIL\n";
    let map = vec![MapEntry { test: "renders the page".to_string(), ids: vec!["REQ-0002".to_string(), "REQ-0003".to_string()] }];
    let evs = events_of(out, &map);
    assert_eq!(evs.len(), 2);
    assert_eq!(evs[1].id, "REQ-0003");
    assert_eq!(evs[1].verdict, "ok");
}

#[test]
fn run_records_one_piece_of_evidence_per_requirement() {
    let mut p = project_with(2);
    let sources = vec![
        SourceText { path: "src/a.rs".to_string(), text: "// REQ-0001: login\nfn a() {}\n".to_string() },
        SourceText { path: "src/b.rs".to_string(), text: "fn b() {}\n".to_string() },
    ];
    let c = ctx(Some("abcdef0123456789"));
    let r = run_suite(&mut p, false, false, OUTPUT, &vec![], &sources, &c);
    let ids: Vec<&str> = r.results.iter().map(|x| x.id.as_str()).collect();
    assert_eq!(ids, vec!["REQ-0001", "REQ-0002", "REQ-0009"]);
    assert_eq!(r.results[0].outcome, TestOutcome::Fail);
    assert_eq!(r.results[0].notes, "cargo test: 1 pass / 1 fail / 0 ignored — req_0001_rejects_bad");
    assert_eq!(r.results[1].notes, "cargo test: 0 pass / 0 fail / 1 ignored — req_0002_exports");
    assert!(!r.results[2].exists);
    assert_eq!(r.recorded, 2);
    let t = p.requirements.get("REQ-0001").unwrap().tests.last().unwrap().clone();
    assert_eq!(t.commit, "abcdef0123456789");
    assert_eq!(t.kind, EvidenceKind::Automated);
    assert_eq!(t.linked_files, Some(vec!["src/a.rs".to_string()]));
    assert_eq!(t.content_hash.as_ref().map(|h| h.len()), Some(64));
    assert_eq!(p.updated, c.now);
}

#[test]
fn dry_run_changes_nothing() {
    let mut p = project_with(1);
    let before = p.requirements.get("REQ-0001").unwrap().tests.len();
    let r = run_suite(&mut p, true, false, OUTPUT, &vec![], &vec![], &ctx(None));
    assert_eq!(r.recorded, 0);
    assert_eq!(p.requirements.get("REQ-0001").unwrap().tests.len(), before);
}

#[test]
fn source_anchor_is_sha256_of_path_and_text() {
    assert_eq!(hash_sources(&vec![]), "e3b0c44298fc1c149afbf4c8996fb92427ae41e4649b934ca495991b7852b855");
    let one = vec![SourceText { path: "a".to_string(), text: "b".to_string() }];
    // sha256("a\0b\n")
    assert_ne!(hash_sources(&one), hash_sources(&vec![]));
    assert_eq!(auto_linked_files("REQ-0001", &one), Vec::<String>::new());
}

#[test]
fn verdicts_map_to_outcomes_and_never_default_to_pass() {
    assert_eq!(default_verdict("operator_override"), Some(TestOutcome::Pass));
    assert_eq!(default_verdict("bench_cap_suspected"), Some(TestOutcome::Fail));
    assert_eq!(default_verdict("maybe"), None);
    let p = project_with(0);
    assert!(matches!(resolve_verdict(&p, "maybe"), Err(ReqError::UnmappedVerdict { .. })));
}

fn payload(items: Vec<ResultItem>) -> ResultPayload {
    ResultPayload {
        schema: RESULT_SCHEMA.to_string(),
        system: "bench".to_string(),
        environment: Some("lab".to_string()),
        commit: "c0ffee".to_string(),
        results: items,
    }
}

fn item(id: &str, verdict: &str, decision: bool) -> ResultItem {
    ResultItem {
        req_id: id.to_string(),
        verdict: verdict.to_string(),
        notes: Some("bench run".to_string()),
        evidence_kind: None,
        decision: if decision {
            Some(Decision { plan: "exercise it".to_string(), analysis: Some("looked".to_string()), statement: None })
        } else {
            None
        },
    }
}

#[test]
fn preflight_refuses_bad_payloads_whole() {
    let p = project_with(1);
    let mut bad = payload(vec![]);
    bad.schema = "v0".to_string();
    assert!(matches!(preflight(&p, &bad), Err(ReqError::UnsupportedSchema { .. })));
    let mut bad = payload(vec![]);
    bad.commit = "  ".to_string();
    assert!(matches!(preflight(&p, &bad), Err(ReqError::MissingCommit)));
    let mut bad = payload(vec![]);
    bad.system = String::new();
    assert!(matches!(preflight(&p, &bad), Err(ReqError::MissingSystem)));
    let bad = payload(vec![item("REQ-0001", "pass", false), item("REQ-0042", "pass", false)]);
    assert!(matches!(preflight(&p, &bad), Err(ReqError::UnknownResultRequirement { .. })));
}

#[test]
fn ingest_is_idempotent() {
    let mut p = project_with(1);
    let c = ctx(None);
    let pl = payload(vec![item("REQ-0001", "pass", true)]);
    let r = ingest_payload(&mut p, &pl, false, &c).unwrap();
    assert_eq!((r.attached, r.skipped_duplicate), (1, 0));
    let req = p.requirements.get("REQ-0001").unwrap();
    let t = req.tests.last().unwrap();
    assert_eq!(t.external.as_ref().unwrap().raw_verdict.as_deref(), Some("pass"));
    assert_eq!(req.validation.as_ref().unwrap().concluded_commit.as_deref(), Some("c0ffee"));
    let again = ingest_payload(&mut p, &pl, false, &c).unwrap();
    assert_eq!((again.attached, again.skipped_duplicate), (0, 1));
    assert_eq!(p.requirements.get("REQ-0001").unwrap().tests.len(), 1);
}

#[test]
fn a_failed_ingest_leaves_the_project_alone() {
    let mut p = project_with(1);
    let pl = payload(vec![item("REQ-0001", "pass", false), item("REQ-0001", "weird", false)]);
    assert!(ingest_payload(&mut p, &pl, true, &ctx(None)).is_err());
    assert!(p.requirements.get("REQ-0001").unwrap().tests.is_empty());
}

#[test]
fn request_lists_requirements_due_for_verification() {
    let p = project_with(2);
    let r = build_request(&p, "abc");
    assert_eq!(r.schema, REQUEST_SCHEMA);
    assert_eq!(r.commit, "abc");
    let due = p.requirements.get("REQ-0001").unwrap().status == Status::Approved
        || p.requirements.get("REQ-0001").unwrap().status == Status::Implemented;
    assert_eq!(r.requirements.is_empty(), !due);
}

#[test]
fn promotion_waits_for_implemented() {
    let mut p = project_with(1);
    let c = ctx(Some("abcdef0123456789"));
    let r = run_suite(&mut p, false, true, "test req_0001_logs_in ... ok\n", &vec![], &vec![], &c);
    assert_eq!(r.recorded, 1);
    assert!(r.promoted.is_empty());
    assert_eq!(p.requirements.get("REQ-0001").unwrap().status, Status::Draft);
}
