use std::path::PathBuf;

use req_cli::batch::{apply_batch, apply_one, op_add, BatchDoc, Mutation};
use req_cli::cli::{Command, CoverageArgs, ListArgs, StatusArg};
use req_cli::errors::ReqError;
use req_cli::ids::{normalize_id, resolve_id};
use req_cli::links::{creates_cycle, op_link};
use req_cli::model::{
    ActionContext, ActorKind, Avoidance, Consequence, EvidenceKind, Frequency, LinkKind, Priority,
    Probability, Project, Sil, Status,
};
use req_cli::queries::{filter, is_test_path};
use req_cli::report::{sr_list, validation_report};
use req_cli::safety_gov::{ensure_enabled_path, DisclaimerAcceptance};
use req_cli::safety_ops::{op_hazard_add, op_sf_add, op_sreq_add, op_sreq_verify};
use req_cli::validation::resolve;

fn ctx() -> ActionContext {
    ActionContext {
        now: "2025-01-02T03:04:05Z".to_string(),
        actor: "alice".to_string(),
        actor_kind: ActorKind::Human,
        on_behalf_of: None,
        head: Some("feedface".to_string()),
    }
}

fn add(p: &mut Project, title: &str) -> String {
    op_add(
        p,
        title.to_string(),
        format!("The system shall {title}"),
        "r".to_string(),
        None,
        None,
        vec![],
        vec![],
        None,
        None,
        &None,
        &ctx(),
        false,
    )
    .unwrap()
}

fn add_with_parent(parent: &str) -> Mutation {
    Mutation::Add {
        title: "Persist user sessions".to_string(),
        statement: "The system shall persist sessions across restarts.".to_string(),
        rationale: "Users lose work on deploys today.".to_string(),
        req_kind: None,
        priority: None,
        acceptance: vec![],
        tags: vec![],
        parent: Some(parent.to_string()),
        reason: None,
    }
}

/// HAZ-0001 (SIL 2) mitigated by SF-0001, realized by SR-0001 and SR-0002.
fn safety_project() -> Project {
    let c = ctx();
    let mut p = Project::new("demo".to_string(), c.now.clone());
    op_hazard_add(
        &mut p,
        "Overpressure".to_string(),
        "d".to_string(),
        "ctx".to_string(),
        "burst".to_string(),
        Some(Consequence::Cc),
        Some(Frequency::Fa),
        Some(Avoidance::Pa),
        Some(Probability::W2),
        vec![],
        &c,
    );
    op_sf_add(&mut p, "Relief".to_string(), "d".to_string(), "vented".to_string(), &vec!["HAZ-0001".to_string()], vec![], &c)
        .unwrap();
    for t in ["Valve opens", "Valve closes"] {
        op_sreq_add(
            &mut p,
            t.to_string(),
            "The valve shall move".to_string(),
            "r".to_string(),
            vec![],
            Priority::Must,
            &vec!["SF-0001".to_string()],
            vec![],
            &c,
        )
        .unwrap();
    }
    p
}

#[test]
fn large_ids_keep_their_digits() {
    assert_eq!(normalize_id("REQ-99999999999"), "REQ-99999999999");
    assert_eq!(normalize_id(" req-0099999999999 "), "REQ-99999999999");
    assert_eq!(normalize_id("4294967295"), "REQ-4294967295");
    assert_eq!(normalize_id("4294967296"), "REQ-4294967296");
    assert_eq!(normalize_id("req-7"), "REQ-0007");
    assert_eq!(normalize_id("REQ-x"), "REQ-x");
}

#[test]
fn any_test_extension_counts() {
    assert!(is_test_path("pkg/util.test.py:4"));
    assert!(is_test_path("lib/parser_tests.go:9"));
    assert!(is_test_path("src/widget_test.java"));
    assert!(!is_test_path("src/test.rs"));
    assert!(!is_test_path("src/a.test"));
    assert!(!is_test_path("src/a_test."));
    assert!(!is_test_path("src/x.test/main.rs"));
}

#[test]
fn coverage_and_audit_json_is_seen() {
    let cmd = Command::Coverage(CoverageArgs {
        path: PathBuf::from("."),
        extensions: vec![],
        unlinked_files: false,
        by_file: false,
        by_req: false,
        remap: vec![],
        apply: false,
        strict: false,
        allow_orphans: vec![],
        json: true,
    });
    assert!(cmd.is_json());
}

#[test]
fn missing_parent_is_reported_by_name() {
    let mut p = Project::new("p".to_string(), "t".to_string());
    let r = apply_one(&mut p, add_with_parent("REQ-0009"), &None, &ctx());
    match r {
        Err(e) => assert_eq!(e.message(), "parent REQ-0009 does not exist"),
        Ok(_) => panic!("expected the add to fail"),
    }
    assert_eq!(p.requirements.len(), 0);
}

#[test]
fn rolled_back_batch_names_the_mutation() {
    let p = Project::new("p".to_string(), "t".to_string());
    let good = Mutation::Add {
        title: "x".to_string(),
        statement: "The system shall x".to_string(),
        rationale: "r".to_string(),
        req_kind: None,
        priority: None,
        acceptance: vec![],
        tags: vec![],
        parent: None,
        reason: None,
    };
    let failure = match apply_batch(p, BatchDoc { reason: None, mutations: vec![good, add_with_parent("REQ-0042")] }, &ctx()) {
        Err(f) => f,
        Ok(_) => panic!("expected the batch to fail"),
    };
    assert_eq!(failure.message(), "batch rolled back at mutation #1: parent REQ-0042 does not exist");
}

#[test]
fn unknown_requirement_suggests_the_nearest() {
    let mut p = Project::new("p".to_string(), "t".to_string());
    add(&mut p, "a");
    add(&mut p, "b");
    let e = resolve_id(&p, "req-4").unwrap_err();
    assert_eq!(e.message(), "no such requirement: req-4 — did you mean REQ-0002?");
    let e = resolve_id(&p, "REQ-0100").unwrap_err();
    assert_eq!(e.message(), "no such requirement: REQ-0100");
}

#[test]
fn unknown_safety_requirement_is_named() {
    let p = safety_project();
    let e = resolve(&p, "sr-9").unwrap_err();
    assert_eq!(e.message(), "no such safety requirement: sr-9");
    assert!(resolve(&p, "sr-1").is_ok());
}

#[test]
fn disabled_safety_features_say_why() {
    let old = DisclaimerAcceptance {
        notice: "n".to_string(),
        accepted_by: "Alice".to_string(),
        at: "2025-01-01T00:00:00Z".to_string(),
        tool_version: "1.0.0".to_string(),
        disclaimer_version: "0".to_string(),
    };
    let e = ensure_enabled_path(&Some(old), "x.req.safety-acceptance.json").unwrap_err();
    let m = e.message();
    assert!(m.starts_with("the acceptance on file is for an older disclaimer version. A human must accept"));
    assert!(m.contains("This writes x.req.safety-acceptance.json (commit it)"));
    let e = ensure_enabled_path(&None, "y.json").unwrap_err();
    assert!(e.message().starts_with("the functional-safety features are not enabled for this project."));
}

#[test]
fn sil_rigour_refusal_text() {
    let e = ReqError::SilRigour { id: "SR-0003".to_string(), sil: Sil::Sil3 };
    assert_eq!(
        e.message(),
        "SIL-rigour gate: SR-0003 inherits SIL3 — inspection-only evidence is not sufficient. Provide automated or composition evidence, or pass --force to record an explicit exception."
    );
}

#[test]
fn cycle_error_names_the_path() {
    let mut p = Project::new("p".to_string(), "t".to_string());
    add(&mut p, "a");
    add(&mut p, "b");
    add(&mut p, "c");
    let c = ctx();
    op_link(&mut p, "REQ-0001", "REQ-0002", LinkKind::DependsOn, false, &c).unwrap();
    op_link(&mut p, "REQ-0001", "REQ-0003", LinkKind::DependsOn, false, &c).unwrap();
    assert!(creates_cycle(&p.requirements, "REQ-0003", "REQ-0001", LinkKind::DependsOn));
    let e = op_link(&mut p, "REQ-0003", "REQ-0001", LinkKind::DependsOn, false, &c).unwrap_err();
    assert_eq!(e.message(), "linking REQ-0003 -> depends-on REQ-0001 would create a cycle: REQ-0003 -> REQ-0001 -> REQ-0003");
}

#[test]
fn draft_safety_requirement_is_not_promoted() {
    let mut p = safety_project();
    op_sreq_verify(&mut p, "SR-0001", EvidenceKind::Automated, "bench".to_string(), &vec![], true, false, &ctx()).unwrap();
    let sr = p.safety_requirements.get("SR-0001").unwrap();
    assert_eq!(sr.status, Status::Draft);
    assert_eq!(sr.tests.len(), 1);
}

#[test]
fn report_lists_every_safety_requirement() {
    let p = safety_project();
    assert_eq!(sr_list(&p), vec!["SR-0001".to_string(), "SR-0002".to_string()]);
    let rep = validation_report(&p, None);
    assert_eq!(rep.safety_requirements, vec!["SR-0001".to_string(), "SR-0002".to_string()]);
    assert_eq!(rep.rows.len(), 0);
    assert_eq!(rep.unvalidated.len(), 2);
}

#[test]
fn narrower_listing_shows_less() {
    let mut p = Project::new("p".to_string(), "t".to_string());
    add(&mut p, "log in");
    add(&mut p, "log out");
    add(&mut p, "export");
    let broad = ListArgs { status: None, include_obsolete: false, kind: None, priority: None, tag: vec![], query: None, json: false };
    let narrow = ListArgs {
        status: Some(StatusArg::Draft),
        include_obsolete: false,
        kind: None,
        priority: None,
        tag: vec![],
        query: Some("LOG".to_string()),
        json: false,
    };
    let all: Vec<String> = filter(&p, &broad).iter().map(|r| r.id.clone()).collect();
    let some: Vec<String> = filter(&p, &narrow).iter().map(|r| r.id.clone()).collect();
    assert_eq!(all, vec!["REQ-0001", "REQ-0002", "REQ-0003"]);
    assert_eq!(some, vec!["REQ-0001", "REQ-0002"]);
    assert!(some.iter().all(|id| all.contains(id)));
}

#[test]
fn review_defaults_skip_the_project_file_and_tests() {
    let ign = req_cli::review::default_review_ignores("project.req");
    assert_eq!(ign[0], "**/project.req");
    assert_eq!(ign[1], "project.req");
    assert!(ign.contains(&"**/tests/**".to_string()));
    let exts = req_cli::review::default_source_exts();
    assert_eq!(exts.len(), 49);
    assert_eq!(exts.last().map(|s| s.as_str()), Some("sql"));
}
