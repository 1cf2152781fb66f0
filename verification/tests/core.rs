use req_cli::batch::{apply_batch, op_add, BatchDoc, Mutation};
use req_cli::errors::{classify, hint_for, ReqError};
use req_cli::glob::glob_match;
use req_cli::ids::{allocate_id, ensure_force_reason, norm_id, normalize_id, resolve_id};
use req_cli::impact::{impact, split_eq};
use req_cli::cli::ImpactArgs;
use req_cli::links::{creates_cycle, op_link};
use req_cli::model::{
    is_natural_transition, ActionContext, ActorKind, Avoidance, Consequence, Frequency, LinkKind,
    Priority, Probability, Project, Sil, Status,
};
use req_cli::review::{extension_of, parse_hunks};
use req_cli::safety::assess_hazard;
use req_cli::safety_ops::{op_hazard_add, op_sf_add, op_sreq_add};
use req_cli::staleness::{short, staleness, to_hex, Staleness};

fn ctx() -> ActionContext {
    ActionContext {
        now: "2025-01-02T03:04:05Z".to_string(),
        actor: "alice".to_string(),
        actor_kind: ActorKind::Human,
        on_behalf_of: None,
        head: Some("feedface".to_string()),
    }
}

fn add(p: &mut Project, title: &str) -> String {
    op_add(
        p,
        title.to_string(),
        format!("The system shall {title}"),
        "r".to_string(),
        None,
        None,
        vec![],
        vec![],
        None,
        None,
        &None,
        &ctx(),
        false,
    )
    .unwrap()
}

#[test]
fn ids_normalise_and_are_idempotent() {
    assert_eq!(normalize_id("req-1"), "REQ-0001");
    assert_eq!(normalize_id(" 42 "), "REQ-0042");
    assert_eq!(normalize_id(&normalize_id("req-7")), normalize_id("req-7"));
    assert_eq!(norm_id("HAZ", "haz-3"), "HAZ-0003");
    assert_eq!(norm_id("SF", "12"), "SF-0012");
}

#[test]
fn allocated_ids_are_fresh() {
    let mut p = Project::new("p".to_string(), "t".to_string());
    assert_eq!(allocate_id(&p), "REQ-0001");
    let a = add(&mut p, "log in");
    let b = add(&mut p, "log out");
    assert_eq!((a.as_str(), b.as_str()), ("REQ-0001", "REQ-0002"));
    assert_eq!(allocate_id(&p), "REQ-0003");
    assert_eq!(resolve_id(&p, "req-2").unwrap(), "REQ-0002");
    assert!(resolve_id(&p, "REQ-0009").is_err());
}

#[test]
fn forced_actions_need_a_reason() {
    assert!(ensure_force_reason(&Some("a good long reason".to_string()), 10).is_ok());
    assert!(matches!(ensure_force_reason(&Some("short".to_string()), 10), Err(ReqError::ForceReasonTooShort { .. })));
    assert!(ensure_force_reason(&None, 10).is_err());
}

#[test]
fn lifecycle_moves_forward_one_step() {
    assert!(is_natural_transition(Status::Draft, Status::Proposed));
    assert!(is_natural_transition(Status::Implemented, Status::Verified));
    assert!(is_natural_transition(Status::Proposed, Status::Obsolete));
    assert!(!is_natural_transition(Status::Draft, Status::Verified));
    assert!(!is_natural_transition(Status::Verified, Status::Draft));
}

#[test]
fn globs_match_whole_paths() {
    assert!(glob_match("**/tests/**", "a/tests/b.rs"));
    assert!(glob_match("src/*.rs", "src/lib.rs"));
    assert!(!glob_match("src/*.rs", "src/a/lib.rs"));
    assert!(!glob_match("*_test.*", "src/foo_test.rs"));
    assert!(glob_match("**/*_test.*", "src/foo_test.rs"));
}

#[test]
fn links_refuse_cycles() {
    let mut p = Project::new("p".to_string(), "t".to_string());
    add(&mut p, "a");
    add(&mut p, "b");
    let c = ctx();
    op_link(&mut p, "REQ-0001", "REQ-0002", LinkKind::DependsOn, false, &c).unwrap();
    assert!(creates_cycle(&p.requirements, "REQ-0002", "REQ-0001", LinkKind::DependsOn));
    assert!(op_link(&mut p, "REQ-0002", "REQ-0001", LinkKind::DependsOn, false, &c).is_err());
    assert!(matches!(op_link(&mut p, "REQ-0001", "REQ-0001", LinkKind::DependsOn, false, &c), Err(ReqError::SelfLink { .. })));
}

#[test]
fn batch_is_all_or_nothing() {
    let p = Project::new("p".to_string(), "t".to_string());
    let good = Mutation::Add {
        title: "x".to_string(),
        statement: "The system shall x".to_string(),
        rationale: "r".to_string(),
        req_kind: None,
        priority: None,
        acceptance: vec![],
        tags: vec![],
        parent: None,
        reason: None,
    };
    let bad = Mutation::Add {
        title: "y".to_string(),
        statement: "The system shall y".to_string(),
        rationale: "r".to_string(),
        req_kind: Some("nonsense".to_string()),
        priority: None,
        acceptance: vec![],
        tags: vec![],
        parent: None,
        reason: None,
    };
    let failure = match apply_batch(p, BatchDoc { reason: None, mutations: vec![good, bad] }, &ctx()) {
        Err(f) => f,
        Ok(_) => panic!("expected the batch to fail"),
    };
    assert_eq!(failure.index, 1);
    assert_eq!(failure.applied.len(), 1);
}

#[test]
fn errors_classify_and_hint() {
    let code = classify("no such requirement: REQ-0009");
    assert!(!code.is_empty());
    assert_eq!(hint_for("no-such-code"), None);
}

#[test]
fn staleness_by_git_is_decided_from_the_overlap() {
    assert!(matches!(staleness(None, "a", &vec![], None), Staleness::Unknown));
    assert!(matches!(staleness(Some("a"), "a", &vec![], None), Staleness::Fresh));
    let linked = vec!["src/a.rs".to_string(), "src/b.rs".to_string()];
    let changed = vec!["repo\\src\\a.rs".to_string()];
    match staleness(Some("h"), "a", &linked, Some(&changed)) {
        Staleness::Stale { changed, linked } => {
            assert_eq!(changed, vec!["src/a.rs".to_string()]);
            assert_eq!(linked, 2);
        }
        _ => panic!("expected stale"),
    }
    assert!(matches!(staleness(Some("h"), "a", &linked, Some(&vec![])), Staleness::Drifted { linked: 2 }));
    assert_eq!(Staleness::Drifted { linked: 0 }.tag(), "[drifted — no linked files]");
    assert_eq!(short("0123456789abc"), "012345678");
    assert_eq!(to_hex(&[0, 255, 16]), "00ff10");
}

#[test]
fn hunks_and_extensions() {
    let diff = "@@ -1,2 +3,4 @@\n+x\n@@ -9 +10 @@\n";
    assert_eq!(parse_hunks(diff), vec![(3, 4), (10, 1)]);
    assert_eq!(extension_of("src/a.rs"), Some("rs".to_string()));
    assert_eq!(extension_of("Makefile"), None);
}

#[test]
fn safety_case_complete_only_when_verified() {
    let c = ctx();
    let mut p = Project::new("p".to_string(), "t".to_string());
    op_hazard_add(&mut p, "h".to_string(), "d".to_string(), "c".to_string(), "harm".to_string(),
        Some(Consequence::Cb), Some(Frequency::Fa), Some(Avoidance::Pa), Some(Probability::W3), vec![], &c);
    op_sf_add(&mut p, "sf".to_string(), "d".to_string(), "s".to_string(), &vec!["HAZ-0001".to_string()], vec![], &c).unwrap();
    op_sreq_add(&mut p, "sr".to_string(), "st".to_string(), "r".to_string(), vec![], Priority::Must, &vec!["SF-0001".to_string()], vec![], &c).unwrap();
    let v = assess_hazard(&p, "HAZ-0001");
    assert_eq!(v.required, Some(Sil::Sil1));
    assert_eq!(v.allocated, Some(Sil::Sil1));
    assert!(v.adequate);
    assert!(!v.complete);
    assert_eq!(v.sr_total, 1);
}

#[test]
fn impact_previews_level_changes_without_writing() {
    let c = ctx();
    let mut p = Project::new("p".to_string(), "t".to_string());
    op_hazard_add(&mut p, "h".to_string(), "d".to_string(), "c".to_string(), "harm".to_string(),
        None, None, None, None, vec![], &c);
    op_sf_add(&mut p, "sf".to_string(), "d".to_string(), "s".to_string(), &vec!["HAZ-0001".to_string()], vec![], &c).unwrap();
    let args = ImpactArgs { calibrate: None, mitigate: None, realize: None, assess: Some("haz-1=C_B/F_A/P_A/W3".to_string()), json: false };
    let r = impact(&args, p).unwrap();
    assert_eq!(r.proposed, vec!["assess HAZ-0001".to_string()]);
    let moved: Vec<(String, Option<Sil>, Option<Sil>)> = r.changes.iter().map(|c| (c.id.clone(), c.before, c.after)).collect();
    assert_eq!(moved, vec![
        ("HAZ-0001".to_string(), None, Some(Sil::Sil1)),
        ("SF-0001".to_string(), None, Some(Sil::Sil1)),
    ]);
    let none = ImpactArgs { calibrate: None, mitigate: None, realize: None, assess: None, json: false };
    let q = Project::new("q".to_string(), "t".to_string());
    assert!(matches!(impact(&none, q), Err(ReqError::NothingToAnalyse)));
    let q = Project::new("q".to_string(), "t".to_string());
    let bad = ImpactArgs { calibrate: None, mitigate: Some("SF-1".to_string()), realize: None, assess: None, json: false };
    assert!(matches!(impact(&bad, q), Err(ReqError::MissingEquals { .. })));
    assert_eq!(split_eq(" a = b ", "--x").unwrap(), ("a".to_string(), "b".to_string()));
}
