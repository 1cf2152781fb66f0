use req_cli::batch::{op_add, op_delete};
use req_cli::cli::ListArgs;
use req_cli::queries::filter;
use req_cli::json::{merge3, tree_eq, JsonTree};
use req_cli::links::op_link;
use req_cli::lint::{Finding, FindingGroup};
use req_cli::model::{ActionContext, ActorKind, LinkKind, Project, Status};
use req_cli::renumber::{deconflict_added_ids, deconflict_room};
use req_cli::review::{review_outcome, ChangedFile};

fn ctx(now: &str) -> ActionContext {
    ActionContext {
        now: now.to_string(),
        actor: "alice".to_string(),
        actor_kind: ActorKind::Human,
        on_behalf_of: None,
        head: Some("feedface".to_string()),
    }
}

fn add(p: &mut Project, title: &str, now: &str) -> String {
    op_add(
        p,
        title.to_string(),
        format!("The system shall {title}"),
        "r".to_string(),
        None,
        None,
        vec![],
        vec![],
        None,
        None,
        &None,
        &ctx(now),
        false,
    )
    .unwrap()
}

fn s(x: &str) -> JsonTree {
    JsonTree::Str(x.to_string())
}

fn obj(m: Vec<(&str, JsonTree)>) -> JsonTree {
    JsonTree::Obj(m.into_iter().map(|(k, v)| (k.to_string(), v)).collect())
}

#[test]
fn merge_takes_the_side_that_changed() {
    let mut c = Vec::new();
    let base = s("a");
    let ours = s("a");
    let theirs = s("b");
    let r = merge3("x", Some(&base), Some(&ours), Some(&theirs), true, true, &mut c).unwrap();
    assert!(tree_eq(&r, &theirs));
    let r = merge3("x", Some(&base), Some(&theirs), Some(&ours), false, true, &mut c).unwrap();
    assert!(tree_eq(&r, &theirs));
    assert!(c.is_empty());
    assert!(merge3("x", Some(&base), None, None, true, true, &mut c).is_none());
}

#[test]
fn divergence_is_reported_never_silent() {
    let mut c = Vec::new();
    let base = s("a");
    let r = merge3("requirements/REQ-0001/title", Some(&base), Some(&s("b")), Some(&s("c")), true, true, &mut c).unwrap();
    assert!(tree_eq(&r, &s("b")));
    assert_eq!(c, vec!["requirements/REQ-0001/title — changed differently on both sides".to_string()]);
    let r = merge3("", Some(&base), None, Some(&s("c")), false, true, &mut c).unwrap();
    assert!(tree_eq(&r, &s("c")));
    assert_eq!(c[1], "<root> — deleted on our side, changed on theirs");
    let mut quiet = Vec::new();
    merge3("x", Some(&base), Some(&s("b")), Some(&s("c")), false, false, &mut quiet);
    assert!(quiet.is_empty());
}

#[test]
fn objects_merge_member_by_member() {
    let base = obj(vec![("a", s("1")), ("b", s("1")), ("updated", s("2025-01-01"))]);
    let ours = obj(vec![("a", s("2")), ("b", s("1")), ("updated", s("2025-02-01"))]);
    let theirs = obj(vec![("a", s("1")), ("b", s("3")), ("c", s("new")), ("updated", s("2025-03-01"))]);
    let mut c = Vec::new();
    let r = merge3("", Some(&base), Some(&ours), Some(&theirs), true, true, &mut c).unwrap();
    let want = obj(vec![("a", s("2")), ("b", s("3")), ("c", s("new")), ("updated", s("2025-03-01"))]);
    assert!(tree_eq(&r, &want));
    assert!(c.is_empty());
}

#[test]
fn counters_take_the_largest_and_histories_unite() {
    let e = |at: &str| obj(vec![("at", s(at))]);
    let base = obj(vec![("next_id", JsonTree::Num("3".into())), ("history", JsonTree::Arr(vec![e("1")]))]);
    let ours = obj(vec![("next_id", JsonTree::Num("5".into())), ("history", JsonTree::Arr(vec![e("1"), e("3")]))]);
    let theirs = obj(vec![("next_id", JsonTree::Num("4".into())), ("history", JsonTree::Arr(vec![e("1"), e("2")]))]);
    let mut c = Vec::new();
    let r = merge3("", Some(&base), Some(&ours), Some(&theirs), true, true, &mut c).unwrap();
    let want = obj(vec![
        ("history", JsonTree::Arr(vec![e("1"), e("2"), e("3")])),
        ("next_id", JsonTree::Num("5".into())),
    ]);
    assert!(tree_eq(&r, &want));
    assert!(c.is_empty());
}

#[test]
fn colliding_additions_are_renumbered_on_their_side() {
    let mut base = Project::new("p".to_string(), "t".to_string());
    add(&mut base, "shared", "2025-01-01T00:00:00Z");
    let mut ours = Project::new("p".to_string(), "t".to_string());
    add(&mut ours, "shared", "2025-01-01T00:00:00Z");
    let mut theirs = Project::new("p".to_string(), "t".to_string());
    add(&mut theirs, "shared", "2025-01-01T00:00:00Z");
    add(&mut ours, "ours only", "2025-01-02T00:00:00Z");
    add(&mut theirs, "theirs only", "2025-01-03T00:00:00Z");
    op_link(&mut theirs, "REQ-0001", "REQ-0002", LinkKind::DependsOn, false, &ctx("2025-01-04T00:00:00Z")).unwrap();
    assert!(deconflict_room(&base, &ours, &theirs));
    let n = deconflict_added_ids(&base, &ours, &mut theirs, &ctx("2025-01-05T00:00:00Z"));
    assert_eq!(n, 1);
    assert!(!theirs.requirements.contains_key("REQ-0002"));
    let moved = theirs.requirements.get("REQ-0003").unwrap();
    assert_eq!(moved.title, "theirs only");
    assert_eq!(
        moved.history.last().unwrap().action,
        "renumbered from REQ-0002 (merge collision with the other side)"
    );
    assert_eq!(theirs.requirements.get("REQ-0001").unwrap().links[0].target, "REQ-0003");
    let mut again = theirs;
    assert_eq!(deconflict_added_ids(&base, &ours, &mut again, &ctx("2025-01-06T00:00:00Z")), 0);
}

#[test]
fn plain_delete_notes_no_batch() {
    let mut p = Project::new("p".to_string(), "t".to_string());
    add(&mut p, "x", "2025-01-01T00:00:00Z");
    op_delete(&mut p, "REQ-0001".to_string(), false, Some("gone".to_string()), &None, &ctx("2025-01-02T00:00:00Z"), false)
        .unwrap();
    let r = p.requirements.get("REQ-0001").unwrap();
    assert_eq!(r.status, Status::Obsolete);
    assert_eq!(r.history[0].action, "created");
    assert_eq!(r.history.last().unwrap().action, "marked obsolete");
}

#[test]
fn review_gate_fails_on_markerless_source_and_validator_errors() {
    let mut p = Project::new("p".to_string(), "t".to_string());
    add(&mut p, "x", "2025-01-01T00:00:00Z");
    let files = vec![
        ChangedFile { path: "src/a.rs".to_string(), text: Some("fn a() {}\n".to_string()), diff: None },
        ChangedFile { path: "src/b.rs".to_string(), text: Some("// REQ-0001: x\nfn b() {}\n".to_string()), diff: None },
    ];
    let exts = vec!["rs".to_string()];
    let none: Vec<FindingGroup> = Vec::new();
    let out = review_outcome(None, &p, &files, &exts, &vec![], 0, &none, false, false);
    assert_eq!(out.scan.markerless, vec!["src/a.rs".to_string()]);
    assert_eq!(out.headline, "WARN");
    assert!(!out.fails);
    assert_eq!(out.added, vec!["REQ-0001".to_string()]);
    assert_eq!(out.next_moves, vec!["advance with `req update REQ-0001 --status proposed --reason \"...\"`".to_string()]);
    let gated = review_outcome(None, &p, &files, &exts, &vec![], 0, &none, true, false);
    assert!(gated.fails);
    let bad = vec![FindingGroup {
        id: "REQ-0001".to_string(),
        findings: vec![Finding { rule_code: "R".to_string(), field: "f".to_string(), message: "m".to_string(), error: true }],
    }];
    let failing = review_outcome(None, &p, &vec![], &exts, &vec![], 0, &bad, false, false);
    assert_eq!((failing.val_errors, failing.headline, failing.fails), (1, "FAIL", true));
}

#[test]
fn including_obsolete_only_adds() {
    let mut p = Project::new("p".to_string(), "t".to_string());
    add(&mut p, "a", "2025-01-01T00:00:00Z");
    add(&mut p, "b", "2025-01-01T00:00:00Z");
    add(&mut p, "c", "2025-01-01T00:00:00Z");
    op_delete(&mut p, "REQ-0002".to_string(), false, None, &None, &ctx("2025-01-02T00:00:00Z"), false).unwrap();
    let args = ListArgs { status: None, include_obsolete: false, kind: None, priority: None, tag: vec![], query: None, json: false };
    let wide = ListArgs { status: None, include_obsolete: true, kind: None, priority: None, tag: vec![], query: None, json: false };
    let shown: Vec<String> = filter(&p, &args).iter().map(|r| r.id.clone()).collect();
    let all: Vec<String> = filter(&p, &wide).iter().map(|r| r.id.clone()).collect();
    assert_eq!(shown, vec!["REQ-0001", "REQ-0003"]);
    assert_eq!(all, vec!["REQ-0001", "REQ-0002", "REQ-0003"]);
}

#[test]
fn markers_group_by_id_in_place_order() {
    let srcs = vec![
        req_cli::testrun::SourceText { path: "a.rs".to_string(), text: "// REQ-0002\nx\n// REQ-0001 REQ-0002\n".to_string() },
        req_cli::testrun::SourceText { path: "b.rs".to_string(), text: "// REQ-0001\n".to_string() },
    ];
    let hits = req_cli::coverage::collect_hits(&srcs);
    assert_eq!(hits.len(), 2);
    assert_eq!(hits[0].id, "REQ-0001");
    assert_eq!(hits[0].refs, vec!["a.rs:3".to_string(), "b.rs:1".to_string()]);
    assert_eq!(hits[1].id, "REQ-0002");
    assert_eq!(hits[1].refs, vec!["a.rs:1".to_string(), "a.rs:3".to_string()]);
}

#[test]
fn export_document_heads_with_the_count() {
    let mut p = Project::new("demo".to_string(), "t".to_string());
    add(&mut p, "x", "2025-01-01T00:00:00Z");
    let md = req_cli::hara::project_markdown(&p, "2025-01-02 00:00 UTC", "", None);
    assert!(md.starts_with("# demo\n\n_1 requirement(s). Generated 2025-01-02 00:00 UTC._\n\n## REQ-0001"));
    assert!(md.ends_with("\n---\n\n"));
}
