use req_cli::batch::{op_add, op_update};
use req_cli::coverage::{coverage_report, strict_findings, Hit};
use req_cli::dashboard::{hook_mode_of, snapshot, status_summary};
use req_cli::model::{ActionContext, ActorKind, Project};

fn ctx() -> ActionContext {
    ActionContext {
        now: "2025-01-02T03:04:05Z".to_string(),
        actor: "alice".to_string(),
        actor_kind: ActorKind::Human,
        on_behalf_of: None,
        head: None,
    }
}

fn add(p: &mut Project, title: &str, priority: &str, tags: Vec<&str>) {
    op_add(p, title.to_string(), format!("The system shall {title}"), "r".to_string(), None,
        Some(priority.to_string()), vec![], tags.into_iter().map(|t| t.to_string()).collect(), None, None, &None, &ctx(), false)
        .unwrap();
}

fn set_status(p: &mut Project, id: &str, status: &str) {
    op_update(p, id.to_string(), None, None, None, None, vec![], None, None, Some(status.to_string()), vec![], vec![],
        Some("moving it along".to_string()), true, &None, &ctx())
        .unwrap();
}

fn project() -> Project {
    let mut p = Project::new("dash".to_string(), "t".to_string());
    add(&mut p, "one", "should", vec!["ui"]);
    add(&mut p, "two", "must", vec![]);
    add(&mut p, "three", "could", vec!["ui"]);
    add(&mut p, "four", "must", vec!["ui"]);
    set_status(&mut p, "REQ-0002", "implemented");
    set_status(&mut p, "REQ-0004", "obsolete");
    p
}

#[test]
fn status_counts_scope_by_tag() {
    let p = project();
    let all = status_summary(&p, &vec![]);
    assert_eq!(all.total, 4);
    assert_eq!(all.by_status, vec![2, 0, 0, 1, 0, 1]);
    assert_eq!((all.done, all.non_obsolete), (1, 3));
    assert_eq!((all.verified_genuine, all.verified_exempt), (0, 0));
    assert!(all.defective.is_empty());
    let ui = status_summary(&p, &vec!["ui".to_string()]);
    assert_eq!(ui.total, 3);
    assert_eq!(ui.by_status, vec![2, 0, 0, 0, 0, 1]);
    assert_eq!((ui.done, ui.non_obsolete), (0, 2));
}

#[test]
fn brief_picks_open_work_and_lists_loose_ends() {
    let p = project();
    let s = snapshot(&p, Some("strict".to_string()), None);
    assert_eq!(s.total, 4);
    assert_eq!(
        s.next_pick,
        Some(("REQ-0002".to_string(), "two".to_string(), "implemented".to_string(), "must".to_string()))
    );
    assert_eq!(s.drafts, vec!["REQ-0001".to_string(), "REQ-0003".to_string()]);
    assert_eq!(s.implemented_unverified, vec!["REQ-0002".to_string()]);
    assert_eq!(
        s.to_short("33"),
        "req brief: dash — 4 req(s), 33% delivered, 2 draft.\n  next : REQ-0002 [must / implemented] — two\n  loose: 1 implemented but not verified — REQ-0002\n        `req brief --full` for the dashboard · `req next` to start work\n"
    );
    let full = s.to_full(&p, "33.3");
    assert!(full.starts_with("# req brief — dash\n\n**4 requirements · 33.3% delivered**\n\n## Status breakdown\n\n  -        draft: 2\n  -  implemented: 1\n  -     obsolete: 1\n\n"));
    assert!(full.contains("## Drafts (2)\n\n  - REQ-0001 — one\n  - REQ-0003 — three\n\n"));
    assert!(full.ends_with("  pre-commit hook: strict\n  last spec change: (no git history)\n\n  `req lint` for quality audit · `req review` for PR-style report\n"));
}

#[test]
fn empty_brief_queues_nothing() {
    let p = Project::new("e".to_string(), "t".to_string());
    let s = snapshot(&p, None, None);
    assert!(s.next_pick.is_none());
    assert!(s.to_short("0").contains("  next : nothing queued."));
}

#[test]
fn hook_mode_reads_the_marker() {
    assert_eq!(hook_mode_of("#!/bin/sh\n# mode: strict\n"), Some("strict".to_string()));
    assert_eq!(hook_mode_of("# managed-by: req-hooks\n"), Some("managed (mode unknown)".to_string()));
    assert_eq!(hook_mode_of("echo hi"), None);
}

#[test]
fn coverage_sorts_citations_into_buckets() {
    let p = project();
    let hit = |id: &str, refs: Vec<&str>| Hit { id: id.to_string(), refs: refs.into_iter().map(|s| s.to_string()).collect() };
    let hits = vec![
        hit("REQ-0001", vec!["tests/a_test.rs:3"]),
        hit("REQ-0002", vec!["src/a.rs:1", "tests/b.rs:2"]),
        hit("REQ-0004", vec!["src/old.rs:9"]),
        hit("REQ-0099", vec!["src/x.rs:5"]),
    ];
    let rep = coverage_report(&p, &hits);
    assert_eq!(rep.referenced.len(), 1);
    assert_eq!(rep.referenced[0].id, "REQ-0002");
    assert_eq!(rep.test_only[0].id, "REQ-0001");
    assert_eq!(rep.obsolete_referenced[0].id, "REQ-0004");
    assert_eq!(rep.ghosts[0].id, "REQ-0099");
    assert!(rep.orphans.is_empty());
    assert_eq!(rep.drafts_unmarked, vec!["REQ-0003".to_string()]);
    assert_eq!(strict_findings(&rep, &vec![]), 2);
}
