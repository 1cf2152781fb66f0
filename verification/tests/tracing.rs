use req_cli::model::{ActionContext, ActorKind, Avoidance, Consequence, Frequency, Priority, Probability, Project};
use req_cli::safety::assess_hazard;
use req_cli::safety_ops::{op_hazard_add, op_sf_add, op_sreq_add};
use req_cli::trace::trace_hazard;

fn ctx() -> ActionContext {
    ActionContext {
        now: "2025-01-02T03:04:05Z".to_string(),
        actor: "alice".to_string(),
        actor_kind: ActorKind::Human,
        on_behalf_of: None,
        head: Some("feedface".to_string()),
    }
}

#[test]
fn hazard_tree_shows_the_whole_chain() {
    let c = ctx();
    let mut p = Project::new("demo".to_string(), c.now.clone());
    op_hazard_add(
        &mut p,
        "Overpressure".to_string(),
        "d".to_string(),
        "".to_string(),
        "burst".to_string(),
        Some(Consequence::Cc),
        Some(Frequency::Fa),
        Some(Avoidance::Pa),
        Some(Probability::W2),
        vec![],
        &c,
    );
    let mut lone = Project::new("demo".to_string(), c.now.clone());
    op_hazard_add(&mut lone, "Spill".to_string(), "d".to_string(), "".to_string(), "mess".to_string(), None, None, None, None, vec![], &c);
    op_sf_add(&mut p, "Relief".to_string(), "d".to_string(), "vented".to_string(), &vec!["HAZ-0001".to_string()], vec![], &c).unwrap();
    op_sreq_add(
        &mut p,
        "Valve opens".to_string(),
        "The valve shall open".to_string(),
        "r".to_string(),
        vec![],
        Priority::Must,
        &vec!["SF-0001".to_string()],
        vec![],
        &c,
    )
    .unwrap();
    let v = assess_hazard(&p, "HAZ-0001");
    let t = trace_hazard(&p, "HAZ-0001", &v);
    assert!(t.starts_with("HAZ-0001  Overpressure  ["));
    assert!(t.contains("]\n  harm:     burst\n  risk:     "));
    assert!(t.contains("  │\n  └─ mitigated by ─────────────────────────────────\n     SF-0001  Relief  ["));
    assert!(t.contains("       safe state:    vented\n"));
    assert!(t.contains("       └─ realized by ───────────────────────\n          SR-0001  Valve opens  ["));
    assert!(t.contains("            evidence: none                       ✗ unverified\n"));
    assert!(t.contains("\n  SAFETY CASE:  ⚠ INCOMPLETE\n"));
    assert!(t.contains("    safety requirements: 0 verified of 1\n"));
    let lv = assess_hazard(&lone, "HAZ-0001");
    let lt = trace_hazard(&lone, "HAZ-0001", &lv);
    assert!(lt.contains("  risk:     not yet assessed\n  │\n  └─ mitigated by ── (none)\n"));
}
