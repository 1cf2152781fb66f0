use req_cli::batch::op_add;
use req_cli::hara::safety_markdown;
use req_cli::markdown::{dossier_md, fmt_md, md_cell};
use req_cli::model::{
    ActionContext, ActorKind, Avoidance, Consequence, Frequency, Priority, Probability, Project, TestOutcome,
    Validation, ValidationActivity,
};
use req_cli::provenance::SourceProbe;
use req_cli::safety_ops::{op_hazard_add, op_sf_add, op_sreq_add};
use req_cli::walkthrough::render_sr;

fn ctx() -> ActionContext {
    ActionContext {
        now: "2025-01-02T03:04:05Z".to_string(),
        actor: "alice".to_string(),
        actor_kind: ActorKind::Human,
        on_behalf_of: None,
        head: Some("feedface".to_string()),
    }
}

fn chain() -> Project {
    let c = ctx();
    let mut p = Project::new("p".to_string(), "t".to_string());
    op_hazard_add(&mut p, "h".to_string(), "d".to_string(), "".to_string(), "harm".to_string(),
        Some(Consequence::Cb), Some(Frequency::Fa), Some(Avoidance::Pa), Some(Probability::W3), vec![], &c);
    op_sf_add(&mut p, "sf".to_string(), "d".to_string(), "s".to_string(), &vec!["HAZ-0001".to_string()], vec![], &c).unwrap();
    op_sreq_add(&mut p, "sr".to_string(), "st".to_string(), "r".to_string(), vec![], Priority::Must, &vec!["SF-0001".to_string()], vec![], &c).unwrap();
    p
}

fn stage(outcome: TestOutcome, summary: &str, refs: Vec<&str>) -> ValidationActivity {
    ValidationActivity {
        summary: summary.to_string(),
        outcome,
        references: refs.into_iter().map(|s| s.to_string()).collect(),
        at: "2025-02-03T04:05:06Z".to_string(),
        actor: "carol".to_string(),
    }
}

#[test]
fn table_cells_escape_pipes_and_newlines() {
    assert_eq!(md_cell("a|b\nc"), "a\\|b c");
    assert_eq!(md_cell("plain"), "plain");
}

#[test]
fn a_missing_dossier_says_so() {
    assert_eq!(dossier_md(None, None, &vec![]), "**Verification.** _no dossier recorded._\n\n");
}

#[test]
fn a_concluded_dossier_renders_every_stage() {
    let mut v = Validation::opened("plan it".to_string(), "bob".to_string(), "c0ffee".to_string(), "t".to_string());
    v.analysis = Some(stage(TestOutcome::Pass, "reviewed", vec!["src/a.rs", "src/b.rs"]));
    v.testing = Some(stage(TestOutcome::Pass, "ran", vec![]));
    v.statement = Some("holds".to_string());
    v.verdict = Some(TestOutcome::Pass);
    v.content_hash = Some("0123456789abcdef".to_string());
    v.linked_files = Some(vec!["src/a.rs".to_string()]);
    v.concluded_commit = Some("feedfacecafe".to_string());
    let probe = SourceProbe { id: "REQ-0001".to_string(), files: vec!["src/a.rs".to_string()], current_hash: "0123456789abcdef".to_string() };
    let md = dossier_md(Some(&v), Some(&probe), &vec![]);
    assert_eq!(
        md,
        "**Verification** — verdict **PASS**, provenance `genuine`\n\n\
- **Plan.** plan it\n\
- **Analysis.** PASS — reviewed _(refs: src/a.rs, src/b.rs)_\n\
- **Testing.** PASS — ran\n\
- **Statement.** holds\n\
- **Co-sign.** _awaiting human co-sign._\n\
- **Anchor.** `0123456789ab` over 1 file(s) @ `feedfacec`\n\n"
    );
    let moved = SourceProbe { current_hash: "other".to_string(), ..probe };
    assert!(dossier_md(Some(&v), Some(&moved), &vec![]).contains("provenance `stale`"));
}

#[test]
fn a_requirement_renders_its_fields() {
    let mut p = Project::new("p".to_string(), "t".to_string());
    op_add(&mut p, "Login".to_string(), "Users log in".to_string(), "Security".to_string(), None,
        Some("must".to_string()), vec!["ok".to_string()], vec!["auth".to_string()], None, None, &None, &ctx(), false)
        .unwrap();
    let md = fmt_md(p.requirements.get("REQ-0001").unwrap(), None);
    assert!(md.starts_with(
        "## REQ-0001 — Login\n\n- **Kind:** functional  \n- **Priority:** must  \n- **Status:** draft\n- **Tags:** auth\n\n**Statement.** Users log in\n\n**Rationale.** Security\n\n**Acceptance criteria:**\n\n- ok\n\n**Verification.** _no dossier recorded._\n\n"
    ));
}

#[test]
fn safety_section_is_empty_without_hazards() {
    let p = Project::new("p".to_string(), "t".to_string());
    assert_eq!(safety_markdown(&p, "", None), "");
}

#[test]
fn safety_section_traces_the_chain() {
    let p = chain();
    let md = safety_markdown(&p, "feedface", None);
    assert!(md.starts_with("# Functional safety (IEC 61508)\n\n_1 hazard(s), 1 safety function(s), 1 safety requirement(s)._\n\n> **Disclaimer.**"));
    assert!(md.contains("| HAZ-0001 h | harm | C_B·F_A·P_A·W3 | SIL1 | SIL1 | 0/1 | ⚠ incomplete |\n"));
    assert!(md.contains("### HAZ-0001 — h\n\n- **Harm.** harm\n- **Risk.** C_B · F_A · P_A · W3 → required **SIL1**\n"));
    assert!(md.contains("\n  **SF-0001 — sf** (allocated SIL1, allocated)  \n  _safe state:_ s\n  - ⚠ SR-0001 sr — _draft_ (inherits SIL1)\n\n---\n\n"));
    assert!(md.contains("## Walkthrough acknowledgements\n\n- SR-0001 — never acknowledged\n\n"));
    assert!(md.ends_with("## SIL calibration\n\n_IEC 61508-5 Annex D (default) — no leaf overrides; every leaf uses the Annex D worked-example default._\n\n"));
}

#[test]
fn walkthrough_screen_shows_chain_and_gap() {
    let p = chain();
    let lines = render_sr(&p, "SR-0001", "feedface", false, None, 0, 1);
    let rule = "━".repeat(74);
    assert_eq!(lines[0], "");
    assert_eq!(lines[1], rule);
    assert_eq!(lines[2], "  [1/1]  SR-0001 — sr");
    assert_eq!(lines[5], "  HAZARD       HAZ-0001 · required SIL1 · h");
    assert_eq!(lines[6], "  harm         harm");
    assert_eq!(lines[7], "  MITIGATED BY SF-0001 · SIL1 · sf");
    assert_eq!(lines[8], "");
    assert_eq!(lines[9], "  REQUIREMENT  inherited SIL1 · status draft");
    assert_eq!(lines[10], format!("{}st", " ".repeat(15)));
    assert_eq!(lines[11], "  EVIDENCE     (no verification dossier yet)");
    assert_eq!(lines[12], format!("  {}", "─".repeat(70)));
    assert_eq!(lines[13], "  ⚠  chain incomplete — cannot be acknowledged yet");
    assert_eq!(lines[14], "     no passing verification evidence yet");
    assert_eq!(lines.len(), 15);
}
