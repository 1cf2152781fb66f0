use req_cli::cli::{SafetyCalibrateArgs, SafetyCmd, SafetyStatusArgs};
use req_cli::errors::ReqError;
use req_cli::model::{
    ActionContext, ActorKind, Avoidance, CalibrationRow, Consequence, EvidenceKind, Frequency,
    Priority, Probability, Project, Sil,
};
use req_cli::safety_gov::{
    accept, ack_is_fresh, calibrate, chain_incompleteness, ensure_enabled, ensure_enabled_path,
    field, in_scope_srs, is_enabled, parse_c, parse_f, parse_p, parse_set, parse_w, record_ack,
    run, safety_status, srs_for_target, validate_leaf, walkthrough_gate, wrap_text, BlockReason,
    CalFault, ChainGap, DisclaimerAcceptance, SafetyOutcome, ACCEPTANCE_NOTICE,
};
use req_cli::safety_ops::{
    op_hazard_add, op_hazard_assess, op_sf_add, op_sreq_add, op_sreq_verify,
};

fn ctx(kind: ActorKind) -> ActionContext {
    ActionContext {
        now: "2025-01-02T03:04:05Z".to_string(),
        actor: "alice".to_string(),
        actor_kind: kind,
        on_behalf_of: None,
        head: Some("0123456789abcdef".to_string()),
    }
}

fn acceptance(version: &str) -> DisclaimerAcceptance {
    DisclaimerAcceptance {
        notice: "n".to_string(),
        accepted_by: "Alice".to_string(),
        at: "2025-01-01T00:00:00Z".to_string(),
        tool_version: "1.0.0".to_string(),
        disclaimer_version: version.to_string(),
    }
}

/// HAZ-0001 assessed C_C/F_A/P_A/W2 (SIL 2), mitigated by SF-0001,
/// realized by SR-0001; SR-0002 realizes nothing.
fn safety_project() -> Project {
    let c = ctx(ActorKind::Human);
    let mut p = Project::new("demo".to_string(), c.now.clone());
    let h = op_hazard_add(
        &mut p,
        "Overpressure".to_string(),
        "d".to_string(),
        "ctx".to_string(),
        "burst".to_string(),
        Some(Consequence::Cc),
        Some(Frequency::Fa),
        Some(Avoidance::Pa),
        Some(Probability::W2),
        vec![],
        &c,
    );
    assert_eq!(h, "HAZ-0001");
    let sf = op_sf_add(&mut p, "Relief".to_string(), "d".to_string(), "vented".to_string(), &vec!["HAZ-0001".to_string()], vec![], &c)
        .unwrap();
    assert_eq!(sf, "SF-0001");
    let sr = op_sreq_add(
        &mut p,
        "Valve opens".to_string(),
        "The valve shall open".to_string(),
        "r".to_string(),
        vec![],
        Priority::Must,
        &vec!["SF-0001".to_string()],
        vec![],
        &c,
    )
    .unwrap();
    assert_eq!(sr, "SR-0001");
    let sr2 = op_sreq_add(
        &mut p,
        "Loose".to_string(),
        "Unlinked".to_string(),
        "r".to_string(),
        vec![],
        Priority::Should,
        &vec![],
        vec![],
        &c,
    )
    .unwrap();
    assert_eq!(sr2, "SR-0002");
    p
}

#[test]
fn enabled_only_for_the_current_disclaimer() {
    assert!(!is_enabled(&None));
    assert!(!is_enabled(&Some(acceptance("1"))));
    assert!(is_enabled(&Some(acceptance("2"))));
}

#[test]
fn gate_refuses_missing_and_older_acceptance() {
    assert!(ensure_enabled(&Some(acceptance("2")), "x.json").is_ok());
    match ensure_enabled_path(&None, "dir/req-safety-acceptance.json") {
        Err(ReqError::SafetyDisabled { older, file }) => {
            assert!(!older);
            assert_eq!(file, "dir/req-safety-acceptance.json");
        }
        _ => panic!("expected SafetyDisabled"),
    }
    match ensure_enabled(&Some(acceptance("1")), "a.json") {
        Err(ReqError::SafetyDisabled { older, .. }) => assert!(older),
        _ => panic!("expected SafetyDisabled"),
    }
}

#[test]
fn risk_parameters_parse_case_insensitively() {
    assert_eq!(parse_c(" c_d ").unwrap(), Consequence::Cd);
    assert_eq!(parse_f("F_A").unwrap(), Frequency::Fa);
    assert_eq!(parse_p("p_b").unwrap(), Avoidance::Pb);
    assert_eq!(parse_w("w3").unwrap(), Probability::W3);
    match parse_c("c_x") {
        Err(ReqError::Calibration { fault, token }) => {
            assert_eq!(fault, CalFault::BadConsequence);
            assert_eq!(token, "C_X");
        }
        _ => panic!("expected a calibration fault"),
    }
    assert!(matches!(parse_f("F_C"), Err(ReqError::Calibration { fault: CalFault::BadFrequency, .. })));
    assert!(matches!(parse_p("P"), Err(ReqError::Calibration { fault: CalFault::BadAvoidance, .. })));
    assert!(matches!(parse_w("W4"), Err(ReqError::Calibration { fault: CalFault::BadProbability, .. })));
}

#[test]
fn leaf_is_canonicalised() {
    assert_eq!(validate_leaf("c_d/f_b/p_b").unwrap(), "C_D/F_B/P_B");
    assert!(matches!(validate_leaf("C_D/F_B"), Err(ReqError::Calibration { fault: CalFault::BadLeafShape, .. })));
}

#[test]
fn calibration_row_parses_with_later_entries_winning() {
    let (leaf, row) = parse_set("C_D/F_B/P_B=W3:4,W2:3,W1:2").unwrap();
    assert_eq!(leaf, "C_D/F_B/P_B");
    assert_eq!(row, CalibrationRow { w3: Sil::Sil4, w2: Sil::Sil3, w1: Sil::Sil2 });
    let (_, row) = parse_set(" c_a/f_a/p_a = w1:none, w2:a, w3:SIL1, w1:b").unwrap();
    assert_eq!(row, CalibrationRow { w3: Sil::Sil1, w2: Sil::A, w1: Sil::B });
}

#[test]
fn calibration_row_faults() {
    let fault = |s: &str| match parse_set(s) {
        Err(ReqError::Calibration { fault, token }) => (fault, token),
        _ => panic!("expected a fault for {s}"),
    };
    assert_eq!(fault("C_D/F_B/P_B"), (CalFault::MissingEquals, "C_D/F_B/P_B".to_string()));
    assert_eq!(fault("C_D/F_B/P_B=W3:4,W2").0, CalFault::ExpectedPair);
    assert_eq!(fault("C_D/F_B/P_B=W3:9,W2:3,W1:2"), (CalFault::NotASil, "9".to_string()));
    assert_eq!(fault("C_D/F_B/P_B=W4:1"), (CalFault::UnknownProbability, "W4".to_string()));
    assert_eq!(fault("C_D/F_B/P_B=W3:4,W2:3"), (CalFault::IncompleteRow, "C_D/F_B/P_B".to_string()));
}

#[test]
fn wrap_is_greedy_on_word_boundaries() {
    assert_eq!(wrap_text("", 10), vec![String::new()]);
    assert_eq!(wrap_text("aa bb cc", 5), vec!["aa bb".to_string(), "cc".to_string()]);
    assert_eq!(wrap_text("  one\ttwo\nthree ", 100), vec!["one two three".to_string()]);
    assert_eq!(wrap_text("abcdefgh ij", 4), vec!["abcdefgh".to_string(), "ij".to_string()]);
}

#[test]
fn field_pads_the_label_and_indents_continuations() {
    let mut out = vec!["x".to_string()];
    field(&mut out, "HAZARD", "short body");
    assert_eq!(out, vec!["x".to_string(), "  HAZARD       short body".to_string()]);
    let long = "word ".repeat(20);
    let mut out = Vec::new();
    field(&mut out, "", &long);
    assert_eq!(out.len(), 2);
    assert!(out[1].starts_with(&" ".repeat(15)));
    assert_eq!(out[0].chars().count(), 2 + 12 + 1 + 54);
}

#[test]
fn acknowledgement_freshness() {
    let p = safety_project();
    let c = ctx(ActorKind::Human);
    let mut q = p;
    assert_eq!(chain_incompleteness(&q, "SR-0009"), Some(ChainGap::NoSuchRequirement));
    assert_eq!(chain_incompleteness(&q, "SR-0002"), Some(ChainGap::NothingToInherit));
    assert_eq!(chain_incompleteness(&q, "SR-0001"), Some(ChainGap::NoPassingEvidence));
    op_sreq_verify(&mut q, "SR-0001", EvidenceKind::Composition, "argued".to_string(), &vec![], false, false, &c).unwrap();
    assert_eq!(chain_incompleteness(&q, "SR-0001"), None);
    let msg = record_ack(&mut q, "SR-0001", false, None, "0123456789abcdef", &c).unwrap();
    assert_eq!(msg, "Acknowledged SR-0001 by alice at 01234567.");
    let sr = q.safety_requirements.get("SR-0001").unwrap();
    assert!(ack_is_fresh(sr.walkthrough.as_ref(), "0123456789abcdef"));
    assert!(!ack_is_fresh(sr.walkthrough.as_ref(), "ffff"));
    assert!(!ack_is_fresh(None, "0123456789abcdef"));
}

#[test]
fn incomplete_chain_cannot_be_acknowledged_but_can_be_objected() {
    let mut p = safety_project();
    let c = ctx(ActorKind::Human);
    match record_ack(&mut p, "SR-0002", false, None, "abc", &c) {
        Err(ReqError::ChainIncomplete { id, why }) => {
            assert_eq!(id, "SR-0002");
            assert_eq!(why, ChainGap::NothingToInherit.message());
        }
        _ => panic!("expected ChainIncomplete"),
    }
    let msg = record_ack(&mut p, "SR-0002", true, Some("unclear".to_string()), "abc", &c).unwrap();
    assert_eq!(msg, "Recorded objection on SR-0002 by alice.");
    assert!(matches!(record_ack(&mut p, "SR-0042", true, None, "abc", &c), Err(ReqError::NoSuchSafetyRequirement { .. })));
}

#[test]
fn sign_off_lists_unacknowledged_requirements() {
    let mut p = safety_project();
    let c = ctx(ActorKind::Human);
    let ids = in_scope_srs(&p);
    assert_eq!(ids, vec!["SR-0001".to_string(), "SR-0002".to_string()]);
    record_ack(&mut p, "SR-0002", true, None, "abc", &c).unwrap();
    let b = walkthrough_gate(&p, &ids, "abc");
    assert_eq!(b.len(), 2);
    assert_eq!(b[0].id, "SR-0001");
    assert_eq!(b[0].why, BlockReason::NeverAcknowledged);
    assert_eq!(b[1].why, BlockReason::ObjectionOnRecord);
}

#[test]
fn walkthrough_targets_resolve_along_the_chain() {
    let p = safety_project();
    assert_eq!(srs_for_target(&p, "haz-0001").unwrap(), vec!["SR-0001".to_string()]);
    assert_eq!(srs_for_target(&p, "SF-0001").unwrap(), vec!["SR-0001".to_string()]);
    assert_eq!(srs_for_target(&p, "sr-2").unwrap(), vec!["SR-0002".to_string()]);
    assert!(srs_for_target(&p, "REQ-0001").is_err());
    assert!(srs_for_target(&p, "SR-0099").is_err());
}

#[test]
fn calibrate_overrides_resets_and_shows() {
    let mut p = safety_project();
    let show = SafetyCalibrateArgs { label: None, set: vec![], reset: false, show: true, json: false };
    assert_eq!(calibrate(&show, &mut p).unwrap(), false);
    let set = SafetyCalibrateArgs {
        label: Some("plant".to_string()),
        set: vec!["C_C/F_A/P_A=W3:4,W2:4,W1:4".to_string()],
        reset: false,
        show: false,
        json: false,
    };
    assert_eq!(p.required_sil(p.hazards.get("HAZ-0001").unwrap()), Some(Sil::Sil2));
    assert!(calibrate(&set, &mut p).unwrap());
    assert_eq!(p.calibration.len(), 1);
    assert_eq!(p.calibration_label.as_deref(), Some("plant"));
    assert_eq!(p.required_sil(p.hazards.get("HAZ-0001").unwrap()), Some(Sil::Sil4));
    let bad = SafetyCalibrateArgs { label: None, set: vec!["nope".to_string()], reset: true, show: false, json: false };
    assert!(calibrate(&bad, &mut p).is_err());
    assert_eq!(p.calibration.len(), 1);
    let reset = SafetyCalibrateArgs { label: None, set: vec![], reset: true, show: false, json: false };
    assert!(calibrate(&reset, &mut p).unwrap());
    assert_eq!(p.calibration.len(), 0);
    assert_eq!(p.calibration_label, None);
}

#[test]
fn acceptance_is_a_human_act_with_a_name() {
    let h = ctx(ActorKind::Human);
    assert!(matches!(accept(&Some("x".to_string()), &ctx(ActorKind::Agent), "1.0"), Err(ReqError::HumanRequired)));
    assert!(matches!(accept(&Some("   ".to_string()), &h, "1.0"), Err(ReqError::NameRequired)));
    assert!(matches!(accept(&None, &h, "1.0"), Err(ReqError::NameRequired)));
    let a = accept(&Some("Alice <a@x>".to_string()), &h, "1.2.3").unwrap();
    assert_eq!(a.accepted_by, "Alice <a@x>");
    assert_eq!(a.disclaimer_version, "2");
    assert_eq!(a.tool_version, "1.2.3");
    assert_eq!(a.notice, ACCEPTANCE_NOTICE);
    assert!(is_enabled(&Some(a)));
}

#[test]
fn status_reports_enablement_and_overrides() {
    let p = safety_project();
    let s = safety_status(Some(&p), &Some(acceptance("2")));
    assert!(s.enabled);
    assert_eq!(s.overrides, 0);
    let s = safety_status(None, &None);
    assert!(!s.enabled && s.calibration_label.is_none());
    let mut q = safety_project();
    match run(&SafetyCmd::Status(SafetyStatusArgs { json: false }), &mut q, &None, &ctx(ActorKind::Human), "1") {
        Ok(SafetyOutcome::Status(s)) => assert!(!s.enabled),
        _ => panic!("expected a status"),
    }
}

#[test]
fn assessment_changes_required_level() {
    let mut p = safety_project();
    let c = ctx(ActorKind::Human);
    op_hazard_assess(&mut p, "HAZ-1", Consequence::Cd, Frequency::Fb, Avoidance::Pb, Probability::W3, None, &c).unwrap();
    assert_eq!(p.required_sil(p.hazards.get("HAZ-0001").unwrap()), Some(Sil::B));
}
