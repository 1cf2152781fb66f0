use req_cli::model::SAFETY_DISCLAIMER_VERSION;
use req_cli::safety_gov::DISCLAIMER;

// The agreement a user must accept before any functional-safety feature is
// enabled disclaims all developer liability and states that req is a
// research tool not intended for real safety applications.
#[test]
fn req_0144_disclaimer_states_no_liability_and_research_scope() {
    let d = DISCLAIMER.to_lowercase();
    assert!(
        d.contains("no liability whatsoever"),
        "agreement must disclaim all developer liability: {DISCLAIMER}"
    );
    assert!(
        d.contains("research"),
        "agreement must state req is a research tool: {DISCLAIMER}"
    );
    assert!(
        d.contains("real safety applications"),
        "agreement must state it is not for real safety applications: {DISCLAIMER}"
    );
}

// The accepted disclaimer version is embedded so a substance change
// (version bump) forces re-acceptance.
#[test]
fn req_0144_disclaimer_version_is_current() {
    assert_eq!(SAFETY_DISCLAIMER_VERSION, "2");
}
