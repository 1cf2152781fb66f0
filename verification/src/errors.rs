//! Errors and the structured error envelope: every failure carries a stable
//! `REQ-E-*` code that tools pattern-match on, and a hint for humans.
use vstd::prelude::*;

use crate::text::{chars_of, contains_seq, dec_seq, dec_string, join, join_seq, lower_seq, prefix_upto, str_contains, str_eq, string_of, to_lower, views};

verus! {

pub const E_INTEGRITY: &'static str = "REQ-E-INTEGRITY";
pub const E_NOT_FOUND: &'static str = "REQ-E-NOT-FOUND";
pub const E_VALIDATION: &'static str = "REQ-E-VALIDATION";
pub const E_CYCLE: &'static str = "REQ-E-CYCLE";
pub const E_DUPLICATE: &'static str = "REQ-E-DUPLICATE";
pub const E_INVALID_INPUT: &'static str = "REQ-E-INVALID-INPUT";
pub const E_IO: &'static str = "REQ-E-IO";
pub const E_INTEGRITY_HINT: &'static str =
    "Review changes with git diff; if intentional, run `req repair --confirm-direct-edit`.";

/// The stable code for an error message, chosen by what its lowercased text
/// mentions, checked in this order: an integrity failure, a missing item, a
/// validation rejection, a cycle, a duplicate, an I/O problem; anything
/// else is invalid input.
pub open spec fn classify_spec(msg: Seq<char>) -> Seq<char> {
    let l = lower_seq(msg);
    if contains_seq(l, "integrity check failed"@) {
        E_INTEGRITY@
    } else if contains_seq(l, "no such requirement"@) || contains_seq(l, "does not exist"@) {
        E_NOT_FOUND@
    } else if contains_seq(l, "validation error"@) || contains_seq(l, "rejected:"@) {
        E_VALIDATION@
    } else if contains_seq(l, "cycle"@) {
        E_CYCLE@
    } else if contains_seq(l, "already exists"@) || contains_seq(l, "duplicate"@) {
        E_DUPLICATE@
    } else if contains_seq(l, "os error"@) || contains_seq(l, "read"@) || contains_seq(l, "write"@) {
        E_IO@
    } else {
        E_INVALID_INPUT@
    }
}

/// Classify a rendered error message into its stable `REQ-E-*` code.
pub fn classify(message: &str) -> (code: &'static str)
    ensures
        code@ == classify_spec(message@),
{
    let lower = to_lower(message);
    let l = lower.as_str();
    if str_contains(l, "integrity check failed") {
        E_INTEGRITY
    } else if str_contains(l, "no such requirement") || str_contains(l, "does not exist") {
        E_NOT_FOUND
    } else if str_contains(l, "validation error") || str_contains(l, "rejected:") {
        E_VALIDATION
    } else if str_contains(l, "cycle") {
        E_CYCLE
    } else if str_contains(l, "already exists") || str_contains(l, "duplicate") {
        E_DUPLICATE
    } else if str_contains(l, "os error") || str_contains(l, "read") || str_contains(l, "write") {
        E_IO
    } else {
        E_INVALID_INPUT
    }
}

/// The remediation hint that goes with a code; none for an unknown code.
pub open spec fn hint_spec(code: Seq<char>) -> Option<Seq<char>> {
    if code == E_INTEGRITY@ {
        Some(E_INTEGRITY_HINT@)
    } else if code == E_NOT_FOUND@ {
        Some("Run `req list` to see existing IDs."@)
    } else if code == E_VALIDATION@ {
        Some("Run `req help best-practice` (or `req help errors`) for the rule catalog."@)
    } else if code == E_CYCLE@ {
        Some("Inspect the parent chain with `req show` and break the cycle before relinking."@)
    } else if code == E_DUPLICATE@ {
        Some("The target already has this link or tag."@)
    } else if code == E_INVALID_INPUT@ {
        Some("Run `req <subcommand> --help` to check the expected arguments."@)
    } else if code == E_IO@ {
        Some("Check the file path and permissions."@)
    } else {
        None
    }
}

/// The remediation hint for a `REQ-E-*` code.
pub fn hint_for(code: &str) -> (r: Option<&'static str>)
    ensures
        match hint_spec(code@) {
            Some(h) => r.is_some() && r.unwrap()@ == h,
            None => r.is_none(),
        },
{
    if str_eq(code, E_INTEGRITY) {
        Some(E_INTEGRITY_HINT)
    } else if str_eq(code, E_NOT_FOUND) {
        Some("Run `req list` to see existing IDs.")
    } else if str_eq(code, E_VALIDATION) {
        Some("Run `req help best-practice` (or `req help errors`) for the rule catalog.")
    } else if str_eq(code, E_CYCLE) {
        Some("Inspect the parent chain with `req show` and break the cycle before relinking.")
    } else if str_eq(code, E_DUPLICATE) {
        Some("The target already has this link or tag.")
    } else if str_eq(code, E_INVALID_INPUT) {
        Some("Run `req <subcommand> --help` to check the expected arguments.")
    } else if str_eq(code, E_IO) {
        Some("Check the file path and permissions.")
    } else {
        None
    }
}

/// Why an operation was refused.
#[derive(Clone, Debug)]
pub enum ReqError {
    /// No requirement with this id (as typed), with a did-you-mean id.
    NoSuchRequirement { raw: String, suggestion: Option<String> },
    NoSuchHazard { raw: String },
    NoSuchSafetyFunction { raw: String },
    NoSuchSafetyRequirement { raw: String },
    /// A forced change carried a reason shorter than required.
    ForceReasonTooShort { min_len: usize, got: usize },
    /// The item has no validation dossier yet.
    NoDossier { id: String },
    /// The dossier is concluded and must be re-opened to change it.
    DossierConcluded { id: String },
    /// Testing was recorded before analysis.
    AnalysisFirst { id: String },
    /// Conclude needs both analysis and testing recorded.
    StagesMissing { id: String },
    /// A failed validation cannot be promoted.
    VerdictFail { id: String },
    /// Promotion skips the lifecycle ladder without --force.
    Irregular { id: String, status: crate::model::Status },
    /// A SIL 3/4 safety requirement offered inspection-only evidence.
    SilRigour { id: String, sil: crate::model::Sil },
    /// A SIL 3/4 safety requirement has no automated or composition evidence
    /// to be promoted to Verified on.
    VerifiedSilRigour { id: String, sil: crate::model::Sil },
    /// Safety requirements cannot be exempted from validation.
    SafetyNotExemptable { id: String },
    /// Neither an id nor --all was given.
    NothingToBackfill,
    /// There is no concluded Pass verdict to confirm.
    NoPassToConfirm { id: String },
    /// A safety requirement lacks a genuine validation dossier.
    NotGenuine { id: String },
    /// A target is neither a HAZ-, SF- nor SR- id.
    BadTarget { raw: String },
    /// A link would close a cycle; `path` runs from the target back to the source.
    Cycle { from: String, to: String, kind: crate::model::LinkKind, path: Vec<String> },
    /// The requirement cannot be linked to itself.
    SelfLink { id: String },
    /// The link already exists.
    DuplicateLink,
    /// There is no such link to remove.
    NoSuchLink,
    /// An unrecognised enumeration value.
    UnknownValue { what: String, value: String },
    /// Accepting the safety disclaimer must be done by a human, not an agent.
    HumanRequired,
    /// Confirming a validation result must be done by a human, not an agent.
    ConfirmNeedsHuman,
    /// A referenced parent requirement does not exist.
    NoSuchParent { id: String },
    /// The target of a link does not exist.
    NoSuchTarget { id: String },
    /// The source of a link does not exist.
    NoSuchSource { id: String },
    /// A status change off the natural lifecycle, without force.
    IrregularTransition { id: String, from: crate::model::Status, to: crate::model::Status },
    /// A hard delete of a requirement that others still link to.
    HardDeleteBlocked { id: String, by: Vec<String> },
    /// A link would close a cycle of its kind.
    WouldCycle { from: String, to: String, kind: crate::model::LinkKind },
    /// The safety function already mitigates the hazard.
    AlreadyMitigates { from: String, to: String },
    /// The safety requirement already realizes the safety function.
    AlreadyRealizes { from: String, to: String },
    /// Promotion by evidence is only automatic from Implemented.
    NotPromotable { id: String, status: crate::model::Status },
    /// The safety-walkthrough acknowledgement is refused.
    ChainIncomplete { id: String, why: String },
    /// The functional-safety features are not enabled: no acceptance is on
    /// file, or (`older`) only one of an older disclaimer version.
    SafetyDisabled { older: bool, file: String },
    /// A calibration or risk-parameter argument does not parse.
    Calibration { fault: crate::safety_gov::CalFault, token: String },
    /// Accepting the disclaimer needs a non-blank name.
    NameRequired,
    /// A `LHS=RHS` argument without the `=`.
    MissingEquals { flag: String, spec: String },
    /// `--assess` needs four `/`-separated risk parameters.
    BadAssessment { params: String },
    /// `req impact` was given no change to analyse.
    NothingToAnalyse,
    /// A result payload of another schema version.
    UnsupportedSchema { schema: String },
    /// A result payload without the commit it was produced against.
    MissingCommit,
    /// A result payload without the identity of the system that produced it.
    MissingSystem,
    /// A result for a requirement that does not exist.
    UnknownResultRequirement { raw: String },
    /// A configured verdict mapping to something other than pass or fail.
    BadVerdictMapping { raw: String, local: String },
    /// An external verdict with no mapping (never defaulted to pass).
    UnmappedVerdict { raw: String },
    /// An external decision for a dossier concluded at another commit.
    DecisionMismatch { id: String, commit: String, anchored: String },
    /// A diff spec without a base revision.
    NoBaseRef,
    /// A requirement id typed where a revision was expected.
    IdNotRevision { spec: String, base: String },
}

/// The first eight characters of a commit id (all of it when shorter).
pub open spec fn short_commit(sha: Seq<char>) -> Seq<char> {
    if sha.len() <= 8 { sha } else { sha.take(8) }
}

/// Abbreviate a commit id to eight characters.
pub fn short_commit_str(sha: &str) -> (r: String)
    ensures
        r@ == short_commit(sha@),
{
    let v = chars_of(sha);
    if v.len() <= 8 {
        string_of(&v)
    } else {
        let p = prefix_upto(&v, 8);
        string_of(&p)
    }
}

/// A cycle path for a message: the source, then the path from the target
/// back to it, joined by arrows.
fn cycle_chain(from: &String, path: &Vec<String>) -> (r: String)
    ensures
        r@ == join_seq(seq![from@] + views(path@), " -> "@),
{
    let mut v: Vec<String> = Vec::new();
    v.push(from.clone());
    let mut i: usize = 0;
    while i < path.len()
        invariant
            i <= path@.len(),
            v@ =~= seq![*from] + path@.take(i as int),
        decreases path@.len() - i,
    {
        v.push(path[i].clone());
        assert(path@.take(i + 1) =~= path@.take(i as int).push(path@[i as int]));
        i = i + 1;
    }
    assert(path@.take(path@.len() as int) =~= path@);
    assert(views(v@) =~= seq![from@] + views(path@));
    join(&v, " -> ")
}

/// `a` followed by `b`.
fn cat(a: &str, b: &str) -> (r: String)
    ensures
        r@ == a@ + b@,
{
    let mut s = String::new();
    s.append(a);
    s.append(b);
    assert(s@ =~= a@ + b@);
    s
}

/// The text an error is reported with.
pub open spec fn message_of(e: ReqError) -> Seq<char> {
    match e {
        ReqError::NoSuchRequirement { raw, suggestion } => match suggestion {
            Some(s) => "no such requirement: "@ + raw@ + " — did you mean "@ + s@ + "?"@,
            None => "no such requirement: "@ + raw@,
        },
        ReqError::NoSuchHazard { raw } => "no such hazard: "@ + raw@,
        ReqError::NoSuchSafetyFunction { raw } => "no such safety function: "@ + raw@,
        ReqError::NoSuchSafetyRequirement { raw } => "no such safety requirement: "@ + raw@,
        ReqError::ForceReasonTooShort { min_len, got } => "a forced change needs a substantive --reason (≥"@ + dec_seq(min_len as nat) + " characters; got "@ + dec_seq(got as nat) + "). Explain why this irregular change is correct so the audit trail records the why."@,
        ReqError::NoDossier { id } => id@ + " has no validation dossier — run `req validation plan "@ + id@ + " ...` first"@,
        ReqError::DossierConcluded { id } => id@ + "'s dossier is already concluded — re-open it with `req validation plan "@ + id@ + " --reopen --reason \"...\"` to revise."@,
        ReqError::AnalysisFirst { id } => "record validation by analysis before testing — run `req validation analysis "@ + id@ + " ...` first"@,
        ReqError::StagesMissing { id } => id@ + " cannot be concluded — record validation by analysis AND by testing first."@,
        ReqError::VerdictFail { id } => id@ + "'s validation verdict is FAIL — cannot promote a failed validation to Verified. Fix the issue, then `req validation plan "@ + id@ + " --reopen --reason \"...\"` and re-validate."@,
        ReqError::Irregular { id, status } => id@ + " is "@ + status.name() + " — promoting straight to Verified is irregular. Advance it to Implemented first, or pass --force --reason \"...\"."@,
        ReqError::SilRigour { id, sil } => "SIL-rigour gate: "@ + id@ + " inherits "@ + sil.name() + " — inspection-only evidence is not sufficient. Provide automated or composition evidence, or pass --force to record an explicit exception."@,
        ReqError::VerifiedSilRigour { id, sil } => "SIL-rigour gate: "@ + id@ + " inherits "@ + sil.name() + " — Verified needs automated or composition test evidence (record it with `req sreq verify "@ + id@ + " --by automated ...`), not analysis/inspection alone. Pass --force --reason \"...\" for an audited exception."@,
        ReqError::SafetyNotExemptable { id } => id@ + " is a safety requirement — safety requirements cannot be exempted. Validate it genuinely with `req validation plan "@ + id@ + " ...` → analysis → test → conclude --promote."@,
        ReqError::NothingToBackfill => "pass an id, or --all to back-fill every Verified item without a passing dossier"@,
        ReqError::NoPassToConfirm { id } => id@ + " has no concluded Pass verdict to confirm — record analysis, testing, and `req validation conclude` first."@,
        ReqError::NotGenuine { id } => id@ + " (safety) cannot be promoted to Verified without a GENUINE validation dossier. Run `req validation plan "@ + id@ + " ...` → analysis → test → conclude. Safety requirements cannot be tag-exempted or back-filled."@,
        ReqError::BadTarget { raw } => "trace expects a HAZ-/SF-/SR- id; got "@ + raw@,
        ReqError::Cycle { from, to, kind, path } => "linking "@ + from@ + " -> "@ + kind.name() + " "@ + to@ + " would create a cycle: "@ + join_seq(seq![from@] + views(path@), " -> "@),
        ReqError::SelfLink { id } => "cannot link "@ + id@ + " to itself"@,
        ReqError::DuplicateLink => "link already exists"@,
        ReqError::NoSuchLink => "no such link"@,
        ReqError::UnknownValue { what, value } => "unknown "@ + what@ + ": "@ + value@,
        ReqError::HumanRequired => "accepting the safety disclaimer must be done by a human, but REQ_ACTOR_KIND=agent. A person must run `req safety accept-disclaimer`."@,
        ReqError::ConfirmNeedsHuman => "confirming a validation result must be done by a human, but REQ_ACTOR_KIND=agent. A person must run `req validation confirm`."@,
        ReqError::NoSuchParent { id } => "parent "@ + id@ + " does not exist"@,
        ReqError::NoSuchTarget { id } => "target "@ + id@ + " does not exist"@,
        ReqError::NoSuchSource { id } => "source "@ + id@ + " does not exist"@,
        ReqError::IrregularTransition { id, from, to } => from.name() + " -> "@ + to.name() + " is an irregular transition for "@ + id@ + " via batch; pass \"force\": true on this mutation to override."@,
        ReqError::HardDeleteBlocked { id, by } => "hard-delete blocked: "@ + id@ + " referenced by "@ + join_seq(views(by@), ", "@),
        ReqError::WouldCycle { from, to, kind } => "linking "@ + from@ + " -> "@ + kind.name() + " "@ + to@ + " would create a cycle"@,
        ReqError::AlreadyMitigates { from, to } => from@ + " already mitigates "@ + to@,
        ReqError::AlreadyRealizes { from, to } => from@ + " already realizes "@ + to@,
        ReqError::NotPromotable { id, status } => "verify mutation: "@ + id@ + " is at status '"@ + status.name() + "'; --promote only auto-promotes from 'implemented'. Pass \"force\": true on this mutation, or transition to implemented first."@,
        ReqError::ChainIncomplete { id, why } => id@ + " cannot be acknowledged: "@ + why@ + ". Complete the chain first, or object."@,
        ReqError::SafetyDisabled { older: true, file } => "the acceptance on file is for an older disclaimer version. A human must accept the safety disclaimer first:\n\n    req safety accept-disclaimer --name \"Your Name <you@example.com>\"\n\nThis writes "@ + file@ + " (commit it) which activates hazards / safety functions / safety requirements. See `req help safety`."@,
        ReqError::SafetyDisabled { older: false, file } => "the functional-safety features are not enabled for this project. A human must accept the safety disclaimer first:\n\n    req safety accept-disclaimer --name \"Your Name <you@example.com>\"\n\nThis writes "@ + file@ + " (commit it) which activates hazards / safety functions / safety requirements. See `req help safety`."@,
        ReqError::Calibration { fault: crate::safety_gov::CalFault::MissingEquals, token } => "--set expects LEAF=W3:x,W2:y,W1:z (missing '=' in '"@ + token@ + "')"@,
        ReqError::Calibration { fault: crate::safety_gov::CalFault::BadLeafShape, token } => "leaf must be C_x/F_x/P_x, got '"@ + token@ + "'"@,
        ReqError::Calibration { fault: crate::safety_gov::CalFault::BadConsequence, token } => "bad consequence '"@ + token@ + "' (C_A..C_D)"@,
        ReqError::Calibration { fault: crate::safety_gov::CalFault::BadFrequency, token } => "bad frequency '"@ + token@ + "' (F_A/F_B)"@,
        ReqError::Calibration { fault: crate::safety_gov::CalFault::BadAvoidance, token } => "bad avoidance '"@ + token@ + "' (P_A/P_B)"@,
        ReqError::Calibration { fault: crate::safety_gov::CalFault::BadProbability, token } => "bad probability '"@ + token@ + "' (W1/W2/W3)"@,
        ReqError::Calibration { fault: crate::safety_gov::CalFault::ExpectedPair, token } => "expected Wn:SIL in '"@ + token@ + "'"@,
        ReqError::Calibration { fault: crate::safety_gov::CalFault::NotASil, token } => "'"@ + token@ + "' is not a SIL (use 1..4, a, b, none)"@,
        ReqError::Calibration { fault: crate::safety_gov::CalFault::UnknownProbability, token } => "unknown probability '"@ + token@ + "' (want W1/W2/W3)"@,
        ReqError::Calibration { fault: crate::safety_gov::CalFault::IncompleteRow, token } => "leaf "@ + token@ + " needs all of W1, W2, W3 (e.g. W3:4,W2:3,W1:2)"@,
        ReqError::NameRequired => "--name is required (record who is accepting)"@,
        ReqError::MissingEquals { flag, spec } => flag@ + " expects LHS=RHS (missing '=' in '"@ + spec@ + "')"@,
        ReqError::BadAssessment { params } => "--assess expects HAZ-NNNN=C_x/F_x/P_x/Wn (got '"@ + params@ + "')"@,
        ReqError::NothingToAnalyse => "nothing to analyse — pass at least one of --calibrate, --mitigate, --realize, --assess"@,
        ReqError::UnsupportedSchema { schema } => "unsupported result schema '"@ + schema@ + "' (this binary speaks '"@ + crate::integration::RESULT_SCHEMA@ + "')"@,
        ReqError::MissingCommit => "payload is missing the commit it was produced against"@,
        ReqError::MissingSystem => "payload is missing the originating system identity"@,
        ReqError::UnknownResultRequirement { raw } => "result references unknown requirement '"@ + raw@ + "'"@,
        ReqError::BadVerdictMapping { raw, local } => "verdict map entry '"@ + raw@ + "' => '"@ + local@ + "' must be 'pass' or 'fail'"@,
        ReqError::UnmappedVerdict { raw } => "external verdict '"@ + raw@ + "' has no mapping — add it to _config.test_integration.verdict_map (pass|fail); refusing to default to pass"@,
        ReqError::DecisionMismatch { id, commit, anchored } => id@ + ": external decision is for commit "@ + short_commit(commit@) + " but the dossier is anchored at "@ + short_commit(anchored@),
        ReqError::NoBaseRef => "diff spec needs a base ref; pass `BASE..HEAD`, `BASE..`, or a single `BASE`"@,
        ReqError::IdNotRevision { spec, base } => "`"@ + spec@ + "` looks like a requirement ID, not a git rev. `req diff` takes a git ref or BASE..HEAD pair (e.g. `HEAD~1`, `origin/main..HEAD`). Use `req show "@ + base@ + "` to inspect a single requirement."@,
    }
}

impl ReqError {
    /// The text this error is reported with.
    pub fn message(&self) -> (r: String)
        ensures
            r@ == message_of(*self),
    {
        match self {
            ReqError::NoSuchRequirement { raw, suggestion } => match suggestion {
                Some(s) => {
                    let mut out = cat("no such requirement: ", raw.as_str());
                    out.append(" — did you mean ");
                    out.append(s.as_str());
                    out.append("?");
                    out
                },
                None => cat("no such requirement: ", raw.as_str()),
            },
            ReqError::NoSuchHazard { raw } => {
                let mut out = cat("no such hazard: ", raw.as_str());
                out
            },
            ReqError::NoSuchSafetyFunction { raw } => {
                let mut out = cat("no such safety function: ", raw.as_str());
                out
            },
            ReqError::NoSuchSafetyRequirement { raw } => {
                let mut out = cat("no such safety requirement: ", raw.as_str());
                out
            },
            ReqError::ForceReasonTooShort { min_len, got } => {
                let t1 = dec_string(*min_len as u64);
                let t3 = dec_string(*got as u64);
                let mut out = cat("a forced change needs a substantive --reason (≥", t1.as_str());
                out.append(" characters; got ");
                out.append(t3.as_str());
                out.append("). Explain why this irregular change is correct so the audit trail records the why.");
                out
            },
            ReqError::NoDossier { id } => {
                let mut out = cat(id.as_str(), " has no validation dossier — run `req validation plan ");
                out.append(id.as_str());
                out.append(" ...` first");
                out
            },
            ReqError::DossierConcluded { id } => {
                let mut out = cat(id.as_str(), "'s dossier is already concluded — re-open it with `req validation plan ");
                out.append(id.as_str());
                out.append(" --reopen --reason \"...\"` to revise.");
                out
            },
            ReqError::AnalysisFirst { id } => {
                let mut out = cat("record validation by analysis before testing — run `req validation analysis ", id.as_str());
                out.append(" ...` first");
                out
            },
            ReqError::StagesMissing { id } => {
                let mut out = cat(id.as_str(), " cannot be concluded — record validation by analysis AND by testing first.");
                out
            },
            ReqError::VerdictFail { id } => {
                let mut out = cat(id.as_str(), "'s validation verdict is FAIL — cannot promote a failed validation to Verified. Fix the issue, then `req validation plan ");
                out.append(id.as_str());
                out.append(" --reopen --reason \"...\"` and re-validate.");
                out
            },
            ReqError::Irregular { id, status } => {
                let mut out = cat(id.as_str(), " is ");
                out.append((*status).as_str());
                out.append(" — promoting straight to Verified is irregular. Advance it to Implemented first, or pass --force --reason \"...\".");
                out
            },
            ReqError::SilRigour { id, sil } => {
                let mut out = cat("SIL-rigour gate: ", id.as_str());
                out.append(" inherits ");
                out.append((*sil).as_str());
                out.append(" — inspection-only evidence is not sufficient. Provide automated or composition evidence, or pass --force to record an explicit exception.");
                out
            },
            ReqError::VerifiedSilRigour { id, sil } => {
                let mut out = cat("SIL-rigour gate: ", id.as_str());
                out.append(" inherits ");
                out.append((*sil).as_str());
                out.append(" — Verified needs automated or composition test evidence (record it with `req sreq verify ");
                out.append(id.as_str());
                out.append(" --by automated ...`), not analysis/inspection alone. Pass --force --reason \"...\" for an audited exception.");
                out
            },
            ReqError::SafetyNotExemptable { id } => {
                let mut out = cat(id.as_str(), " is a safety requirement — safety requirements cannot be exempted. Validate it genuinely with `req validation plan ");
                out.append(id.as_str());
                out.append(" ...` → analysis → test → conclude --promote.");
                out
            },
            ReqError::NothingToBackfill => {
                String::from_str("pass an id, or --all to back-fill every Verified item without a passing dossier")
            },
            ReqError::NoPassToConfirm { id } => {
                let mut out = cat(id.as_str(), " has no concluded Pass verdict to confirm — record analysis, testing, and `req validation conclude` first.");
                out
            },
            ReqError::NotGenuine { id } => {
                let mut out = cat(id.as_str(), " (safety) cannot be promoted to Verified without a GENUINE validation dossier. Run `req validation plan ");
                out.append(id.as_str());
                out.append(" ...` → analysis → test → conclude. Safety requirements cannot be tag-exempted or back-filled.");
                out
            },
            ReqError::BadTarget { raw } => {
                let mut out = cat("trace expects a HAZ-/SF-/SR- id; got ", raw.as_str());
                out
            },
            ReqError::Cycle { from, to, kind, path } => {
                let t7 = cycle_chain(from, path);
                let mut out = cat("linking ", from.as_str());
                out.append(" -> ");
                out.append((*kind).as_str());
                out.append(" ");
                out.append(to.as_str());
                out.append(" would create a cycle: ");
                out.append(t7.as_str());
                out
            },
            ReqError::SelfLink { id } => {
                let mut out = cat("cannot link ", id.as_str());
                out.append(" to itself");
                out
            },
            ReqError::DuplicateLink => {
                String::from_str("link already exists")
            },
            ReqError::NoSuchLink => {
                String::from_str("no such link")
            },
            ReqError::UnknownValue { what, value } => {
                let mut out = cat("unknown ", what.as_str());
                out.append(": ");
                out.append(value.as_str());
                out
            },
            ReqError::HumanRequired => {
                String::from_str("accepting the safety disclaimer must be done by a human, but REQ_ACTOR_KIND=agent. A person must run `req safety accept-disclaimer`.")
            },
            ReqError::ConfirmNeedsHuman => {
                String::from_str("confirming a validation result must be done by a human, but REQ_ACTOR_KIND=agent. A person must run `req validation confirm`.")
            },
            ReqError::NoSuchParent { id } => {
                let mut out = cat("parent ", id.as_str());
                out.append(" does not exist");
                out
            },
            ReqError::NoSuchTarget { id } => {
                let mut out = cat("target ", id.as_str());
                out.append(" does not exist");
                out
            },
            ReqError::NoSuchSource { id } => {
                let mut out = cat("source ", id.as_str());
                out.append(" does not exist");
                out
            },
            ReqError::IrregularTransition { id, from, to } => {
                let mut out = cat((*from).as_str(), " -> ");
                out.append((*to).as_str());
                out.append(" is an irregular transition for ");
                out.append(id.as_str());
                out.append(" via batch; pass \"force\": true on this mutation to override.");
                out
            },
            ReqError::HardDeleteBlocked { id, by } => {
                let t3 = join(by, ", ");
                let mut out = cat("hard-delete blocked: ", id.as_str());
                out.append(" referenced by ");
                out.append(t3.as_str());
                out
            },
            ReqError::WouldCycle { from, to, kind } => {
                let mut out = cat("linking ", from.as_str());
                out.append(" -> ");
                out.append((*kind).as_str());
                out.append(" ");
                out.append(to.as_str());
                out.append(" would create a cycle");
                out
            },
            ReqError::AlreadyMitigates { from, to } => {
                let mut out = cat(from.as_str(), " already mitigates ");
                out.append(to.as_str());
                out
            },
            ReqError::AlreadyRealizes { from, to } => {
                let mut out = cat(from.as_str(), " already realizes ");
                out.append(to.as_str());
                out
            },
            ReqError::NotPromotable { id, status } => {
                let mut out = cat("verify mutation: ", id.as_str());
                out.append(" is at status '");
                out.append((*status).as_str());
                out.append("'; --promote only auto-promotes from 'implemented'. Pass \"force\": true on this mutation, or transition to implemented first.");
                out
            },
            ReqError::ChainIncomplete { id, why } => {
                let mut out = cat(id.as_str(), " cannot be acknowledged: ");
                out.append(why.as_str());
                out.append(". Complete the chain first, or object.");
                out
            },
            ReqError::SafetyDisabled { older: true, file } => {
                let mut out = cat("the acceptance on file is for an older disclaimer version. A human must accept the safety disclaimer first:\n\n    req safety accept-disclaimer --name \"Your Name <you@example.com>\"\n\nThis writes ", file.as_str());
                out.append(" (commit it) which activates hazards / safety functions / safety requirements. See `req help safety`.");
                out
            },
            ReqError::SafetyDisabled { older: false, file } => {
                let mut out = cat("the functional-safety features are not enabled for this project. A human must accept the safety disclaimer first:\n\n    req safety accept-disclaimer --name \"Your Name <you@example.com>\"\n\nThis writes ", file.as_str());
                out.append(" (commit it) which activates hazards / safety functions / safety requirements. See `req help safety`.");
                out
            },
            ReqError::Calibration { fault: crate::safety_gov::CalFault::MissingEquals, token } => {
                let mut out = cat("--set expects LEAF=W3:x,W2:y,W1:z (missing '=' in '", token.as_str());
                out.append("')");
                out
            },
            ReqError::Calibration { fault: crate::safety_gov::CalFault::BadLeafShape, token } => {
                let mut out = cat("leaf must be C_x/F_x/P_x, got '", token.as_str());
                out.append("'");
                out
            },
            ReqError::Calibration { fault: crate::safety_gov::CalFault::BadConsequence, token } => {
                let mut out = cat("bad consequence '", token.as_str());
                out.append("' (C_A..C_D)");
                out
            },
            ReqError::Calibration { fault: crate::safety_gov::CalFault::BadFrequency, token } => {
                let mut out = cat("bad frequency '", token.as_str());
                out.append("' (F_A/F_B)");
                out
            },
            ReqError::Calibration { fault: crate::safety_gov::CalFault::BadAvoidance, token } => {
                let mut out = cat("bad avoidance '", token.as_str());
                out.append("' (P_A/P_B)");
                out
            },
            ReqError::Calibration { fault: crate::safety_gov::CalFault::BadProbability, token } => {
                let mut out = cat("bad probability '", token.as_str());
                out.append("' (W1/W2/W3)");
                out
            },
            ReqError::Calibration { fault: crate::safety_gov::CalFault::ExpectedPair, token } => {
                let mut out = cat("expected Wn:SIL in '", token.as_str());
                out.append("'");
                out
            },
            ReqError::Calibration { fault: crate::safety_gov::CalFault::NotASil, token } => {
                let mut out = cat("'", token.as_str());
                out.append("' is not a SIL (use 1..4, a, b, none)");
                out
            },
            ReqError::Calibration { fault: crate::safety_gov::CalFault::UnknownProbability, token } => {
                let mut out = cat("unknown probability '", token.as_str());
                out.append("' (want W1/W2/W3)");
                out
            },
            ReqError::Calibration { fault: crate::safety_gov::CalFault::IncompleteRow, token } => {
                let mut out = cat("leaf ", token.as_str());
                out.append(" needs all of W1, W2, W3 (e.g. W3:4,W2:3,W1:2)");
                out
            },
            ReqError::NameRequired => {
                String::from_str("--name is required (record who is accepting)")
            },
            ReqError::MissingEquals { flag, spec } => {
                let mut out = cat(flag.as_str(), " expects LHS=RHS (missing '=' in '");
                out.append(spec.as_str());
                out.append("')");
                out
            },
            ReqError::BadAssessment { params } => {
                let mut out = cat("--assess expects HAZ-NNNN=C_x/F_x/P_x/Wn (got '", params.as_str());
                out.append("')");
                out
            },
            ReqError::NothingToAnalyse => {
                String::from_str("nothing to analyse — pass at least one of --calibrate, --mitigate, --realize, --assess")
            },
            ReqError::UnsupportedSchema { schema } => {
                let mut out = cat("unsupported result schema '", schema.as_str());
                out.append("' (this binary speaks '");
                out.append(crate::integration::RESULT_SCHEMA);
                out.append("')");
                out
            },
            ReqError::MissingCommit => {
                String::from_str("payload is missing the commit it was produced against")
            },
            ReqError::MissingSystem => {
                String::from_str("payload is missing the originating system identity")
            },
            ReqError::UnknownResultRequirement { raw } => {
                let mut out = cat("result references unknown requirement '", raw.as_str());
                out.append("'");
                out
            },
            ReqError::BadVerdictMapping { raw, local } => {
                let mut out = cat("verdict map entry '", raw.as_str());
                out.append("' => '");
                out.append(local.as_str());
                out.append("' must be 'pass' or 'fail'");
                out
            },
            ReqError::UnmappedVerdict { raw } => {
                let mut out = cat("external verdict '", raw.as_str());
                out.append("' has no mapping — add it to _config.test_integration.verdict_map (pass|fail); refusing to default to pass");
                out
            },
            ReqError::DecisionMismatch { id, commit, anchored } => {
                let t2 = short_commit_str(commit.as_str());
                let t4 = short_commit_str(anchored.as_str());
                let mut out = cat(id.as_str(), ": external decision is for commit ");
                out.append(t2.as_str());
                out.append(" but the dossier is anchored at ");
                out.append(t4.as_str());
                out
            },
            ReqError::NoBaseRef => {
                String::from_str("diff spec needs a base ref; pass `BASE..HEAD`, `BASE..`, or a single `BASE`")
            },
            ReqError::IdNotRevision { spec, base } => {
                let mut out = cat("`", spec.as_str());
                out.append("` looks like a requirement ID, not a git rev. `req diff` takes a git ref or BASE..HEAD pair (e.g. `HEAD~1`, `origin/main..HEAD`). Use `req show ");
                out.append(base.as_str());
                out.append("` to inspect a single requirement.");
                out
            },
        }
    }
}

} // verus!
