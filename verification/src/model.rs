//! The project model: requirements with their evidence and validation
//! dossiers, and the functional-safety artifacts (hazards, safety functions,
//! safety requirements) with the IEC 61508 risk graph that derives their
//! integrity levels.
use vstd::prelude::*;

use crate::idmap::{has_key, keys_sorted, lookup, IdMap, Keyed};
use crate::text::{str_eq, trim, chars_of, to_upper, upper_seq, trim_seq};

verus! {

/// Version of the functional-safety disclaimer. Bumping it invalidates
/// every earlier acceptance, so users must re-accept changed terms.
pub const SAFETY_DISCLAIMER_VERSION: &'static str = "2";

/// Tag that excludes an ordinary requirement from the validation-dossier gate.
pub const DEFAULT_VALIDATION_EXEMPT_TAG: &'static str = "no-dossier";

// ---------------------------------------------------------------------------
// Enumerations
// ---------------------------------------------------------------------------

/// Lifecycle status of a requirement or safety requirement.
#[derive(Copy, Clone, Debug, PartialEq, Eq, Structural)]
pub enum Status {
    Draft,
    Proposed,
    Approved,
    Implemented,
    Verified,
    Obsolete,
}

impl Status {
    pub open spec fn name(self) -> Seq<char> {
        match self {
            Status::Draft => "draft"@,
            Status::Proposed => "proposed"@,
            Status::Approved => "approved"@,
            Status::Implemented => "implemented"@,
            Status::Verified => "verified"@,
            Status::Obsolete => "obsolete"@,
        }
    }

    pub fn as_str(self) -> (r: &'static str)
        ensures
            r@ == self.name(),
    {
        match self {
            Status::Draft => "draft",
            Status::Proposed => "proposed",
            Status::Approved => "approved",
            Status::Implemented => "implemented",
            Status::Verified => "verified",
            Status::Obsolete => "obsolete",
        }
    }
}

/// The lifecycle moves that need no `--force`: one step forward along
/// draft → proposed → approved → implemented → verified (a draft may also
/// go straight to approved), or retiring to obsolete from anywhere.
pub open spec fn natural_transition(from: Status, to: Status) -> bool {
    ||| to == Status::Obsolete
    ||| from == Status::Draft && (to == Status::Proposed || to == Status::Approved)
    ||| from == Status::Proposed && to == Status::Approved
    ||| from == Status::Approved && to == Status::Implemented
    ||| from == Status::Implemented && to == Status::Verified
}

/// Whether moving from `from` to `to` is a natural lifecycle move.
pub fn is_natural_transition(from: Status, to: Status) -> (b: bool)
    ensures
        b == natural_transition(from, to),
{
    match (from, to) {
        (_, Status::Obsolete) => true,
        (Status::Draft, Status::Proposed) | (Status::Draft, Status::Approved) => true,
        (Status::Proposed, Status::Approved) => true,
        (Status::Approved, Status::Implemented) => true,
        (Status::Implemented, Status::Verified) => true,
        _ => false,
    }
}

/// Kind of requirement.
#[derive(Copy, Clone, Debug, PartialEq, Eq, Structural)]
pub enum Kind {
    Functional,
    NonFunctional,
    Constraint,
    Interface,
    Business,
}

impl Kind {
    pub open spec fn name(self) -> Seq<char> {
        match self {
            Kind::Functional => "functional"@,
            Kind::NonFunctional => "non-functional"@,
            Kind::Constraint => "constraint"@,
            Kind::Interface => "interface"@,
            Kind::Business => "business"@,
        }
    }

    pub fn as_str(self) -> (r: &'static str)
        ensures
            r@ == self.name(),
    {
        match self {
            Kind::Functional => "functional",
            Kind::NonFunctional => "non-functional",
            Kind::Constraint => "constraint",
            Kind::Interface => "interface",
            Kind::Business => "business",
        }
    }
}

/// MoSCoW priority.
#[derive(Copy, Clone, Debug, PartialEq, Eq, Structural)]
pub enum Priority {
    Must,
    Should,
    Could,
    Wont,
}

impl Priority {
    pub open spec fn name(self) -> Seq<char> {
        match self {
            Priority::Must => "must"@,
            Priority::Should => "should"@,
            Priority::Could => "could"@,
            Priority::Wont => "wont"@,
        }
    }

    pub fn as_str(self) -> (r: &'static str)
        ensures
            r@ == self.name(),
    {
        match self {
            Priority::Must => "must",
            Priority::Should => "should",
            Priority::Could => "could",
            Priority::Wont => "wont",
        }
    }
}

/// Kind of a link between artifacts.
#[derive(Copy, Clone, Debug, PartialEq, Eq, Structural)]
pub enum LinkKind {
    Parent,
    DependsOn,
    Conflicts,
    Refines,
    Verifies,
    /// A safety function mitigates a hazard.
    Mitigates,
    /// A safety requirement realizes a safety function.
    Realizes,
}

impl LinkKind {
    pub open spec fn name(self) -> Seq<char> {
        match self {
            LinkKind::Parent => "parent"@,
            LinkKind::DependsOn => "depends-on"@,
            LinkKind::Conflicts => "conflicts"@,
            LinkKind::Refines => "refines"@,
            LinkKind::Verifies => "verifies"@,
            LinkKind::Mitigates => "mitigates"@,
            LinkKind::Realizes => "realizes"@,
        }
    }

    pub fn as_str(self) -> (r: &'static str)
        ensures
            r@ == self.name(),
    {
        match self {
            LinkKind::Parent => "parent",
            LinkKind::DependsOn => "depends-on",
            LinkKind::Conflicts => "conflicts",
            LinkKind::Refines => "refines",
            LinkKind::Verifies => "verifies",
            LinkKind::Mitigates => "mitigates",
            LinkKind::Realizes => "realizes",
        }
    }
}

/// Outcome of a test record or of a validation stage.
#[derive(Copy, Clone, Debug, PartialEq, Eq, Structural)]
pub enum TestOutcome {
    Pass,
    Fail,
}

impl TestOutcome {
    pub open spec fn name(self) -> Seq<char> {
        match self {
            TestOutcome::Pass => "pass"@,
            TestOutcome::Fail => "fail"@,
        }
    }

    pub fn as_str(self) -> (r: &'static str)
        ensures
            r@ == self.name(),
    {
        match self {
            TestOutcome::Pass => "pass",
            TestOutcome::Fail => "fail",
        }
    }
}

/// How a piece of verification evidence was obtained.
#[derive(Copy, Clone, Debug, PartialEq, Eq, Structural)]
pub enum EvidenceKind {
    Automated,
    Composition,
    Inspection,
}

impl EvidenceKind {
    pub open spec fn name(self) -> Seq<char> {
        match self {
            EvidenceKind::Automated => "automated"@,
            EvidenceKind::Composition => "composition"@,
            EvidenceKind::Inspection => "inspection"@,
        }
    }

    pub fn as_str(self) -> (r: &'static str)
        ensures
            r@ == self.name(),
    {
        match self {
            EvidenceKind::Automated => "automated",
            EvidenceKind::Composition => "composition",
            EvidenceKind::Inspection => "inspection",
        }
    }
}

/// Who performed an action.
#[derive(Copy, Clone, Debug, PartialEq, Eq, Structural)]
pub enum ActorKind {
    Human,
    Agent,
    Unknown,
}

/// Which audited waiver an exempt validation dossier records.
#[derive(Copy, Clone, Debug, PartialEq, Eq, Structural)]
pub enum ExemptionKind {
    Backfilled,
    NoDossier,
}

/// Lifecycle status of a hazard.
#[derive(Copy, Clone, Debug, PartialEq, Eq, Structural)]
pub enum HazardStatus {
    Identified,
    Assessed,
    Mitigated,
    Verified,
    Obsolete,
}

impl HazardStatus {
    pub open spec fn name(self) -> Seq<char> {
        match self {
            HazardStatus::Identified => "identified"@,
            HazardStatus::Assessed => "assessed"@,
            HazardStatus::Mitigated => "mitigated"@,
            HazardStatus::Verified => "verified"@,
            HazardStatus::Obsolete => "obsolete"@,
        }
    }

    pub fn as_str(self) -> (r: &'static str)
        ensures
            r@ == self.name(),
    {
        match self {
            HazardStatus::Identified => "identified",
            HazardStatus::Assessed => "assessed",
            HazardStatus::Mitigated => "mitigated",
            HazardStatus::Verified => "verified",
            HazardStatus::Obsolete => "obsolete",
        }
    }
}

/// Lifecycle status of a safety function.
#[derive(Copy, Clone, Debug, PartialEq, Eq, Structural)]
pub enum SafetyFunctionStatus {
    Proposed,
    Allocated,
    Implemented,
    Verified,
    Obsolete,
}

impl SafetyFunctionStatus {
    pub open spec fn name(self) -> Seq<char> {
        match self {
            SafetyFunctionStatus::Proposed => "proposed"@,
            SafetyFunctionStatus::Allocated => "allocated"@,
            SafetyFunctionStatus::Implemented => "implemented"@,
            SafetyFunctionStatus::Verified => "verified"@,
            SafetyFunctionStatus::Obsolete => "obsolete"@,
        }
    }

    pub fn as_str(self) -> (r: &'static str)
        ensures
            r@ == self.name(),
    {
        match self {
            SafetyFunctionStatus::Proposed => "proposed",
            SafetyFunctionStatus::Allocated => "allocated",
            SafetyFunctionStatus::Implemented => "implemented",
            SafetyFunctionStatus::Verified => "verified",
            SafetyFunctionStatus::Obsolete => "obsolete",
        }
    }
}


// ---------------------------------------------------------------------------
// IEC 61508 risk graph
// ---------------------------------------------------------------------------

/// Consequence parameter C of the risk graph.
#[derive(Copy, Clone, Debug, PartialEq, Eq, Structural)]
pub enum Consequence {
    Ca,
    Cb,
    Cc,
    Cd,
}

/// Frequency-of-exposure parameter F.
#[derive(Copy, Clone, Debug, PartialEq, Eq, Structural)]
pub enum Frequency {
    Fa,
    Fb,
}

/// Possibility-of-avoidance parameter P.
#[derive(Copy, Clone, Debug, PartialEq, Eq, Structural)]
pub enum Avoidance {
    Pa,
    Pb,
}

/// Probability-of-the-unwanted-occurrence parameter W.
#[derive(Copy, Clone, Debug, PartialEq, Eq, Structural)]
pub enum Probability {
    W1,
    W2,
    W3,
}

impl Consequence {
    pub open spec fn name(self) -> Seq<char> {
        match self {
            Consequence::Ca => "C_A"@,
            Consequence::Cb => "C_B"@,
            Consequence::Cc => "C_C"@,
            Consequence::Cd => "C_D"@,
        }
    }

    pub fn as_str(self) -> (r: &'static str)
        ensures
            r@ == self.name(),
    {
        match self {
            Consequence::Ca => "C_A",
            Consequence::Cb => "C_B",
            Consequence::Cc => "C_C",
            Consequence::Cd => "C_D",
        }
    }

    pub open spec fn level(self) -> int {
        match self {
            Consequence::Ca => 0,
            Consequence::Cb => 1,
            Consequence::Cc => 2,
            Consequence::Cd => 3,
        }
    }
}

impl Frequency {
    pub open spec fn name(self) -> Seq<char> {
        match self {
            Frequency::Fa => "F_A"@,
            Frequency::Fb => "F_B"@,
        }
    }

    pub fn as_str(self) -> (r: &'static str)
        ensures
            r@ == self.name(),
    {
        match self {
            Frequency::Fa => "F_A",
            Frequency::Fb => "F_B",
        }
    }

    pub open spec fn level(self) -> int {
        match self {
            Frequency::Fa => 0,
            Frequency::Fb => 1,
        }
    }
}

impl Avoidance {
    pub open spec fn name(self) -> Seq<char> {
        match self {
            Avoidance::Pa => "P_A"@,
            Avoidance::Pb => "P_B"@,
        }
    }

    pub fn as_str(self) -> (r: &'static str)
        ensures
            r@ == self.name(),
    {
        match self {
            Avoidance::Pa => "P_A",
            Avoidance::Pb => "P_B",
        }
    }

    pub open spec fn level(self) -> int {
        match self {
            Avoidance::Pa => 0,
            Avoidance::Pb => 1,
        }
    }
}

impl Probability {
    pub open spec fn name(self) -> Seq<char> {
        match self {
            Probability::W1 => "W1"@,
            Probability::W2 => "W2"@,
            Probability::W3 => "W3"@,
        }
    }

    pub fn as_str(self) -> (r: &'static str)
        ensures
            r@ == self.name(),
    {
        match self {
            Probability::W1 => "W1",
            Probability::W2 => "W2",
            Probability::W3 => "W3",
        }
    }

    pub open spec fn level(self) -> int {
        match self {
            Probability::W1 => 0,
            Probability::W2 => 1,
            Probability::W3 => 2,
        }
    }
}

/// An outcome of the risk graph: no safety requirement, "a" (no special
/// safety requirements), SIL 1 to 4, or "b" (a single E/E/PE safety-related
/// system is not sufficient).
#[derive(Copy, Clone, Debug, PartialEq, Eq, Structural)]
pub enum Sil {
    NoRequirement,
    A,
    Sil1,
    Sil2,
    Sil3,
    Sil4,
    B,
}

impl Sil {
    /// Position in the ordering from least to most demanding.
    pub open spec fn rank_of(self) -> nat {
        match self {
            Sil::NoRequirement => 0,
            Sil::A => 1,
            Sil::Sil1 => 2,
            Sil::Sil2 => 3,
            Sil::Sil3 => 4,
            Sil::Sil4 => 5,
            Sil::B => 6,
        }
    }

    pub fn rank(self) -> (r: u8)
        ensures
            r == self.rank_of(),
    {
        match self {
            Sil::NoRequirement => 0,
            Sil::A => 1,
            Sil::Sil1 => 2,
            Sil::Sil2 => 3,
            Sil::Sil3 => 4,
            Sil::Sil4 => 5,
            Sil::B => 6,
        }
    }

    pub open spec fn name(self) -> Seq<char> {
        match self {
            Sil::NoRequirement => "none"@,
            Sil::A => "a"@,
            Sil::Sil1 => "SIL1"@,
            Sil::Sil2 => "SIL2"@,
            Sil::Sil3 => "SIL3"@,
            Sil::Sil4 => "SIL4"@,
            Sil::B => "b"@,
        }
    }

    pub fn as_str(self) -> (r: &'static str)
        ensures
            r@ == self.name(),
    {
        match self {
            Sil::NoRequirement => "none",
            Sil::A => "a",
            Sil::Sil1 => "SIL1",
            Sil::Sil2 => "SIL2",
            Sil::Sil3 => "SIL3",
            Sil::Sil4 => "SIL4",
            Sil::B => "b",
        }
    }

    /// The SIL named by a calibration token, read case-insensitively after
    /// trimming: `1`..`4`, `SIL1`..`SIL4`, `a`, `b`, or `none`.
    pub open spec fn parse_spec(s: Seq<char>) -> Option<Sil> {
        let t = upper_seq(trim_seq(s));
        if t == "1"@ || t == "SIL1"@ {
            Some(Sil::Sil1)
        } else if t == "2"@ || t == "SIL2"@ {
            Some(Sil::Sil2)
        } else if t == "3"@ || t == "SIL3"@ {
            Some(Sil::Sil3)
        } else if t == "4"@ || t == "SIL4"@ {
            Some(Sil::Sil4)
        } else if t == "A"@ {
            Some(Sil::A)
        } else if t == "B"@ {
            Some(Sil::B)
        } else if t == "NONE"@ {
            Some(Sil::NoRequirement)
        } else {
            None
        }
    }

    pub fn parse(s: &str) -> (r: Option<Sil>)
        ensures
            r == Self::parse_spec(s@),
    {
        let cs = chars_of(s);
        let t = trim(&cs);
        let ts = crate::text::string_of(&t);
        let u = to_upper(ts.as_str());
        let us = u.as_str();
        if str_eq(us, "1") || str_eq(us, "SIL1") {
            Some(Sil::Sil1)
        } else if str_eq(us, "2") || str_eq(us, "SIL2") {
            Some(Sil::Sil2)
        } else if str_eq(us, "3") || str_eq(us, "SIL3") {
            Some(Sil::Sil3)
        } else if str_eq(us, "4") || str_eq(us, "SIL4") {
            Some(Sil::Sil4)
        } else if str_eq(us, "A") {
            Some(Sil::A)
        } else if str_eq(us, "B") {
            Some(Sil::B)
        } else if str_eq(us, "NONE") {
            Some(Sil::NoRequirement)
        } else {
            None
        }
    }
}

/// The more demanding of two optional levels (`None` is below every level).
pub open spec fn max_sil(a: Option<Sil>, b: Option<Sil>) -> Option<Sil> {
    match (a, b) {
        (None, _) => b,
        (_, None) => a,
        (Some(x), Some(y)) => if y.rank_of() >= x.rank_of() { b } else { a },
    }
}

pub fn max_sil_exec(a: Option<Sil>, b: Option<Sil>) -> (r: Option<Sil>)
    ensures
        r == max_sil(a, b),
{
    match (a, b) {
        (None, _) => b,
        (_, None) => a,
        (Some(x), Some(y)) => if y.rank() >= x.rank() { b } else { a },
    }
}

/// The three SILs of one risk-graph row, one per probability W3, W2, W1.
#[derive(Copy, Clone, Debug, PartialEq, Eq, Structural)]
pub struct CalibrationRow {
    pub w3: Sil,
    pub w2: Sil,
    pub w1: Sil,
}

impl CalibrationRow {
    pub open spec fn pick(self, w: Probability) -> Sil {
        match w {
            Probability::W3 => self.w3,
            Probability::W2 => self.w2,
            Probability::W1 => self.w1,
        }
    }
}

/// The IEC 61508-5 Annex D worked-example risk graph: the row of SILs for
/// the leaf (C, F, P). With consequence C_A the F and P parameters do not
/// branch.
pub open spec fn default_row(c: Consequence, f: Frequency, p: Avoidance) -> CalibrationRow {
    let x1 = CalibrationRow { w3: Sil::A, w2: Sil::NoRequirement, w1: Sil::NoRequirement };
    let x2 = CalibrationRow { w3: Sil::Sil1, w2: Sil::A, w1: Sil::NoRequirement };
    let x3 = CalibrationRow { w3: Sil::Sil2, w2: Sil::Sil1, w1: Sil::A };
    let x4 = CalibrationRow { w3: Sil::Sil3, w2: Sil::Sil2, w1: Sil::Sil1 };
    let x5 = CalibrationRow { w3: Sil::Sil4, w2: Sil::Sil3, w1: Sil::Sil2 };
    let x6 = CalibrationRow { w3: Sil::B, w2: Sil::Sil4, w1: Sil::Sil3 };
    match (c, f, p) {
        (Consequence::Ca, _, _) => x1,
        (Consequence::Cb, Frequency::Fa, Avoidance::Pa) => x2,
        (Consequence::Cb, Frequency::Fa, Avoidance::Pb) => x3,
        (Consequence::Cb, Frequency::Fb, Avoidance::Pa) => x3,
        (Consequence::Cb, Frequency::Fb, Avoidance::Pb) => x4,
        (Consequence::Cc, Frequency::Fa, Avoidance::Pa) => x4,
        (Consequence::Cc, Frequency::Fa, Avoidance::Pb) => x5,
        (Consequence::Cc, Frequency::Fb, Avoidance::Pa) => x5,
        (Consequence::Cc, Frequency::Fb, Avoidance::Pb) => x6,
        (Consequence::Cd, Frequency::Fa, Avoidance::Pa) => x5,
        (Consequence::Cd, _, _) => x6,
    }
}

pub fn default_row_exec(c: Consequence, f: Frequency, p: Avoidance) -> (r: CalibrationRow)
    ensures
        r == default_row(c, f, p),
{
    let x1 = CalibrationRow { w3: Sil::A, w2: Sil::NoRequirement, w1: Sil::NoRequirement };
    let x2 = CalibrationRow { w3: Sil::Sil1, w2: Sil::A, w1: Sil::NoRequirement };
    let x3 = CalibrationRow { w3: Sil::Sil2, w2: Sil::Sil1, w1: Sil::A };
    let x4 = CalibrationRow { w3: Sil::Sil3, w2: Sil::Sil2, w1: Sil::Sil1 };
    let x5 = CalibrationRow { w3: Sil::Sil4, w2: Sil::Sil3, w1: Sil::Sil2 };
    let x6 = CalibrationRow { w3: Sil::B, w2: Sil::Sil4, w1: Sil::Sil3 };
    match (c, f, p) {
        (Consequence::Ca, _, _) => x1,
        (Consequence::Cb, Frequency::Fa, Avoidance::Pa) => x2,
        (Consequence::Cb, Frequency::Fa, Avoidance::Pb) => x3,
        (Consequence::Cb, Frequency::Fb, Avoidance::Pa) => x3,
        (Consequence::Cb, Frequency::Fb, Avoidance::Pb) => x4,
        (Consequence::Cc, Frequency::Fa, Avoidance::Pa) => x4,
        (Consequence::Cc, Frequency::Fa, Avoidance::Pb) => x5,
        (Consequence::Cc, Frequency::Fb, Avoidance::Pa) => x5,
        (Consequence::Cc, Frequency::Fb, Avoidance::Pb) => x6,
        (Consequence::Cd, Frequency::Fa, Avoidance::Pa) => x5,
        (Consequence::Cd, _, _) => x6,
    }
}

/// The default risk graph never asks less of a riskier situation: raising
/// any of C, F, P or W never lowers the derived level.
pub proof fn lemma_default_graph_monotone(
    c1: Consequence, f1: Frequency, p1: Avoidance, w1: Probability,
    c2: Consequence, f2: Frequency, p2: Avoidance, w2: Probability,
)
    requires
        c1.level() <= c2.level(),
        f1.level() <= f2.level(),
        p1.level() <= p2.level(),
        w1.level() <= w2.level(),
    ensures
        default_row(c1, f1, p1).pick(w1).rank_of() <= default_row(c2, f2, p2).pick(w2).rank_of(),
{
}

/// The canonical name of a risk-graph leaf, `C_x/F_x/P_x`.
pub open spec fn leaf_name(c: Consequence, f: Frequency, p: Avoidance) -> Seq<char> {
    c.name() + "/"@ + f.name() + "/"@ + p.name()
}

/// The canonical name of a risk-graph leaf, `C_x/F_x/P_x`.
pub fn calibration_leaf(c: Consequence, f: Frequency, p: Avoidance) -> (r: String)
    ensures
        r@ == leaf_name(c, f, p),
{
    let mut s = String::new();
    s.append(c.as_str());
    s.append("/");
    s.append(f.as_str());
    s.append("/");
    s.append(p.as_str());
    s
}

/// A per-project override of one risk-graph leaf.
pub struct CalibrationEntry {
    pub leaf: String,
    pub row: CalibrationRow,
}

impl Keyed for CalibrationEntry {
    open spec fn key(&self) -> Seq<char> {
        self.leaf@
    }

    fn key_str(&self) -> (r: &str) {
        self.leaf.as_str()
    }
}


// ---------------------------------------------------------------------------
// Records
// ---------------------------------------------------------------------------

/// A typed link from one artifact to another, by id.
#[derive(Clone, Debug)]
pub struct Link {
    pub kind: LinkKind,
    pub target: String,
}

/// One entry of an artifact's append-only history.
#[derive(Clone, Debug)]
pub struct HistoryEntry {
    /// RFC 3339 timestamp.
    pub at: String,
    pub actor: String,
    pub actor_kind: ActorKind,
    pub action: String,
    pub reason: Option<String>,
    pub on_behalf_of: Option<String>,
}

/// A piece of verification evidence attached to a requirement.
#[derive(Clone, Debug)]
pub struct TestRecord {
    pub at: String,
    pub actor: String,
    /// The commit the evidence was recorded against (may be empty).
    pub commit: String,
    pub outcome: TestOutcome,
    pub notes: String,
    pub kind: EvidenceKind,
    pub content_hash: Option<String>,
    pub linked_files: Option<Vec<String>>,
    /// The evidence was accepted under an audited SIL-rigour exception.
    pub sil_gate_exception: bool,
    /// The inherited SIL at the time of verification (safety requirements).
    pub sil_at_verification: Option<Sil>,
    /// The external test system the evidence came from, if any.
    pub external: Option<ExternalSource>,
}

/// Where externally produced evidence came from.
#[derive(Clone, Debug)]
pub struct ExternalSource {
    pub system: String,
    pub environment: Option<String>,
    /// The verdict as the external system reported it.
    pub raw_verdict: Option<String>,
}

/// One recorded stage of a validation dossier (analysis, testing) or the
/// human confirmation of its result.
#[derive(Clone, Debug)]
pub struct ValidationActivity {
    pub summary: String,
    pub outcome: TestOutcome,
    pub references: Vec<String>,
    pub at: String,
    pub actor: String,
}

/// The staged validation dossier: plan, analysis, testing, statement and a
/// derived verdict.
#[derive(Clone, Debug)]
pub struct Validation {
    pub plan: String,
    pub actor: String,
    pub opened: String,
    pub opened_commit: String,
    pub analysis: Option<ValidationActivity>,
    pub testing: Option<ValidationActivity>,
    pub statement: Option<String>,
    pub verdict: Option<TestOutcome>,
    pub concluded: Option<String>,
    pub concluded_commit: Option<String>,
    /// The dossier records an audited waiver rather than a genuine validation.
    pub exempt: bool,
    pub exemption_kind: Option<ExemptionKind>,
    /// Hash of the linked source at conclude time (the staleness anchor).
    pub content_hash: Option<String>,
    pub linked_files: Option<Vec<String>>,
    pub human_confirmation: Option<ValidationActivity>,
}

/// The verdict the recorded stages support: pass only when analysis and
/// testing both passed; fail when both are recorded and either failed;
/// nothing while a stage is missing.
pub open spec fn derived_verdict(v: Validation) -> Option<TestOutcome> {
    match (v.analysis, v.testing) {
        (Some(a), Some(t)) => if a.outcome == TestOutcome::Pass && t.outcome == TestOutcome::Pass {
            Some(TestOutcome::Pass)
        } else {
            Some(TestOutcome::Fail)
        },
        _ => None,
    }
}

impl Validation {
    pub open spec fn concluded_spec(self) -> bool {
        self.verdict.is_some()
    }

    /// A waiver counts as passed; otherwise the verdict must be Pass.
    pub open spec fn passed_spec(self) -> bool {
        self.exempt || self.verdict == Some(TestOutcome::Pass)
    }

    /// A freshly opened dossier holding only its plan.
    pub fn opened(plan: String, actor: String, commit: String, now: String) -> (v: Validation)
        ensures
            v.plan == plan,
            v.actor == actor,
            v.opened_commit == commit,
            v.opened == now,
            v.analysis.is_none(),
            v.testing.is_none(),
            v.statement.is_none(),
            v.verdict.is_none(),
            v.concluded.is_none(),
            v.concluded_commit.is_none(),
            !v.exempt,
            v.exemption_kind.is_none(),
            v.content_hash.is_none(),
            v.linked_files.is_none(),
            v.human_confirmation.is_none(),
    {
        Validation {
            plan,
            actor,
            opened: now,
            opened_commit: commit,
            analysis: None,
            testing: None,
            statement: None,
            verdict: None,
            concluded: None,
            concluded_commit: None,
            exempt: false,
            exemption_kind: None,
            content_hash: None,
            linked_files: None,
            human_confirmation: None,
        }
    }

    /// Whether the dossier has reached a verdict.
    pub fn is_concluded(&self) -> (b: bool)
        ensures
            b == self.concluded_spec(),
    {
        self.verdict.is_some()
    }

    /// Whether the dossier counts as passed.
    pub fn passed(&self) -> (b: bool)
        ensures
            b == self.passed_spec(),
    {
        self.exempt || matches!(self.verdict, Some(TestOutcome::Pass))
    }

    /// The verdict the recorded stages support.
    pub fn derive_verdict(&self) -> (r: Option<TestOutcome>)
        ensures
            r == derived_verdict(*self),
    {
        match (&self.analysis, &self.testing) {
            (Some(a), Some(t)) => if matches!(a.outcome, TestOutcome::Pass) && matches!(t.outcome, TestOutcome::Pass) {
                Some(TestOutcome::Pass)
            } else {
                Some(TestOutcome::Fail)
            },
            _ => None,
        }
    }
}

/// A human's review of one safety requirement's chain during the guided
/// walkthrough.
#[derive(Clone, Debug)]
pub struct WalkthroughAck {
    pub reviewer: String,
    pub at: String,
    /// The commit the review was made at.
    pub commit: String,
    pub objected: bool,
    pub note: Option<String>,
}

/// An ordinary requirement.
#[derive(Clone, Debug)]
pub struct Requirement {
    pub id: String,
    pub title: String,
    pub statement: String,
    pub rationale: String,
    pub acceptance: Vec<String>,
    pub kind: Kind,
    pub priority: Priority,
    pub status: Status,
    pub tags: Vec<String>,
    pub links: Vec<Link>,
    pub tests: Vec<TestRecord>,
    pub validation: Option<Validation>,
    pub history: Vec<HistoryEntry>,
    pub created: String,
    pub updated: String,
}

impl Keyed for Requirement {
    open spec fn key(&self) -> Seq<char> {
        self.id@
    }

    fn key_str(&self) -> (r: &str) {
        self.id.as_str()
    }
}

/// A hazard (HAZ-NNNN) with its optional risk-graph parameters.
#[derive(Clone, Debug)]
pub struct Hazard {
    pub id: String,
    pub title: String,
    pub description: String,
    pub operating_context: String,
    pub harm: String,
    pub consequence: Option<Consequence>,
    pub frequency: Option<Frequency>,
    pub avoidance: Option<Avoidance>,
    pub probability: Option<Probability>,
    pub status: HazardStatus,
    pub tags: Vec<String>,
    pub links: Vec<Link>,
    pub history: Vec<HistoryEntry>,
    pub created: String,
    pub updated: String,
}

impl Keyed for Hazard {
    open spec fn key(&self) -> Seq<char> {
        self.id@
    }

    fn key_str(&self) -> (r: &str) {
        self.id.as_str()
    }
}

/// A safety function (SF-NNNN) that mitigates hazards.
#[derive(Clone, Debug)]
pub struct SafetyFunction {
    pub id: String,
    pub title: String,
    pub description: String,
    pub safe_state: String,
    pub status: SafetyFunctionStatus,
    pub tags: Vec<String>,
    pub links: Vec<Link>,
    /// The verification dossier showing the realizing requirements implement
    /// the function.
    pub validation: Option<Validation>,
    pub history: Vec<HistoryEntry>,
    pub created: String,
    pub updated: String,
}

impl Keyed for SafetyFunction {
    open spec fn key(&self) -> Seq<char> {
        self.id@
    }

    fn key_str(&self) -> (r: &str) {
        self.id.as_str()
    }
}

/// A safety requirement (SR-NNNN) that realizes safety functions.
#[derive(Clone, Debug)]
pub struct SafetyRequirement {
    pub id: String,
    pub title: String,
    pub statement: String,
    pub rationale: String,
    pub acceptance: Vec<String>,
    pub priority: Priority,
    pub status: Status,
    pub tags: Vec<String>,
    pub links: Vec<Link>,
    pub tests: Vec<TestRecord>,
    pub validation: Option<Validation>,
    pub walkthrough: Option<WalkthroughAck>,
    pub history: Vec<HistoryEntry>,
    pub created: String,
    pub updated: String,
}

impl Keyed for SafetyRequirement {
    open spec fn key(&self) -> Seq<char> {
        self.id@
    }

    fn key_str(&self) -> (r: &str) {
        self.id.as_str()
    }
}

/// A whole project: every artifact family keyed by id, plus the
/// risk-graph calibration.
pub struct Project {
    pub name: String,
    pub requirements: IdMap<Requirement>,
    pub hazards: IdMap<Hazard>,
    pub safety_functions: IdMap<SafetyFunction>,
    pub safety_requirements: IdMap<SafetyRequirement>,
    /// Leaf overrides of the default risk graph.
    pub calibration: IdMap<CalibrationEntry>,
    pub calibration_label: Option<String>,
    /// Overrides of the external-verdict mapping (raw verdict → `pass` or
    /// `fail`), by raw verdict.
    pub verdict_map: IdMap<VerdictMapping>,
    pub updated: String,
}

/// One override of the external-verdict mapping.
pub struct VerdictMapping {
    pub raw: String,
    pub local: String,
}

impl Keyed for VerdictMapping {
    open spec fn key(&self) -> Seq<char> {
        self.raw@
    }

    fn key_str(&self) -> (r: &str) {
        self.raw.as_str()
    }
}

/// The level a hazard requires: the risk graph's row for its leaf (the
/// project's override if it has one, else the default) picked by W; none
/// until all four parameters are set.
pub open spec fn required_sil_of(cal: Seq<CalibrationEntry>, h: Hazard) -> Option<Sil> {
    match (h.consequence, h.frequency, h.avoidance, h.probability) {
        (Some(c), Some(f), Some(p), Some(w)) => Some(
            match lookup(cal, leaf_name(c, f, p)) {
                Some(e) => e.row.pick(w),
                None => default_row(c, f, p).pick(w),
            },
        ),
        _ => None,
    }
}

impl Project {
    /// An empty project.
    pub fn new(name: String, now: String) -> (p: Project)
        ensures
            p.name == name,
            p.updated == now,
            p.requirements.view().len() == 0,
            p.hazards.view().len() == 0,
            p.safety_functions.view().len() == 0,
            p.safety_requirements.view().len() == 0,
            p.calibration.view().len() == 0,
            p.calibration_label.is_none(),
            p.verdict_map.view().len() == 0,
    {
        Project {
            name,
            requirements: IdMap::new(),
            hazards: IdMap::new(),
            safety_functions: IdMap::new(),
            safety_requirements: IdMap::new(),
            calibration: IdMap::new(),
            calibration_label: None,
            verdict_map: IdMap::new(),
            updated: now,
        }
    }

    pub open spec fn required_sil_spec(&self, h: Hazard) -> Option<Sil> {
        required_sil_of(self.calibration.view(), h)
    }

    /// The level hazard `h` requires under this project's calibration.
    pub fn required_sil(&self, h: &Hazard) -> (r: Option<Sil>)
        ensures
            r == self.required_sil_spec(*h),
    {
        match (h.consequence, h.frequency, h.avoidance, h.probability) {
            (Some(c), Some(f), Some(p), Some(w)) => {
                let leaf = calibration_leaf(c, f, p);
                let row = match self.calibration.get(leaf.as_str()) {
                    Some(e) => e.row,
                    None => default_row_exec(c, f, p),
                };
                Some(
                    match w {
                        Probability::W3 => row.w3,
                        Probability::W2 => row.w2,
                        Probability::W1 => row.w1,
                    },
                )
            },
            _ => None,
        }
    }

    /// The most demanding level among the hazards that the mitigates-links
    /// in `links` point at.
    pub open spec fn alloc_over(&self, links: Seq<Link>) -> Option<Sil>
        decreases links.len(),
    {
        if links.len() == 0 {
            None
        } else {
            let l = links.last();
            let here = if l.kind == LinkKind::Mitigates {
                match lookup(self.hazards.view(), l.target@) {
                    Some(h) => self.required_sil_spec(h),
                    None => None,
                }
            } else {
                None
            };
            max_sil(self.alloc_over(links.drop_last()), here)
        }
    }

    pub open spec fn allocated_sil_spec(&self, sf: SafetyFunction) -> Option<Sil> {
        self.alloc_over(sf.links@)
    }

    /// The level allocated to a safety function: the most demanding level
    /// required by a hazard it mitigates.
    pub fn allocated_sil(&self, sf: &SafetyFunction) -> (r: Option<Sil>)
        ensures
            r == self.allocated_sil_spec(*sf),
    {
        let mut acc: Option<Sil> = None;
        let mut i: usize = 0;
        while i < sf.links.len()
            invariant
                i <= sf.links@.len(),
                acc == self.alloc_over(sf.links@.subrange(0, i as int)),
            decreases sf.links@.len() - i,
        {
            let l = &sf.links[i];
            let here = if matches!(l.kind, LinkKind::Mitigates) {
                match self.hazards.get(l.target.as_str()) {
                    Some(h) => self.required_sil(h),
                    None => None,
                }
            } else {
                None
            };
            let ghost pre = sf.links@.subrange(0, i as int);
            let ghost nxt = sf.links@.subrange(0, i + 1);
            assert(nxt.drop_last() =~= pre);
            assert(nxt.last() == *l);
            acc = max_sil_exec(acc, here);
            i = i + 1;
        }
        assert(sf.links@.subrange(0, sf.links@.len() as int) =~= sf.links@);
        acc
    }

    /// The most demanding allocated level among the live (non-obsolete)
    /// safety functions that the realizes-links in `links` point at.
    pub open spec fn inherit_over(&self, links: Seq<Link>) -> Option<Sil>
        decreases links.len(),
    {
        if links.len() == 0 {
            None
        } else {
            let l = links.last();
            let here = if l.kind == LinkKind::Realizes {
                match lookup(self.safety_functions.view(), l.target@) {
                    Some(sf) => if sf.status != SafetyFunctionStatus::Obsolete {
                        self.allocated_sil_spec(sf)
                    } else {
                        None
                    },
                    None => None,
                }
            } else {
                None
            };
            max_sil(self.inherit_over(links.drop_last()), here)
        }
    }

    pub open spec fn inherited_sil_spec(&self, sr: SafetyRequirement) -> Option<Sil> {
        self.inherit_over(sr.links@)
    }

    /// The level a safety requirement inherits: the most demanding level
    /// allocated to a live safety function it realizes.
    pub fn inherited_sil(&self, sr: &SafetyRequirement) -> (r: Option<Sil>)
        ensures
            r == self.inherited_sil_spec(*sr),
    {
        let mut acc: Option<Sil> = None;
        let mut i: usize = 0;
        while i < sr.links.len()
            invariant
                i <= sr.links@.len(),
                acc == self.inherit_over(sr.links@.subrange(0, i as int)),
            decreases sr.links@.len() - i,
        {
            let l = &sr.links[i];
            let here = if matches!(l.kind, LinkKind::Realizes) {
                match self.safety_functions.get(l.target.as_str()) {
                    Some(sf) => if !matches!(sf.status, SafetyFunctionStatus::Obsolete) {
                        self.allocated_sil(sf)
                    } else {
                        None
                    },
                    None => None,
                }
            } else {
                None
            };
            let ghost pre = sr.links@.subrange(0, i as int);
            let ghost nxt = sr.links@.subrange(0, i + 1);
            assert(nxt.drop_last() =~= pre);
            assert(nxt.last() == *l);
            acc = max_sil_exec(acc, here);
            i = i + 1;
        }
        assert(sr.links@.subrange(0, sr.links@.len() as int) =~= sr.links@);
        acc
    }
}


// ---------------------------------------------------------------------------
// Who acts, when
// ---------------------------------------------------------------------------

/// Who is acting, when, and at which commit: gathered from the environment
/// (`REQ_ACTOR`, `REQ_ACTOR_KIND`, `REQ_ON_BEHALF_OF`), the clock and git by
/// the caller.
pub struct ActionContext {
    /// RFC 3339 timestamp of the action.
    pub now: String,
    pub actor: String,
    pub actor_kind: ActorKind,
    pub on_behalf_of: Option<String>,
    /// The current HEAD commit, when there is a git repository.
    pub head: Option<String>,
}

impl ActionContext {
    /// The commit to record: HEAD, or empty without git.
    pub open spec fn commit_view(&self) -> Seq<char> {
        match self.head {
            Some(h) => h@,
            None => Seq::empty(),
        }
    }
}

/// The commit to record for an action: HEAD, or empty without git.
pub fn commit_of(ctx: &ActionContext) -> (r: String)
    ensures
        r@ == ctx.commit_view(),
{
    match &ctx.head {
        Some(h) => h.clone(),
        None => String::new(),
    }
}

/// `e` is the history entry that records `action` (with `reason`) by the
/// context's actor at its time.
pub open spec fn entry_records(e: HistoryEntry, ctx: ActionContext, action: Seq<char>, reason: Option<Seq<char>>) -> bool {
    &&& e.at == ctx.now
    &&& e.actor == ctx.actor
    &&& e.actor_kind == ctx.actor_kind
    &&& e.on_behalf_of == ctx.on_behalf_of
    &&& e.action@ == action
    &&& match (e.reason, reason) {
        (Some(a), Some(b)) => a@ == b,
        (None, None) => true,
        _ => false,
    }
}

/// The history entry for `action`, with an optional reason, by the
/// context's actor at its time.
pub fn history(action: String, reason: Option<String>, ctx: &ActionContext) -> (e: HistoryEntry)
    ensures
        entry_records(e, *ctx, action@, match reason { Some(r) => Some(r@), None => None }),
        e.action == action,
        e.reason == reason,
{
    HistoryEntry {
        at: ctx.now.clone(),
        actor: ctx.actor.clone(),
        actor_kind: ctx.actor_kind,
        action,
        reason,
        on_behalf_of: crate::text::clone_opt(&ctx.on_behalf_of),
    }
}

} // verus!
