//! The contract with an external test system: the requirements due for
//! verification it is sent, and the results it sends back, ingested as
//! test records (with their verdicts mapped onto the local model, an
//! optional verification dossier, and never an automatic promotion of a
//! safety requirement).
use vstd::prelude::*;

use crate::errors::ReqError;
use crate::idmap::{has_key, keys_sorted, lemma_insert_lookup, lemma_replaced_lookup, lookup, replaced, IdMap, Keyed};
use crate::model::{
    entry_records, history, ActionContext, EvidenceKind, ExternalSource, Project, Requirement,
    SafetyRequirement, Sil, Status, TestOutcome, TestRecord, Validation, ValidationActivity,
};
use crate::text::{chars_of, clone_opt, clone_strings, lower_seq, str_eq, string_of, to_lower, trim, trim_seq, views};
use crate::validation::{resolve, resolve_spec, Family};

verus! {

/// The schema tag of the request payload.
pub const REQUEST_SCHEMA: &'static str = "req-test-request-v1";

/// The schema tag of the result payload; another version is refused.
pub const RESULT_SCHEMA: &'static str = "req-test-result-v1";

// ---------------------------------------------------------------------------
// Payloads
// ---------------------------------------------------------------------------

/// The requirements due for verification, sent to the test system.
pub struct RequestPayload {
    pub schema: String,
    pub commit: String,
    pub requirements: Vec<RequestItem>,
}

pub struct RequestItem {
    pub id: String,
    pub statement: String,
    pub acceptance: Vec<String>,
    /// The inherited SIL of a safety requirement.
    pub sil: Option<String>,
}

/// The results a test system sends back.
pub struct ResultPayload {
    pub schema: String,
    pub system: String,
    pub environment: Option<String>,
    pub commit: String,
    pub results: Vec<ResultItem>,
}

pub struct ResultItem {
    pub req_id: String,
    pub verdict: String,
    pub notes: Option<String>,
    pub evidence_kind: Option<String>,
    pub decision: Option<Decision>,
}

/// The test system's decision on a requirement, which populates its
/// verification dossier.
pub struct Decision {
    pub plan: String,
    pub analysis: Option<String>,
    pub statement: Option<String>,
}

/// What an ingest did.
pub struct IngestReport {
    pub attached: usize,
    pub skipped_duplicate: usize,
    pub promoted: Vec<String>,
    /// Safety requirements that were not promoted on external evidence.
    pub withheld_safety: Vec<String>,
}

// ---------------------------------------------------------------------------
// Verdict mapping
// ---------------------------------------------------------------------------

/// The built-in mapping of external verdicts: `pass` and
/// `operator_override` pass; `fail`, `error` and `bench_cap_suspected`
/// fail; anything else has no mapping.
pub open spec fn default_verdict_spec(raw: Seq<char>) -> Option<TestOutcome> {
    if raw == "pass"@ || raw == "operator_override"@ {
        Some(TestOutcome::Pass)
    } else if raw == "fail"@ || raw == "error"@ || raw == "bench_cap_suspected"@ {
        Some(TestOutcome::Fail)
    } else {
        None
    }
}

pub fn default_verdict(raw: &str) -> (r: Option<TestOutcome>)
    ensures
        r == default_verdict_spec(raw@),
{
    if str_eq(raw, "pass") || str_eq(raw, "operator_override") {
        Some(TestOutcome::Pass)
    } else if str_eq(raw, "fail") || str_eq(raw, "error") || str_eq(raw, "bench_cap_suspected") {
        Some(TestOutcome::Fail)
    } else {
        None
    }
}

/// Why an ingest is refused.
pub enum IngestFault {
    /// Another schema version.
    Schema(Seq<char>),
    NoCommit,
    NoSystem,
    /// A result for a requirement that does not exist (as typed).
    Unknown(Seq<char>),
    /// A configured mapping to something other than pass or fail (raw
    /// verdict, the mapping lowercased).
    BadMapping(Seq<char>, Seq<char>),
    /// A verdict with no mapping.
    Unmapped(Seq<char>),
    /// A decision for a dossier concluded at another commit (id, the
    /// payload's commit, the dossier's).
    Mismatch(Seq<char>, Seq<char>, Seq<char>),
}

pub open spec fn fault_is(e: ReqError, f: IngestFault) -> bool {
    match f {
        IngestFault::Schema(s) => e matches ReqError::UnsupportedSchema { schema } && schema@ == s,
        IngestFault::NoCommit => e matches ReqError::MissingCommit,
        IngestFault::NoSystem => e matches ReqError::MissingSystem,
        IngestFault::Unknown(raw) => e matches ReqError::UnknownResultRequirement { raw: x } && x@ == raw,
        IngestFault::BadMapping(raw, local) => e matches ReqError::BadVerdictMapping { raw: x, local: y } && x@ == raw && y@ == local,
        IngestFault::Unmapped(raw) => e matches ReqError::UnmappedVerdict { raw: x } && x@ == raw,
        IngestFault::Mismatch(id, c, cc) => e matches ReqError::DecisionMismatch { id: x, commit: y, anchored: z }
            && x@ == id && y@ == c && z@ == cc,
    }
}

/// What an external verdict comes to here: the project's own mapping
/// (`pass` or `fail`, case-insensitive) first, then the built-in one; never
/// a default to pass.
pub open spec fn verdict_spec(p: Project, raw: Seq<char>) -> Result<TestOutcome, IngestFault> {
    match lookup(p.verdict_map.view(), raw) {
        Some(m) => {
            let l = lower_seq(m.local@);
            if l == "pass"@ {
                Ok(TestOutcome::Pass)
            } else if l == "fail"@ {
                Ok(TestOutcome::Fail)
            } else {
                Err(IngestFault::BadMapping(raw, l))
            }
        },
        None => match default_verdict_spec(raw) {
            Some(o) => Ok(o),
            None => Err(IngestFault::Unmapped(raw)),
        },
    }
}

/// Resolve an external verdict to a local outcome.
pub fn resolve_verdict(project: &Project, raw: &str) -> (r: Result<TestOutcome, ReqError>)
    ensures
        match verdict_spec(*project, raw@) {
            Ok(o) => r is Ok && r->Ok_0 == o,
            Err(f) => r is Err && fault_is(r->Err_0, f),
        },
{
    match project.verdict_map.get(raw) {
        Some(m) => {
            let l = to_lower(m.local.as_str());
            if str_eq(l.as_str(), "pass") {
                Ok(TestOutcome::Pass)
            } else if str_eq(l.as_str(), "fail") {
                Ok(TestOutcome::Fail)
            } else {
                Err(ReqError::BadVerdictMapping { raw: string_of(&chars_of(raw)), local: l })
            }
        },
        None => match default_verdict(raw) {
            Some(o) => Ok(o),
            None => Err(ReqError::UnmappedVerdict { raw: string_of(&chars_of(raw)) }),
        },
    }
}

// ---------------------------------------------------------------------------
// The request: what is due for verification
// ---------------------------------------------------------------------------

/// Due for verification: past Draft, not yet Verified, still active.
pub open spec fn due(s: Status) -> bool {
    s == Status::Approved || s == Status::Implemented
}

pub open spec fn due_reqs(rs: Seq<Requirement>) -> Seq<Requirement>
    decreases rs.len(),
{
    if rs.len() == 0 {
        Seq::empty()
    } else {
        let rest = due_reqs(rs.drop_last());
        if due(rs.last().status) { rest.push(rs.last()) } else { rest }
    }
}

pub open spec fn due_srs(rs: Seq<SafetyRequirement>) -> Seq<SafetyRequirement>
    decreases rs.len(),
{
    if rs.len() == 0 {
        Seq::empty()
    } else {
        let rest = due_srs(rs.drop_last());
        if due(rs.last().status) { rest.push(rs.last()) } else { rest }
    }
}

/// `item` announces requirement `r`.
pub open spec fn req_item(item: RequestItem, r: Requirement) -> bool {
    item.id == r.id && item.statement == r.statement && item.acceptance@ == r.acceptance@ && item.sil is None
}

/// `item` announces safety requirement `r`, with its inherited SIL.
pub open spec fn sr_item(item: RequestItem, p: Project, r: SafetyRequirement) -> bool {
    &&& item.id == r.id && item.statement == r.statement && item.acceptance@ == r.acceptance@
    &&& match p.inherited_sil_spec(r) {
        Some(s) => item.sil matches Some(x) && x@ == s.name(),
        None => item.sil is None,
    }
}

/// The request payload at `commit`: every requirement and safety
/// requirement that is Approved or Implemented, requirements first, each
/// family in id order.
pub fn build_request(project: &Project, commit: &str) -> (r: RequestPayload)
    ensures
        r.schema@ == REQUEST_SCHEMA@,
        r.commit@ == commit@,
        r.requirements@.len() == due_reqs(project.requirements.view()).len() + due_srs(project.safety_requirements.view()).len(),
        forall|i: int| 0 <= i < due_reqs(project.requirements.view()).len()
            ==> req_item(#[trigger] r.requirements@[i], due_reqs(project.requirements.view())[i]),
        forall|i: int| 0 <= i < due_srs(project.safety_requirements.view()).len()
            ==> sr_item(#[trigger] r.requirements@[due_reqs(project.requirements.view()).len() + i], *project,
                due_srs(project.safety_requirements.view())[i]),
{
    let mut items: Vec<RequestItem> = Vec::new();
    let ghost s = project.requirements.view();
    let n = project.requirements.len();
    let mut i: usize = 0;
    while i < n
        invariant
            n == s.len(),
            s == project.requirements.view(),
            i <= n,
            items@.len() == due_reqs(s.take(i as int)).len(),
            forall|k: int| 0 <= k < items@.len() ==> req_item(#[trigger] items@[k], due_reqs(s.take(i as int))[k]),
        decreases n - i,
    {
        assert(s.take(i + 1).drop_last() =~= s.take(i as int));
        assert(s.take(i + 1).last() == s[i as int]);
        let r = project.requirements.at(i);
        if matches!(r.status, Status::Approved) || matches!(r.status, Status::Implemented) {
            items.push(RequestItem {
                id: r.id.clone(),
                statement: r.statement.clone(),
                acceptance: clone_strings(&r.acceptance),
                sil: None,
            });
        }
        i = i + 1;
    }
    assert(s.take(n as int) =~= s);
    let base = items.len();
    let ghost t = project.safety_requirements.view();
    let m = project.safety_requirements.len();
    let mut j: usize = 0;
    while j < m
        invariant
            m == t.len(),
            t == project.safety_requirements.view(),
            j <= m,
            base == due_reqs(s).len(),
            s == project.requirements.view(),
            items@.len() == base + due_srs(t.take(j as int)).len(),
            forall|k: int| 0 <= k < base ==> req_item(#[trigger] items@[k], due_reqs(s)[k]),
            forall|k: int| 0 <= k < due_srs(t.take(j as int)).len() ==> sr_item(#[trigger] items@[base + k], *project, due_srs(t.take(j as int))[k]),
        decreases m - j,
    {
        assert(t.take(j + 1).drop_last() =~= t.take(j as int));
        assert(t.take(j + 1).last() == t[j as int]);
        let r = project.safety_requirements.at(j);
        if matches!(r.status, Status::Approved) || matches!(r.status, Status::Implemented) {
            let sil = match project.inherited_sil(r) {
                Some(x) => Some(string_of(&chars_of(x.as_str()))),
                None => None,
            };
            items.push(RequestItem {
                id: r.id.clone(),
                statement: r.statement.clone(),
                acceptance: clone_strings(&r.acceptance),
                sil,
            });
        }
        j = j + 1;
    }
    assert(t.take(m as int) =~= t);
    RequestPayload { schema: string_of(&chars_of(REQUEST_SCHEMA)), commit: string_of(&chars_of(commit)), requirements: items }
}

// ---------------------------------------------------------------------------
// Preflight: the whole payload is checked before anything changes
// ---------------------------------------------------------------------------

/// The dossier of the requirement a resolved id names.
pub open spec fn dossier_at(p: Project, id: Seq<char>, fam: Family) -> Option<Validation> {
    match fam {
        Family::Req => lookup(p.requirements.view(), id).unwrap().validation,
        Family::Sr => lookup(p.safety_requirements.view(), id).unwrap().validation,
    }
}

/// Why one result is refused, if it is.
pub open spec fn item_fault(p: Project, commit: Seq<char>, it: ResultItem) -> Option<IngestFault> {
    match resolve_spec(p, it.req_id@) {
        None => Some(IngestFault::Unknown(it.req_id@)),
        Some((id, fam)) => match verdict_spec(p, it.verdict@) {
            Err(f) => Some(f),
            Ok(_) => match dossier_at(p, id, fam) {
                Some(v) => match v.concluded_commit {
                    Some(cc) => if it.decision is Some && cc@ != commit {
                        Some(IngestFault::Mismatch(id, commit, cc@))
                    } else {
                        None
                    },
                    None => None,
                },
                None => None,
            },
        },
    }
}

/// The first refused result, if any.
pub open spec fn items_fault(p: Project, commit: Seq<char>, items: Seq<ResultItem>) -> Option<IngestFault>
    decreases items.len(),
{
    if items.len() == 0 {
        None
    } else {
        match item_fault(p, commit, items[0]) {
            Some(f) => Some(f),
            None => items_fault(p, commit, items.drop_first()),
        }
    }
}

/// Why the payload is refused, if it is: another schema, a blank commit or
/// system, or the first refused result.
pub open spec fn preflight_spec(p: Project, payload: ResultPayload) -> Option<IngestFault> {
    if payload.schema@ != RESULT_SCHEMA@ {
        Some(IngestFault::Schema(payload.schema@))
    } else if trim_seq(payload.commit@).len() == 0 {
        Some(IngestFault::NoCommit)
    } else if trim_seq(payload.system@).len() == 0 {
        Some(IngestFault::NoSystem)
    } else {
        items_fault(p, payload.commit@, payload.results@)
    }
}

fn check_item(project: &Project, commit: &str, it: &ResultItem) -> (r: Result<(), ReqError>)
    ensures
        match item_fault(*project, commit@, *it) {
            Some(f) => r is Err && fault_is(r->Err_0, f),
            None => r is Ok,
        },
{
    let (id, fam) = match resolve(project, it.req_id.as_str()) {
        Ok(x) => x,
        Err(_) => return Err(ReqError::UnknownResultRequirement { raw: it.req_id.clone() }),
    };
    match resolve_verdict(project, it.verdict.as_str()) {
        Ok(_) => {},
        Err(e) => return Err(e),
    }
    if it.decision.is_some() {
        let existing: Option<&Validation> = match fam {
            Family::Req => match project.requirements.get(id.as_str()) {
                Some(r) => match &r.validation {
                    Some(v) => Some(v),
                    None => None,
                },
                None => None,
            },
            Family::Sr => match project.safety_requirements.get(id.as_str()) {
                Some(r) => match &r.validation {
                    Some(v) => Some(v),
                    None => None,
                },
                None => None,
            },
        };
        match existing {
            Some(v) => match &v.concluded_commit {
                Some(cc) => if !str_eq(cc.as_str(), commit) {
                    return Err(ReqError::DecisionMismatch { id, commit: string_of(&chars_of(commit)), anchored: cc.clone() });
                },
                None => {},
            },
            None => {},
        }
    }
    Ok(())
}

/// Check the whole payload before any change, so that a malformed or
/// partly unknown payload leaves the project as it was.
pub fn preflight(project: &Project, payload: &ResultPayload) -> (r: Result<(), ReqError>)
    ensures
        match preflight_spec(*project, *payload) {
            Some(f) => r is Err && fault_is(r->Err_0, f),
            None => r is Ok,
        },
{
    if !str_eq(payload.schema.as_str(), RESULT_SCHEMA) {
        return Err(ReqError::UnsupportedSchema { schema: payload.schema.clone() });
    }
    let cv = chars_of(payload.commit.as_str());
    if trim(&cv).len() == 0 {
        return Err(ReqError::MissingCommit);
    }
    let sv = chars_of(payload.system.as_str());
    if trim(&sv).len() == 0 {
        return Err(ReqError::MissingSystem);
    }
    let ghost items = payload.results@;
    let mut i: usize = 0;
    assert(items.skip(0) =~= items);
    while i < payload.results.len()
        invariant
            i <= items.len(),
            items == payload.results@,
            preflight_spec(*project, *payload) == items_fault(*project, payload.commit@, items),
            items_fault(*project, payload.commit@, items) == items_fault(*project, payload.commit@, items.skip(i as int)),
        decreases items.len() - i,
    {
        assert(items.skip(i as int)[0] == items[i as int]);
        assert(items.skip(i as int).drop_first() =~= items.skip(i + 1));
        match check_item(project, payload.commit.as_str(), &payload.results[i]) {
            Ok(()) => {},
            Err(e) => return Err(e),
        }
        i = i + 1;
    }
    Ok(())
}

// ---------------------------------------------------------------------------
// Ingest
// ---------------------------------------------------------------------------

/// The evidence kind a result names: composition or inspection, else
/// automated.
pub open spec fn kind_spec(k: Option<String>) -> EvidenceKind {
    match k {
        Some(s) => if s@ == "composition"@ {
            EvidenceKind::Composition
        } else if s@ == "inspection"@ {
            EvidenceKind::Inspection
        } else {
            EvidenceKind::Automated
        },
        None => EvidenceKind::Automated,
    }
}

/// `t` is the record ingesting `it` makes.
pub open spec fn record_of(t: TestRecord, it: ResultItem, payload: ResultPayload, outcome: TestOutcome, ctx: ActionContext) -> bool {
    &&& t.at == ctx.now && t.actor == ctx.actor && t.commit == payload.commit && t.outcome == outcome
    &&& t.notes@ == match it.notes { Some(n) => n@, None => Seq::empty() }
    &&& t.kind == kind_spec(it.evidence_kind)
    &&& t.content_hash is None && t.linked_files is None && !t.sil_gate_exception && t.sil_at_verification is None
    &&& t.external == Some(ExternalSource { system: payload.system, environment: payload.environment, raw_verdict: Some(it.verdict) })
}

/// `v` is the dossier the decision `d` on `it` populates: opened by the
/// system at the payload's commit, its analysis (when given) and testing
/// carrying the outcome, concluded with it at that commit.
pub open spec fn dossier_of(v: Validation, it: ResultItem, d: Decision, payload: ResultPayload, outcome: TestOutcome, ctx: ActionContext) -> bool {
    &&& v.plan == d.plan && v.actor == payload.system && v.opened == ctx.now && v.opened_commit == payload.commit
    &&& match d.analysis {
        Some(a) => v.analysis matches Some(x) && x.summary == a && x.outcome == outcome && x.references@.len() == 0
            && x.at == ctx.now && x.actor == payload.system,
        None => v.analysis is None,
    }
    &&& v.testing matches Some(x) && x.outcome == outcome && x.references@.len() == 0 && x.at == ctx.now && x.actor == payload.system
        && x.summary@ == match it.notes { Some(n) => n@, None => "external bench result"@ }
    &&& v.statement == d.statement && v.verdict == Some(outcome) && v.concluded == Some(ctx.now)
    &&& v.concluded_commit == Some(payload.commit)
    &&& !v.exempt && v.exemption_kind is None && v.content_hash is None && v.linked_files is None && v.human_confirmation is None
}

/// `tests` already hold the evidence ingesting `it` would make: same
/// commit, outcome, system and raw verdict.
pub open spec fn dup_spec(tests: Seq<TestRecord>, it: ResultItem, payload: ResultPayload, outcome: TestOutcome) -> bool {
    exists|j: int| 0 <= j < tests.len() && (#[trigger] tests[j]).commit@ == payload.commit@ && tests[j].outcome == outcome
        && ext_matches(tests[j].external, payload.system@, it.verdict@)
}

/// The evidence came from `system` with raw verdict `raw`.
pub open spec fn ext_matches(ext: Option<ExternalSource>, system: Seq<char>, raw: Seq<char>) -> bool {
    match ext {
        Some(e) => e.system@ == system && match e.raw_verdict {
            Some(rv) => rv@ == raw,
            None => false,
        },
        None => false,
    }
}

/// A dossier is present and passed.
pub open spec fn passed_opt(v: Option<Validation>) -> bool {
    match v {
        Some(x) => x.passed_spec(),
        None => false,
    }
}

/// The history entries one ingest appends (after `start` of them), and the
/// promotion entry when there is one.
pub open spec fn ingest_history(old_h: Seq<crate::model::HistoryEntry>, new_h: Seq<crate::model::HistoryEntry>, it: ResultItem, up: bool, ctx: ActionContext) -> bool {
    &&& new_h.len() == old_h.len() + if up { 2int } else { 1int }
    &&& new_h.take(old_h.len() as int) == old_h
    &&& entry_records(new_h[old_h.len() as int], ctx, "external evidence ingested"@, match it.notes { Some(n) => Some(n@), None => None })
    &&& up ==> entry_records(new_h.last(), ctx, "promoted to verified (external dossier)"@, None)
}

pub open spec fn dossier_after(old_v: Option<Validation>, new_v: Option<Validation>, it: ResultItem, payload: ResultPayload, outcome: TestOutcome, ctx: ActionContext) -> bool {
    match it.decision {
        Some(d) => new_v matches Some(v) && dossier_of(v, it, d, payload, outcome, ctx),
        None => new_v == old_v,
    }
}

/// One result ingested into project `s`, giving `s2`: skipped when the
/// requirement already holds the same evidence; otherwise the record (and
/// dossier) attached, and an ordinary requirement at Implemented promoted
/// when promotion is asked for, the outcome is a pass and its dossier is
/// passed; a safety requirement is never promoted (`held` when promotion
/// was asked for).
pub open spec fn ingest_step(s: Project, s2: Project, it: ResultItem, payload: ResultPayload, promote: bool, ctx: ActionContext,
    att: bool, up: bool, held: bool) -> bool {
    let (id, fam) = resolve_spec(s, it.req_id@).unwrap();
    let outcome = verdict_spec(s, it.verdict@)->Ok_0;
    match fam {
        Family::Req => {
            let o = lookup(s.requirements.view(), id).unwrap();
            if dup_spec(o.tests@, it, payload, outcome) {
                s2 == s && !att && !up && !held
            } else {
                let n = lookup(s2.requirements.view(), id).unwrap();
                &&& att && !held
                &&& has_key(s2.requirements.view(), id)
                &&& replaced(s.requirements.view(), s2.requirements.view(), n)
                &&& s2 == Project { requirements: s2.requirements, ..s }
                &&& n.tests@.len() == o.tests@.len() + 1 && n.tests@.drop_last() == o.tests@
                &&& record_of(n.tests@.last(), it, payload, outcome, ctx)
                &&& dossier_after(o.validation, n.validation, it, payload, outcome, ctx)
                &&& up == (promote && outcome == TestOutcome::Pass && o.status == Status::Implemented
                    && passed_opt(n.validation))
                &&& n == Requirement { tests: n.tests, validation: n.validation, updated: ctx.now, history: n.history,
                    status: if up { Status::Verified } else { o.status }, ..o }
                &&& ingest_history(o.history@, n.history@, it, up, ctx)
            }
        },
        Family::Sr => {
            let o = lookup(s.safety_requirements.view(), id).unwrap();
            if dup_spec(o.tests@, it, payload, outcome) {
                s2 == s && !att && !up && !held
            } else {
                let n = lookup(s2.safety_requirements.view(), id).unwrap();
                &&& att && !up && held == promote
                &&& has_key(s2.safety_requirements.view(), id)
                &&& replaced(s.safety_requirements.view(), s2.safety_requirements.view(), n)
                &&& s2 == Project { safety_requirements: s2.safety_requirements, ..s }
                &&& n.tests@.len() == o.tests@.len() + 1 && n.tests@.drop_last() == o.tests@
                &&& record_of(n.tests@.last(), it, payload, outcome, ctx)
                &&& dossier_after(o.validation, n.validation, it, payload, outcome, ctx)
                &&& n == SafetyRequirement { tests: n.tests, validation: n.validation, updated: ctx.now, history: n.history, ..o }
                &&& ingest_history(o.history@, n.history@, it, false, ctx)
            }
        },
    }
}

fn is_dup(tests: &Vec<TestRecord>, it: &ResultItem, payload: &ResultPayload, outcome: TestOutcome) -> (b: bool)
    ensures
        b == dup_spec(tests@, *it, *payload, outcome),
{
    let mut j: usize = 0;
    while j < tests.len()
        invariant
            j <= tests@.len(),
            forall|q: int| 0 <= q < j ==> !((#[trigger] tests@[q]).commit@ == payload.commit@ && tests@[q].outcome == outcome
                && ext_matches(tests@[q].external, payload.system@, it.verdict@)),
        decreases tests@.len() - j,
    {
        let t = &tests[j];
        if str_eq(t.commit.as_str(), payload.commit.as_str()) && t.outcome == outcome {
            match &t.external {
                Some(e) => if str_eq(e.system.as_str(), payload.system.as_str()) {
                    match &e.raw_verdict {
                        Some(rv) => if str_eq(rv.as_str(), it.verdict.as_str()) {
                            return true;
                        },
                        None => {},
                    }
                },
                None => {},
            }
        }
        j = j + 1;
    }
    false
}

fn make_record(it: &ResultItem, payload: &ResultPayload, outcome: TestOutcome, ctx: &ActionContext) -> (t: TestRecord)
    ensures
        record_of(t, *it, *payload, outcome, *ctx),
{
    let kind = match &it.evidence_kind {
        Some(k) => if str_eq(k.as_str(), "composition") {
            EvidenceKind::Composition
        } else if str_eq(k.as_str(), "inspection") {
            EvidenceKind::Inspection
        } else {
            EvidenceKind::Automated
        },
        None => EvidenceKind::Automated,
    };
    let notes = match &it.notes {
        Some(n) => n.clone(),
        None => String::new(),
    };
    TestRecord {
        at: ctx.now.clone(),
        actor: ctx.actor.clone(),
        commit: payload.commit.clone(),
        outcome,
        notes,
        kind,
        content_hash: None,
        linked_files: None,
        sil_gate_exception: false,
        sil_at_verification: None,
        external: Some(ExternalSource {
            system: payload.system.clone(),
            environment: clone_opt(&payload.environment),
            raw_verdict: Some(it.verdict.clone()),
        }),
    }
}

fn make_dossier(it: &ResultItem, d: &Decision, payload: &ResultPayload, outcome: TestOutcome, ctx: &ActionContext) -> (v: Validation)
    ensures
        dossier_of(v, *it, *d, *payload, outcome, *ctx),
{
    let mut v = Validation::opened(d.plan.clone(), payload.system.clone(), payload.commit.clone(), ctx.now.clone());
    match &d.analysis {
        Some(a) => v.analysis = Some(ValidationActivity {
            summary: a.clone(),
            outcome,
            references: Vec::new(),
            at: ctx.now.clone(),
            actor: payload.system.clone(),
        }),
        None => {},
    }
    let summary = match &it.notes {
        Some(n) => n.clone(),
        None => string_of(&chars_of("external bench result")),
    };
    v.testing = Some(ValidationActivity {
        summary,
        outcome,
        references: Vec::new(),
        at: ctx.now.clone(),
        actor: payload.system.clone(),
    });
    v.statement = clone_opt(&d.statement);
    v.verdict = Some(outcome);
    v.concluded = Some(ctx.now.clone());
    v.concluded_commit = Some(payload.commit.clone());
    v
}

/// The requirements' id sets stay as they are.
pub open spec fn same_keys(a: Project, b: Project) -> bool {
    &&& forall|k: Seq<char>| #[trigger] has_key(b.requirements.view(), k) == has_key(a.requirements.view(), k)
    &&& forall|k: Seq<char>| #[trigger] has_key(b.safety_requirements.view(), k) == has_key(a.safety_requirements.view(), k)
    &&& b.verdict_map == a.verdict_map
}

proof fn lemma_same_keys_resolve(a: Project, b: Project, raw: Seq<char>)
    requires
        same_keys(a, b),
    ensures
        resolve_spec(b, raw) == resolve_spec(a, raw),
        verdict_spec(b, raw) == verdict_spec(a, raw),
{
}

fn ingest_one(project: &mut Project, it: &ResultItem, payload: &ResultPayload, promote: bool, ctx: &ActionContext) -> (r: (bool, bool, bool, String))
    requires
        resolve_spec(*old(project), it.req_id@) is Some,
        verdict_spec(*old(project), it.verdict@) is Ok,
    ensures
        ingest_step(*old(project), *final(project), *it, *payload, promote, *ctx, r.0, r.1, r.2),
        r.3@ == resolve_spec(*old(project), it.req_id@).unwrap().0,
        same_keys(*old(project), *final(project)),
{
    let (id, fam) = resolve(project, it.req_id.as_str()).unwrap();
    let outcome = resolve_verdict(project, it.verdict.as_str()).unwrap();
    let ghost p0 = *project;
    match fam {
        Family::Req => {
            let dup = is_dup(&project.requirements.get(id.as_str()).unwrap().tests, it, payload, outcome);
            if dup {
                return (false, false, false, id);
            }
            let record = make_record(it, payload, outcome, ctx);
            let e = history(string_of(&chars_of("external evidence ingested")), clone_opt(&it.notes), ctx);
            let ghost before = project.requirements.view();
            let _ = project.requirements.len();
            let mut r = project.requirements.remove(id.as_str()).unwrap();
            let ghost o = r;
            r.tests.push(record);
            match &it.decision {
                Some(d) => r.validation = Some(make_dossier(it, d, payload, outcome, ctx)),
                None => {},
            }
            r.updated = ctx.now.clone();
            r.history.push(e);
            assert(r.tests@.drop_last() =~= o.tests@);
            assert(r.history@.take(o.history@.len() as int) =~= o.history@);
            let passed = match &r.validation {
                Some(v) => v.passed(),
                None => false,
            };
            let mut up = false;
            if promote && matches!(outcome, TestOutcome::Pass) && matches!(r.status, Status::Implemented) && passed {
                let e2 = history(string_of(&chars_of("promoted to verified (external dossier)")), None, ctx);
                r.status = Status::Verified;
                let ghost h1 = r.history@;
                r.history.push(e2);
                assert(r.history@.take(o.history@.len() as int) =~= o.history@);
                assert(r.history@[o.history@.len() as int] == h1[o.history@.len() as int]);
                up = true;
            }
            let ghost rv = r;
            project.requirements.insert(r);
            let _ = project.requirements.len();
            proof {
                assert(replaced(before, project.requirements.view(), rv)) by {
                    assert(has_key(before, id@));
                }
                assert forall|k: Seq<char>| #[trigger] has_key(project.requirements.view(), k) == has_key(p0.requirements.view(), k) by {
                    if k != id@ {
                        lemma_insert_lookup(before, project.requirements.view(), rv, k);
                    }
                }
            }
            (true, up, false, id)
        },
        Family::Sr => {
            let dup = is_dup(&project.safety_requirements.get(id.as_str()).unwrap().tests, it, payload, outcome);
            if dup {
                return (false, false, false, id);
            }
            let record = make_record(it, payload, outcome, ctx);
            let e = history(string_of(&chars_of("external evidence ingested")), clone_opt(&it.notes), ctx);
            let ghost before = project.safety_requirements.view();
            let _ = project.safety_requirements.len();
            let mut r = project.safety_requirements.remove(id.as_str()).unwrap();
            let ghost o = r;
            r.tests.push(record);
            match &it.decision {
                Some(d) => r.validation = Some(make_dossier(it, d, payload, outcome, ctx)),
                None => {},
            }
            r.updated = ctx.now.clone();
            r.history.push(e);
            assert(r.tests@.drop_last() =~= o.tests@);
            assert(r.history@.take(o.history@.len() as int) =~= o.history@);
            let ghost rv = r;
            project.safety_requirements.insert(r);
            let _ = project.safety_requirements.len();
            proof {
                assert(replaced(before, project.safety_requirements.view(), rv)) by {
                    assert(has_key(before, id@));
                }
                assert forall|k: Seq<char>| #[trigger] has_key(project.safety_requirements.view(), k) == has_key(p0.safety_requirements.view(), k) by {
                    if k != id@ {
                        lemma_insert_lookup(before, project.safety_requirements.view(), rv, k);
                    }
                }
            }
            (true, false, promote, id)
        },
    }
}

/// The requirement and safety-requirement maps of `p` are in id order with
/// no id twice, as every `IdMap` keeps them.
pub open spec fn maps_sorted(p: Project) -> bool {
    keys_sorted(p.requirements.view()) && keys_sorted(p.safety_requirements.view())
}

/// The results `items` ingested in turn through the projects `states`,
/// with each step's (attached, promoted, withheld) flags.
pub open spec fn ingest_run(states: Seq<Project>, flags: Seq<(bool, bool, bool)>, items: Seq<ResultItem>, payload: ResultPayload,
    promote: bool, ctx: ActionContext) -> bool {
    &&& states.len() == items.len() + 1 && flags.len() == items.len()
    &&& forall|i: int| 0 <= i < states.len() ==> maps_sorted(#[trigger] states[i])
    &&& forall|i: int| 0 <= i < items.len() ==> ingest_step(#[trigger] states[i], states[i + 1], items[i], payload, promote, ctx,
        flags[i].0, flags[i].1, flags[i].2)
}

/// How many steps attached evidence.
pub open spec fn count_attached(flags: Seq<(bool, bool, bool)>) -> nat
    decreases flags.len(),
{
    if flags.len() == 0 {
        0
    } else {
        count_attached(flags.drop_last()) + if flags.last().0 { 1nat } else { 0nat }
    }
}

/// The requirement ids of the steps whose flag `which` (1: promoted,
/// 2: withheld) is set, in order.
pub open spec fn flagged_ids(p: Project, items: Seq<ResultItem>, flags: Seq<(bool, bool, bool)>, which: int) -> Seq<Seq<char>>
    decreases flags.len(),
{
    if flags.len() == 0 || items.len() < flags.len() {
        Seq::empty()
    } else {
        let rest = flags.drop_last();
        let i = flags.len() - 1;
        let set = if which == 1 { flags.last().1 } else { flags.last().2 };
        let pre = flagged_ids(p, items, rest, which);
        if set { pre.push(resolve_spec(p, items[i].req_id@).unwrap().0) } else { pre }
    }
}

proof fn lemma_items_ok(p: Project, c: Seq<char>, items: Seq<ResultItem>, i: int)
    requires
        items_fault(p, c, items) is None,
        0 <= i < items.len(),
    ensures
        item_fault(p, c, items[i]) is None,
    decreases i,
{
    if i > 0 {
        assert(items.drop_first()[i - 1] == items[i]);
        lemma_items_ok(p, c, items.drop_first(), i - 1);
    }
}

/// Ingest a result payload (`req test ingest` / `req test pull`): check it
/// whole first, then attach each result in turn as a test record on its
/// requirement, skipping evidence the requirement already holds, and
/// report what was attached, skipped, promoted and withheld.
pub fn ingest_payload(project: &mut Project, payload: &ResultPayload, promote: bool, ctx: &ActionContext) -> (r: Result<IngestReport, ReqError>)
    ensures
        match preflight_spec(*old(project), *payload) {
            Some(f) => r is Err && fault_is(r->Err_0, f) && *final(project) == *old(project),
            None => r is Ok && exists|states: Seq<Project>, flags: Seq<(bool, bool, bool)>|
                #![trigger ingest_run(states, flags, payload.results@, *payload, promote, *ctx)]
                ingest_run(states, flags, payload.results@, *payload, promote, *ctx)
                && states[0] == *old(project) && states.last() == *final(project)
                && r->Ok_0.attached == count_attached(flags)
                && r->Ok_0.skipped_duplicate == payload.results@.len() - count_attached(flags)
                && views(r->Ok_0.promoted@) == flagged_ids(*old(project), payload.results@, flags, 1)
                && views(r->Ok_0.withheld_safety@) == flagged_ids(*old(project), payload.results@, flags, 2),
        },
{
    match preflight(project, payload) {
        Ok(()) => {},
        Err(e) => return Err(e),
    }
    let ghost p0 = *project;
    let ghost items = payload.results@;
    let ghost mut states: Seq<Project> = seq![*project];
    let ghost mut flags: Seq<(bool, bool, bool)> = Seq::empty();
    let mut report = IngestReport { attached: 0, skipped_duplicate: 0, promoted: Vec::new(), withheld_safety: Vec::new() };
    let mut i: usize = 0;
    let _ = project.requirements.len();
    let _ = project.safety_requirements.len();
    assert(views(report.promoted@) =~= Seq::<Seq<char>>::empty());
    assert(views(report.withheld_safety@) =~= Seq::<Seq<char>>::empty());
    while i < payload.results.len()
        invariant
            i <= items.len(),
            items == payload.results@,
            items_fault(p0, payload.commit@, items) is None,
            states.len() == i + 1,
            flags.len() == i,
            states[0] == p0,
            states.last() == *project,
            same_keys(p0, *project),
            ingest_run(states, flags, items.take(i as int), *payload, promote, *ctx),
            report.attached == count_attached(flags),
            report.attached <= i,
            report.skipped_duplicate == i - count_attached(flags),
            views(report.promoted@) == flagged_ids(p0, items, flags, 1),
            views(report.withheld_safety@) == flagged_ids(p0, items, flags, 2),
        decreases items.len() - i,
    {
        let it = &payload.results[i];
        proof {
            lemma_items_ok(p0, payload.commit@, items, i as int);
            lemma_same_keys_resolve(p0, *project, it.req_id@);
            lemma_same_keys_resolve(p0, *project, it.verdict@);
        }
        let ghost cur = *project;
        let (att, up, held, id) = ingest_one(project, it, payload, promote, ctx);
        let _ = project.requirements.len();
        let _ = project.safety_requirements.len();
        proof {
            let ns = states.push(*project);
            assert forall|k: int| 0 <= k < ns.len() implies maps_sorted(#[trigger] ns[k]) by {
                if k < states.len() {
                    assert(ns[k] == states[k]);
                }
            }
            let nf = flags.push((att, up, held));
            assert forall|k: int| 0 <= k < i + 1 implies ingest_step(#[trigger] ns[k], ns[k + 1], items.take(i + 1)[k], *payload, promote, *ctx,
                nf[k].0, nf[k].1, nf[k].2) by {
                if k < i {
                    assert(ns[k] == states[k] && ns[k + 1] == states[k + 1] && nf[k] == flags[k]);
                    assert(items.take(i + 1)[k] == items.take(i as int)[k]);
                }
            }
            assert(nf.drop_last() =~= flags);
            states = ns;
            flags = nf;
            assert(same_keys(p0, *project));
        }
        if att {
            report.attached = report.attached + 1;
        } else {
            report.skipped_duplicate = report.skipped_duplicate + 1;
        }
        if up {
            let ghost pre = views(report.promoted@);
            report.promoted.push(id.clone());
            assert(views(report.promoted@) =~= pre.push(id@));
        }
        if held {
            let ghost pre = views(report.withheld_safety@);
            report.withheld_safety.push(id);
            assert(views(report.withheld_safety@) =~= pre.push(resolve_spec(p0, items[i as int].req_id@).unwrap().0));
        }
        i = i + 1;
    }
    assert(items.take(items.len() as int) =~= items);
    Ok(report)
}


// ---------------------------------------------------------------------------
// Ingesting twice
// ---------------------------------------------------------------------------

/// `p` already holds the evidence that ingesting `it` would attach, so the
/// ingest step skips it.
pub open spec fn already_holds(p: Project, it: ResultItem, payload: ResultPayload) -> bool {
    let (id, fam) = resolve_spec(p, it.req_id@).unwrap();
    let outcome = verdict_spec(p, it.verdict@)->Ok_0;
    match fam {
        Family::Req => dup_spec(lookup(p.requirements.view(), id).unwrap().tests@, it, payload, outcome),
        Family::Sr => dup_spec(lookup(p.safety_requirements.view(), id).unwrap().tests@, it, payload, outcome),
    }
}

/// After one ingest step the item's evidence is held, evidence held before
/// is still held, and the ids and verdict mapping are unchanged.
proof fn lemma_step_holds(s: Project, s2: Project, it: ResultItem, payload: ResultPayload, promote: bool, ctx: ActionContext,
    att: bool, up: bool, held: bool)
    requires
        ingest_step(s, s2, it, payload, promote, ctx, att, up, held),
        maps_sorted(s),
        maps_sorted(s2),
        resolve_spec(s, it.req_id@) is Some,
    ensures
        same_keys(s, s2),
        already_holds(s2, it, payload),
        forall|it2: ResultItem| resolve_spec(s, it2.req_id@) is Some && #[trigger] already_holds(s, it2, payload)
            ==> already_holds(s2, it2, payload),
{
    let (id, fam) = resolve_spec(s, it.req_id@).unwrap();
    let outcome = verdict_spec(s, it.verdict@)->Ok_0;
    match fam {
        Family::Req => {
            let o = lookup(s.requirements.view(), id).unwrap();
            if !dup_spec(o.tests@, it, payload, outcome) {
                let n = lookup(s2.requirements.view(), id).unwrap();
                let i = choose|i: int| 0 <= i < s2.requirements.view().len() && #[trigger] s2.requirements.view()[i].key() == id;
                assert(n.key() == id);
                assert(has_key(s.requirements.view(), id));
                assert forall|k: Seq<char>| #[trigger] has_key(s2.requirements.view(), k) == has_key(s.requirements.view(), k) by {
                    if k != id {
                        lemma_replaced_lookup(s.requirements.view(), s2.requirements.view(), n, k);
                    }
                }
                lemma_same_keys_resolve(s, s2, it.req_id@);
                lemma_same_keys_resolve(s, s2, it.verdict@);
                let last = n.tests@.len() - 1;
                assert(n.tests@[last] == n.tests@.last());
                assert(dup_spec(n.tests@, it, payload, outcome));
                assert forall|it2: ResultItem| resolve_spec(s, it2.req_id@) is Some && #[trigger] already_holds(s, it2, payload)
                    implies already_holds(s2, it2, payload) by {
                    lemma_same_keys_resolve(s, s2, it2.req_id@);
                    lemma_same_keys_resolve(s, s2, it2.verdict@);
                    let (id2, fam2) = resolve_spec(s, it2.req_id@).unwrap();
                    let out2 = verdict_spec(s, it2.verdict@)->Ok_0;
                    if fam2 == Family::Req {
                        if id2 == id {
                            let j = choose|j: int| 0 <= j < o.tests@.len() && (#[trigger] o.tests@[j]).commit@ == payload.commit@
                                && o.tests@[j].outcome == out2 && ext_matches(o.tests@[j].external, payload.system@, it2.verdict@);
                            assert(n.tests@[j] == n.tests@.drop_last()[j]);
                        } else {
                            lemma_replaced_lookup(s.requirements.view(), s2.requirements.view(), n, id2);
                        }
                    }
                }
            }
        },
        Family::Sr => {
            let o = lookup(s.safety_requirements.view(), id).unwrap();
            if !dup_spec(o.tests@, it, payload, outcome) {
                let n = lookup(s2.safety_requirements.view(), id).unwrap();
                let i = choose|i: int| 0 <= i < s2.safety_requirements.view().len()
                    && #[trigger] s2.safety_requirements.view()[i].key() == id;
                assert(n.key() == id);
                assert(has_key(s.safety_requirements.view(), id));
                assert forall|k: Seq<char>| #[trigger] has_key(s2.safety_requirements.view(), k) == has_key(s.safety_requirements.view(), k) by {
                    if k != id {
                        lemma_replaced_lookup(s.safety_requirements.view(), s2.safety_requirements.view(), n, k);
                    }
                }
                lemma_same_keys_resolve(s, s2, it.req_id@);
                lemma_same_keys_resolve(s, s2, it.verdict@);
                let last = n.tests@.len() - 1;
                assert(n.tests@[last] == n.tests@.last());
                assert(dup_spec(n.tests@, it, payload, outcome));
                assert forall|it2: ResultItem| resolve_spec(s, it2.req_id@) is Some && #[trigger] already_holds(s, it2, payload)
                    implies already_holds(s2, it2, payload) by {
                    lemma_same_keys_resolve(s, s2, it2.req_id@);
                    lemma_same_keys_resolve(s, s2, it2.verdict@);
                    let (id2, fam2) = resolve_spec(s, it2.req_id@).unwrap();
                    let out2 = verdict_spec(s, it2.verdict@)->Ok_0;
                    if fam2 == Family::Sr {
                        if id2 == id {
                            let j = choose|j: int| 0 <= j < o.tests@.len() && (#[trigger] o.tests@[j]).commit@ == payload.commit@
                                && o.tests@[j].outcome == out2 && ext_matches(o.tests@[j].external, payload.system@, it2.verdict@);
                            assert(n.tests@[j] == n.tests@.drop_last()[j]);
                        } else {
                            lemma_replaced_lookup(s.safety_requirements.view(), s2.safety_requirements.view(), n, id2);
                        }
                    }
                }
            }
        },
    }
}

/// Through the first `i` steps of a run, the ids and verdict mapping stay
/// those of the start, and every item ingested so far is held.
proof fn lemma_run_holds(states: Seq<Project>, flags: Seq<(bool, bool, bool)>, items: Seq<ResultItem>, payload: ResultPayload,
    promote: bool, ctx: ActionContext, i: int)
    requires
        ingest_run(states, flags, items, payload, promote, ctx),
        forall|j: int| 0 <= j < items.len() ==> resolve_spec(states[0], (#[trigger] items[j]).req_id@) is Some,
        0 <= i <= items.len(),
    ensures
        same_keys(states[0], states[i]),
        forall|j: int| 0 <= j < i ==> already_holds(states[i], #[trigger] items[j], payload),
    decreases i,
{
    if i > 0 {
        lemma_run_holds(states, flags, items, payload, promote, ctx, i - 1);
        let prev = states[i - 1];
        let cur = states[i];
        assert(ingest_step(states[i - 1], states[i], items[i - 1], payload, promote, ctx, flags[i - 1].0, flags[i - 1].1, flags[i - 1].2));
        assert(maps_sorted(states[i - 1]) && maps_sorted(states[i]));
        lemma_same_keys_resolve(states[0], prev, items[i - 1].req_id@);
        lemma_step_holds(prev, cur, items[i - 1], payload, promote, ctx, flags[i - 1].0, flags[i - 1].1, flags[i - 1].2);
        assert forall|k: Seq<char>| #[trigger] has_key(cur.requirements.view(), k) == has_key(states[0].requirements.view(), k) by {
            assert(has_key(cur.requirements.view(), k) == has_key(prev.requirements.view(), k));
            assert(has_key(prev.requirements.view(), k) == has_key(states[0].requirements.view(), k));
        }
        assert forall|k: Seq<char>| #[trigger] has_key(cur.safety_requirements.view(), k) == has_key(states[0].safety_requirements.view(), k) by {
            assert(has_key(cur.safety_requirements.view(), k) == has_key(prev.safety_requirements.view(), k));
            assert(has_key(prev.safety_requirements.view(), k) == has_key(states[0].safety_requirements.view(), k));
        }
        assert forall|j: int| 0 <= j < i implies already_holds(cur, #[trigger] items[j], payload) by {
            if j < i - 1 {
                lemma_same_keys_resolve(states[0], prev, items[j].req_id@);
                assert(already_holds(prev, items[j], payload));
            }
        }
    }
}

/// A run over items all held from the start skips every one: the project
/// stays as it was and no flag is set.
proof fn lemma_run_skips(states: Seq<Project>, flags: Seq<(bool, bool, bool)>, items: Seq<ResultItem>, payload: ResultPayload,
    promote: bool, ctx: ActionContext, i: int)
    requires
        ingest_run(states, flags, items, payload, promote, ctx),
        forall|j: int| 0 <= j < items.len() ==> already_holds(states[0], #[trigger] items[j], payload),
        0 <= i <= items.len(),
    ensures
        states[i] == states[0],
        forall|k: int| 0 <= k < i ==> !(#[trigger] flags[k]).0 && !flags[k].1 && !flags[k].2,
    decreases i,
{
    if i > 0 {
        lemma_run_skips(states, flags, items, payload, promote, ctx, i - 1);
        assert(ingest_step(states[i - 1], states[i], items[i - 1], payload, promote, ctx, flags[i - 1].0, flags[i - 1].1, flags[i - 1].2));
        assert(already_holds(states[0], items[i - 1], payload));
    }
}

proof fn lemma_none_attached(flags: Seq<(bool, bool, bool)>)
    requires
        forall|k: int| 0 <= k < flags.len() ==> !(#[trigger] flags[k]).0,
    ensures
        count_attached(flags) == 0,
    decreases flags.len(),
{
    if flags.len() > 0 {
        assert forall|k: int| 0 <= k < flags.drop_last().len() implies !(#[trigger] flags.drop_last()[k]).0 by {
            assert(flags.drop_last()[k] == flags[k]);
        }
        lemma_none_attached(flags.drop_last());
    }
}

/// The dossier of `it`'s item does not stand in the way of its decision:
/// there is no decision, no dossier, no concluded commit, or the payload's.
pub open spec fn dossier_fine(p: Project, commit: Seq<char>, it: ResultItem) -> bool {
    let (id, fam) = resolve_spec(p, it.req_id@).unwrap();
    it.decision is Some ==> match dossier_at(p, id, fam) {
        Some(v) => match v.concluded_commit {
            Some(cc) => cc@ == commit,
            None => true,
        },
        None => true,
    }
}

/// One ingest step keeps every item's dossier fine for the payload's commit.
proof fn lemma_step_fine(s: Project, s2: Project, it: ResultItem, payload: ResultPayload, promote: bool, ctx: ActionContext,
    att: bool, up: bool, held: bool)
    requires
        ingest_step(s, s2, it, payload, promote, ctx, att, up, held),
        maps_sorted(s),
        maps_sorted(s2),
        resolve_spec(s, it.req_id@) is Some,
        same_keys(s, s2),
    ensures
        forall|it2: ResultItem| resolve_spec(s, it2.req_id@) is Some && #[trigger] dossier_fine(s, payload.commit@, it2)
            ==> dossier_fine(s2, payload.commit@, it2),
{
    let (id, fam) = resolve_spec(s, it.req_id@).unwrap();
    let outcome = verdict_spec(s, it.verdict@)->Ok_0;
    assert forall|it2: ResultItem| resolve_spec(s, it2.req_id@) is Some && #[trigger] dossier_fine(s, payload.commit@, it2)
        implies dossier_fine(s2, payload.commit@, it2) by {
        lemma_same_keys_resolve(s, s2, it2.req_id@);
        let (id2, fam2) = resolve_spec(s, it2.req_id@).unwrap();
        match fam {
            Family::Req => {
                let o = lookup(s.requirements.view(), id).unwrap();
                if !dup_spec(o.tests@, it, payload, outcome) {
                    let n = lookup(s2.requirements.view(), id).unwrap();
                    let i = choose|i: int| 0 <= i < s2.requirements.view().len() && #[trigger] s2.requirements.view()[i].key() == id;
                    assert(n.key() == id);
                    if fam2 == Family::Req && id2 != id {
                        lemma_replaced_lookup(s.requirements.view(), s2.requirements.view(), n, id2);
                    }
                }
            },
            Family::Sr => {
                let o = lookup(s.safety_requirements.view(), id).unwrap();
                if !dup_spec(o.tests@, it, payload, outcome) {
                    let n = lookup(s2.safety_requirements.view(), id).unwrap();
                    let i = choose|i: int| 0 <= i < s2.safety_requirements.view().len()
                        && #[trigger] s2.safety_requirements.view()[i].key() == id;
                    assert(n.key() == id);
                    if fam2 == Family::Sr && id2 != id {
                        lemma_replaced_lookup(s.safety_requirements.view(), s2.safety_requirements.view(), n, id2);
                    }
                }
            },
        }
    }
}

/// Through a run, every item's dossier stays fine for the payload's commit.
proof fn lemma_run_fine(states: Seq<Project>, flags: Seq<(bool, bool, bool)>, items: Seq<ResultItem>, payload: ResultPayload,
    promote: bool, ctx: ActionContext, i: int)
    requires
        ingest_run(states, flags, items, payload, promote, ctx),
        forall|j: int| 0 <= j < items.len() ==> resolve_spec(states[0], (#[trigger] items[j]).req_id@) is Some,
        forall|j: int| 0 <= j < items.len() ==> dossier_fine(states[0], payload.commit@, #[trigger] items[j]),
        0 <= i <= items.len(),
    ensures
        forall|j: int| 0 <= j < items.len() ==> dossier_fine(states[i], payload.commit@, #[trigger] items[j]),
    decreases i,
{
    if i > 0 {
        lemma_run_fine(states, flags, items, payload, promote, ctx, i - 1);
        lemma_run_holds(states, flags, items, payload, promote, ctx, i - 1);
        let prev = states[i - 1];
        assert(ingest_step(states[i - 1], states[i], items[i - 1], payload, promote, ctx, flags[i - 1].0, flags[i - 1].1, flags[i - 1].2));
        assert(maps_sorted(states[i - 1]) && maps_sorted(states[i]));
        lemma_same_keys_resolve(states[0], prev, items[i - 1].req_id@);
        lemma_step_holds(prev, states[i], items[i - 1], payload, promote, ctx, flags[i - 1].0, flags[i - 1].1, flags[i - 1].2);
        lemma_step_fine(prev, states[i], items[i - 1], payload, promote, ctx, flags[i - 1].0, flags[i - 1].1, flags[i - 1].2);
        assert forall|j: int| 0 <= j < items.len() implies dossier_fine(states[i], payload.commit@, #[trigger] items[j]) by {
            lemma_same_keys_resolve(states[0], prev, items[j].req_id@);
            assert(dossier_fine(prev, payload.commit@, items[j]));
        }
    }
}

/// Every item of an accepted payload resolves, maps its verdict, and has a
/// fine dossier; and when that holds of each item, the items are accepted.
proof fn lemma_items_fault_each(p: Project, c: Seq<char>, items: Seq<ResultItem>)
    ensures
        items_fault(p, c, items) is None <==> forall|j: int| 0 <= j < items.len() ==> item_fault(p, c, #[trigger] items[j]) is None,
    decreases items.len(),
{
    if items.len() > 0 {
        lemma_items_fault_each(p, c, items.drop_first());
        if items_fault(p, c, items) is None {
            assert forall|j: int| 0 <= j < items.len() implies item_fault(p, c, #[trigger] items[j]) is None by {
                if j > 0 {
                    assert(items.drop_first()[j - 1] == items[j]);
                }
            }
        }
        if forall|j: int| 0 <= j < items.len() ==> item_fault(p, c, #[trigger] items[j]) is None {
            assert(item_fault(p, c, items[0]) is None);
            assert forall|j: int| 0 <= j < items.drop_first().len() implies item_fault(p, c, #[trigger] items.drop_first()[j]) is None by {
                assert(items.drop_first()[j] == items[j + 1]);
            }
        }
    }
}

proof fn lemma_fine_of_ok(p: Project, c: Seq<char>, it: ResultItem)
    requires
        item_fault(p, c, it) is None,
    ensures
        resolve_spec(p, it.req_id@) is Some,
        verdict_spec(p, it.verdict@) is Ok,
        dossier_fine(p, c, it),
{
}

proof fn lemma_ok_of_fine(p: Project, c: Seq<char>, it: ResultItem)
    requires
        resolve_spec(p, it.req_id@) is Some,
        verdict_spec(p, it.verdict@) is Ok,
        dossier_fine(p, c, it),
    ensures
        item_fault(p, c, it) is None,
{
}

proof fn lemma_none_flagged(p: Project, items: Seq<ResultItem>, flags: Seq<(bool, bool, bool)>, which: int)
    requires
        forall|k: int| 0 <= k < flags.len() ==> !(#[trigger] flags[k]).1 && !flags[k].2,
    ensures
        flagged_ids(p, items, flags, which).len() == 0,
    decreases flags.len(),
{
    if flags.len() > 0 {
        assert forall|k: int| 0 <= k < flags.drop_last().len() implies !(#[trigger] flags.drop_last()[k]).1
            && !flags.drop_last()[k].2 by {
            assert(flags.drop_last()[k] == flags[k]);
        }
        lemma_none_flagged(p, items, flags.drop_last(), which);
        assert(flags.last() == flags[flags.len() - 1]);
    }
}

/// A payload that was ingested is accepted again by the project the ingest
/// left: its items still resolve, their verdicts still map, and a decision
/// meets a dossier concluded at the payload's own commit.
pub proof fn lemma_ingest_accepted_again(first: Seq<Project>, f1: Seq<(bool, bool, bool)>, payload: ResultPayload,
    promote: bool, ctx: ActionContext)
    requires
        preflight_spec(first[0], payload) is None,
        ingest_run(first, f1, payload.results@, payload, promote, ctx),
    ensures
        preflight_spec(first.last(), payload) is None,
{
    let items = payload.results@;
    let c = payload.commit@;
    lemma_items_fault_each(first[0], c, items);
    assert forall|j: int| 0 <= j < items.len() implies resolve_spec(first[0], (#[trigger] items[j]).req_id@) is Some by {
        lemma_fine_of_ok(first[0], c, items[j]);
    }
    assert forall|j: int| 0 <= j < items.len() implies dossier_fine(first[0], c, #[trigger] items[j]) by {
        lemma_fine_of_ok(first[0], c, items[j]);
    }
    let last = items.len() as int;
    lemma_run_fine(first, f1, items, payload, promote, ctx, last);
    lemma_run_holds(first, f1, items, payload, promote, ctx, last);
    assert(first.last() == first[last]);
    lemma_items_fault_each(first.last(), c, items);
    assert forall|j: int| 0 <= j < items.len() implies item_fault(first.last(), c, #[trigger] items[j]) is None by {
        lemma_fine_of_ok(first[0], c, items[j]);
        lemma_same_keys_resolve(first[0], first.last(), items[j].req_id@);
        lemma_same_keys_resolve(first[0], first.last(), items[j].verdict@);
        lemma_ok_of_fine(first.last(), c, items[j]);
    }
}

/// Ingesting the same payload a second time changes nothing: the second
/// ingest is accepted, every result is already held, so the project stays
/// as the first ingest left it and nothing is attached, promoted or
/// withheld.
pub proof fn lemma_ingest_twice(first: Seq<Project>, f1: Seq<(bool, bool, bool)>, second: Seq<Project>,
    f2: Seq<(bool, bool, bool)>, payload: ResultPayload, promote1: bool, promote2: bool, ctx1: ActionContext,
    ctx2: ActionContext)
    requires
        preflight_spec(first[0], payload) is None,
        ingest_run(first, f1, payload.results@, payload, promote1, ctx1),
        ingest_run(second, f2, payload.results@, payload, promote2, ctx2),
        second[0] == first.last(),
    ensures
        preflight_spec(second[0], payload) is None,
        second.last() == first.last(),
        count_attached(f2) == 0,
        forall|k: int| 0 <= k < f2.len() ==> !(#[trigger] f2[k]).1 && !f2[k].2,
        flagged_ids(second[0], payload.results@, f2, 1).len() == 0,
        flagged_ids(second[0], payload.results@, f2, 2).len() == 0,
{
    let items = payload.results@;
    lemma_ingest_accepted_again(first, f1, payload, promote1, ctx1);
    assert forall|j: int| 0 <= j < items.len() implies resolve_spec(first[0], (#[trigger] items[j]).req_id@) is Some by {
        lemma_items_ok(first[0], payload.commit@, items, j);
    }
    lemma_run_holds(first, f1, items, payload, promote1, ctx1, items.len() as int);
    assert(first.last() == first[items.len() as int]);
    lemma_run_skips(second, f2, items, payload, promote2, ctx2, items.len() as int);
    lemma_none_attached(f2);
    lemma_none_flagged(second[0], items, f2, 1);
    lemma_none_flagged(second[0], items, f2, 2);
}

} // verus!
