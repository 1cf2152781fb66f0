//! The staged validation dossier. A requirement (REQ-NNNN) or safety
//! requirement (SR-NNNN) reaches Verified only after an ordered validation:
//! plan, analysis, testing, statement, verdict. The verdict is derived (Pass
//! only when analysis and testing both pass), never typed in, and a passing
//! dossier is what the promotion gate checks before a status becomes
//! Verified.
use vstd::prelude::*;

use crate::errors::ReqError;
use crate::idmap::{has_key, lookup, replaced, IdMap, Keyed};
use crate::ids::{norm_id, norm_id_spec, normalize_id_spec, req_not_found, resolve_id};
use crate::model::{
    commit_of, derived_verdict, entry_records, history, ActionContext, ActorKind, EvidenceKind,
    ExemptionKind, HistoryEntry, Project, Requirement, SafetyRequirement, Sil, Status,
    TestOutcome, TestRecord, Validation, ValidationActivity,
};
use crate::provenance::{classify, classify_spec, Provenance};
use crate::text::{chars_of, is_prefix, starts_with, string_of, to_upper, trim, trim_seq, upper_seq};

verus! {

/// Which id family an item belongs to.
#[derive(Copy, Clone, Debug, PartialEq, Eq, Structural)]
pub enum Family {
    Req,
    Sr,
}

/// The two activity stages of a dossier.
#[derive(Copy, Clone, Debug, PartialEq, Eq, Structural)]
pub enum Stage {
    Analysis,
    Testing,
}

impl Stage {
    pub open spec fn name(self) -> Seq<char> {
        match self {
            Stage::Analysis => "analysis"@,
            Stage::Testing => "testing"@,
        }
    }

    pub fn label(self) -> (r: &'static str)
        ensures
            r@ == self.name(),
    {
        match self {
            Stage::Analysis => "analysis",
            Stage::Testing => "testing",
        }
    }
}

// ---------------------------------------------------------------------------
// Resolution and field access
// ---------------------------------------------------------------------------

/// The typed id names a safety requirement (starts `SR` once trimmed and
/// uppercased).
pub open spec fn sr_form(raw: Seq<char>) -> bool {
    is_prefix("SR"@, upper_seq(trim_seq(raw)))
}

/// The existing item a typed id names, with its family.
pub open spec fn resolve_spec(p: Project, raw: Seq<char>) -> Option<(Seq<char>, Family)> {
    if sr_form(raw) {
        let id = norm_id_spec("SR"@, raw);
        if has_key(p.safety_requirements.view(), id) {
            Some((id, Family::Sr))
        } else {
            None
        }
    } else {
        let id = normalize_id_spec(raw);
        if has_key(p.requirements.view(), id) {
            Some((id, Family::Req))
        } else {
            None
        }
    }
}

/// Canonical `SR-NNNN` for a typed safety-requirement id.
pub fn normalize_sr(raw: &str) -> (r: String)
    ensures
        r@ == norm_id_spec("SR"@, raw@),
{
    norm_id("SR", raw)
}

/// Resolve a typed id to its canonical form and family: ids starting `SR`
/// name safety requirements, everything else ordinary requirements.
pub fn resolve(project: &Project, raw: &str) -> (r: Result<(String, Family), ReqError>)
    ensures
        match resolve_spec(*project, raw@) {
            Some(x) => r is Ok && r.unwrap().0@ == x.0 && r.unwrap().1 == x.1,
            None => if sr_form(raw@) {
                r matches Err(ReqError::NoSuchSafetyRequirement { raw: x }) && x@ == raw@
            } else {
                match r {
                    Err(e) => req_not_found(project.requirements.view(), raw@, e),
                    Ok(_) => false,
                }
            },
        },
{
    let rv = chars_of(raw);
    let t = trim(&rv);
    let ts = string_of(&t);
    let up = to_upper(ts.as_str());
    let uv = chars_of(up.as_str());
    let sr = chars_of("SR");
    if starts_with(&uv, &sr) {
        let id = normalize_sr(raw);
        if project.safety_requirements.contains_key(id.as_str()) {
            Ok((id, Family::Sr))
        } else {
            Err(ReqError::NoSuchSafetyRequirement { raw: string_of(&rv) })
        }
    } else {
        let id = resolve_id(project, raw)?;
        Ok((id, Family::Req))
    }
}

/// The item `id` of family `fam` exists.
pub open spec fn item_exists(p: Project, id: Seq<char>, fam: Family) -> bool {
    match fam {
        Family::Req => has_key(p.requirements.view(), id),
        Family::Sr => has_key(p.safety_requirements.view(), id),
    }
}

pub open spec fn item_validation(p: Project, id: Seq<char>, fam: Family) -> Option<Validation> {
    match fam {
        Family::Req => lookup(p.requirements.view(), id).unwrap().validation,
        Family::Sr => lookup(p.safety_requirements.view(), id).unwrap().validation,
    }
}

pub open spec fn item_status(p: Project, id: Seq<char>, fam: Family) -> Status {
    match fam {
        Family::Req => lookup(p.requirements.view(), id).unwrap().status,
        Family::Sr => lookup(p.safety_requirements.view(), id).unwrap().status,
    }
}

pub open spec fn item_tests(p: Project, id: Seq<char>, fam: Family) -> Seq<TestRecord> {
    match fam {
        Family::Req => lookup(p.requirements.view(), id).unwrap().tests@,
        Family::Sr => lookup(p.safety_requirements.view(), id).unwrap().tests@,
    }
}

/// A passing automated or composition record: the evidence the SIL-rigour
/// gate calls strong.
pub open spec fn is_strong(t: TestRecord) -> bool {
    t.outcome == TestOutcome::Pass && (t.kind == EvidenceKind::Automated || t.kind == EvidenceKind::Composition)
}

pub open spec fn has_strong_spec(tests: Seq<TestRecord>) -> bool {
    exists|i: int| 0 <= i < tests.len() && is_strong(#[trigger] tests[i])
}

fn any_strong(tests: &Vec<TestRecord>) -> (b: bool)
    ensures
        b == has_strong_spec(tests@),
{
    let mut i: usize = 0;
    while i < tests.len()
        invariant
            i <= tests@.len(),
            forall|j: int| 0 <= j < i ==> !is_strong(#[trigger] tests@[j]),
        decreases tests@.len() - i,
    {
        let t = &tests[i];
        if matches!(t.outcome, TestOutcome::Pass) && matches!(t.kind, EvidenceKind::Automated | EvidenceKind::Composition) {
            assert(is_strong(tests@[i as int]));
            return true;
        }
        i = i + 1;
    }
    false
}

/// Whether the item already carries strong evidence.
pub fn has_strong_evidence(project: &Project, id: &str, fam: Family) -> (b: bool)
    requires
        item_exists(*project, id@, fam),
    ensures
        b == has_strong_spec(item_tests(*project, id@, fam)),
        b <==> exists|i: int| 0 <= i < item_tests(*project, id@, fam).len()
            && (#[trigger] item_tests(*project, id@, fam)[i]).outcome == TestOutcome::Pass
            && (item_tests(*project, id@, fam)[i].kind == EvidenceKind::Automated
                || item_tests(*project, id@, fam)[i].kind == EvidenceKind::Composition),
{
    proof {
        lemma_strong_means_passing(item_tests(*project, id@, fam));
    }
    match fam {
        Family::Req => any_strong(&project.requirements.get(id).unwrap().tests),
        Family::Sr => any_strong(&project.safety_requirements.get(id).unwrap().tests),
    }
}

/// The item's validation dossier, if it has one.
pub fn dossier<'a>(project: &'a Project, id: &str, fam: Family) -> (r: Option<&'a Validation>)
    requires
        item_exists(*project, id@, fam),
    ensures
        match r { Some(v) => Some(*v), None => None } == item_validation(*project, id@, fam),
{
    match fam {
        Family::Req => project.requirements.get(id).unwrap().validation.as_ref(),
        Family::Sr => project.safety_requirements.get(id).unwrap().validation.as_ref(),
    }
}

/// The item's lifecycle status.
pub fn current_status(project: &Project, id: &str, fam: Family) -> (s: Status)
    requires
        item_exists(*project, id@, fam),
    ensures
        s == item_status(*project, id@, fam),
{
    match fam {
        Family::Req => project.requirements.get(id).unwrap().status,
        Family::Sr => project.safety_requirements.get(id).unwrap().status,
    }
}

/// The item's title.
pub fn title_of(project: &Project, id: &str, fam: Family) -> (t: String)
    requires
        item_exists(*project, id@, fam),
    ensures
        t@ == match fam {
            Family::Req => lookup(project.requirements.view(), id@).unwrap().title@,
            Family::Sr => lookup(project.safety_requirements.view(), id@).unwrap().title@,
        },
{
    match fam {
        Family::Req => project.requirements.get(id).unwrap().title.clone(),
        Family::Sr => project.safety_requirements.get(id).unwrap().title.clone(),
    }
}

// ---------------------------------------------------------------------------
// Gates
// ---------------------------------------------------------------------------

/// What blocks a promotion to Verified.
#[derive(Copy, Clone, Debug, PartialEq, Eq, Structural)]
pub enum PromotionBlock {
    /// The status is not Implemented or Verified.
    Irregular(Status),
    /// A safety requirement inheriting this SIL (3 or above) lacks strong evidence.
    SilRigour(Sil),
}

/// Why promotion to Verified is refused, if it is: the status ladder (only
/// from Implemented or Verified) unless forced, and for a safety requirement
/// inheriting SIL 3 or above, the lack of strong evidence unless forced.
pub open spec fn preflight_spec(p: Project, id: Seq<char>, fam: Family, force: bool) -> Option<PromotionBlock> {
    let status = item_status(p, id, fam);
    if !(status == Status::Implemented || status == Status::Verified) && !force {
        Some(PromotionBlock::Irregular(status))
    } else if fam == Family::Sr {
        let sr = lookup(p.safety_requirements.view(), id).unwrap();
        match p.inherited_sil_spec(sr) {
            Some(sil) => if sil.rank_of() >= Sil::Sil3.rank_of() && !has_strong_spec(sr.tests@) && !force {
                Some(PromotionBlock::SilRigour(sil))
            } else {
                None
            },
            None => None,
        }
    } else {
        None
    }
}

/// `e` is the error that reports block `b` on item `id`.
pub open spec fn reports_block(e: ReqError, id: Seq<char>, b: PromotionBlock) -> bool {
    match (e, b) {
        (ReqError::Irregular { id: x, status: s }, PromotionBlock::Irregular(t)) => x@ == id && s == t,
        (ReqError::VerifiedSilRigour { id: x, sil: s }, PromotionBlock::SilRigour(t)) => x@ == id && s == t,
        _ => false,
    }
}

/// Read-only promotion checks: the status ladder and, for safety
/// requirements, the SIL-rigour gate.
pub fn promote_preflight(project: &Project, id: &str, fam: Family, force: bool) -> (r: Result<(), ReqError>)
    requires
        item_exists(*project, id@, fam),
    ensures
        match preflight_spec(*project, id@, fam, force) {
            None => r is Ok,
            Some(b) => r is Err && reports_block(r->Err_0, id@, b),
        },
        ({
            let sr = lookup(project.safety_requirements.view(), id@).unwrap();
            &&& fam == Family::Sr
            &&& !force
            &&& (item_status(*project, id@, fam) == Status::Implemented || item_status(*project, id@, fam) == Status::Verified)
            &&& project.inherited_sil_spec(sr) matches Some(sil)
            &&& sil.rank_of() >= Sil::Sil3.rank_of()
            &&& forall|i: int| 0 <= i < sr.tests@.len() ==> (#[trigger] sr.tests@[i]).outcome != TestOutcome::Pass
        }) ==> r is Err && r->Err_0 is VerifiedSilRigour,
{
    proof {
        if fam == Family::Sr {
            lemma_strong_means_passing(lookup(project.safety_requirements.view(), id@).unwrap().tests@);
        }
    }
    let status = current_status(project, id, fam);
    let ladder_ok = matches!(status, Status::Implemented | Status::Verified);
    if !ladder_ok && !force {
        return Err(ReqError::Irregular { id: string_of(&chars_of(id)), status });
    }
    if matches!(fam, Family::Sr) {
        let sr = project.safety_requirements.get(id).unwrap();
        if let Some(sil) = project.inherited_sil(sr) {
            let strong = any_strong(&sr.tests);
            if sil.rank() >= Sil::Sil3.rank() && !strong && !force {
                return Err(ReqError::VerifiedSilRigour { id: string_of(&chars_of(id)), sil });
            }
        }
    }
    Ok(())
}

/// The front-line gate for safety requirements: only a genuine concluded
/// passing dossier (no waiver) lets one reach Verified.
pub fn gate_safety_requirement(sr: &SafetyRequirement) -> (r: Result<(), ReqError>)
    ensures
        r is Ok <==> classify_spec(sr.validation, None) == Provenance::Genuine,
        r is Err ==> r->Err_0 == (ReqError::NotGenuine { id: sr.id }),
{
    if classify(sr.validation.as_ref(), None).is_genuine() {
        return Ok(());
    }
    Err(ReqError::NotGenuine { id: sr.id.clone() })
}

/// How far a not-yet-passing item's dossier progressed; none for Verified
/// and Obsolete items.
pub open spec fn unvalidated_stage_spec(status: Status, v: Option<Validation>) -> Option<Seq<char>> {
    if status == Status::Verified || status == Status::Obsolete {
        None
    } else {
        Some(match v {
            None => "no-plan"@,
            Some(v) => if trim_seq(v.plan@).len() == 0 {
                "no-plan"@
            } else {
                match (v.analysis, v.testing) {
                    (None, _) => "plan-only"@,
                    (Some(a), _) => if a.outcome == TestOutcome::Fail {
                        "analysis-failing"@
                    } else {
                        match v.testing {
                            None => "analysed-untested"@,
                            Some(t) => if t.outcome == TestOutcome::Fail {
                                "tested-failing"@
                            } else {
                                "ready-to-conclude"@
                            },
                        }
                    },
                }
            },
        })
    }
}

/// Classify a not-yet-passing item by how far its dossier progressed.
pub fn unvalidated_stage(status: Status, v: Option<&Validation>) -> (r: Option<&'static str>)
    ensures
        match unvalidated_stage_spec(status, match v { Some(x) => Some(*x), None => None }) {
            Some(s) => r.is_some() && r.unwrap()@ == s,
            None => r.is_none(),
        },
{
    if matches!(status, Status::Verified | Status::Obsolete) {
        return None;
    }
    Some(match v {
        None => "no-plan",
        Some(v) => if crate::text::trimmed_char_count(v.plan.as_str()) == 0 {
            "no-plan"
        } else {
            match (&v.analysis, &v.testing) {
                (None, _) => "plan-only",
                (Some(a), _) if matches!(a.outcome, TestOutcome::Fail) => "analysis-failing",
                (Some(_), None) => "analysed-untested",
                (Some(_), Some(t)) if matches!(t.outcome, TestOutcome::Fail) => "tested-failing",
                (Some(_), Some(_)) => "ready-to-conclude",
            }
        },
    })
}


// ---------------------------------------------------------------------------
// The dossier operations
// ---------------------------------------------------------------------------

/// After an action on item `id` of family `fam`, only that item's dossier,
/// status, evidence, history and timestamp moved: its history grew by one
/// entry, its evidence only by appending, everything else in the project is
/// as it was, and item and project are stamped with `now`.
pub open spec fn dossier_step(old: Project, new: Project, id: Seq<char>, fam: Family, now: String) -> bool {
    &&& new.name == old.name
    &&& new.hazards == old.hazards
    &&& new.safety_functions == old.safety_functions
    &&& new.calibration == old.calibration
    &&& new.calibration_label == old.calibration_label
    &&& new.updated == now
    &&& match fam {
        Family::Req => {
            let o = lookup(old.requirements.view(), id).unwrap();
            let n = lookup(new.requirements.view(), id).unwrap();
            &&& has_key(old.requirements.view(), id)
            &&& has_key(new.requirements.view(), id)
            &&& replaced(old.requirements.view(), new.requirements.view(), n)
            &&& new.safety_requirements == old.safety_requirements
            &&& n.id == o.id && n.title == o.title && n.statement == o.statement
            &&& n.rationale == o.rationale && n.acceptance == o.acceptance && n.kind == o.kind
            &&& n.priority == o.priority && n.tags == o.tags && n.links == o.links && n.created == o.created
            &&& n.history@.len() == o.history@.len() + 1
            &&& n.history@.subrange(0, o.history@.len() as int) == o.history@
            &&& n.tests@.len() >= o.tests@.len()
            &&& n.tests@.subrange(0, o.tests@.len() as int) == o.tests@
            &&& n.updated == now
        },
        Family::Sr => {
            let o = lookup(old.safety_requirements.view(), id).unwrap();
            let n = lookup(new.safety_requirements.view(), id).unwrap();
            &&& has_key(old.safety_requirements.view(), id)
            &&& has_key(new.safety_requirements.view(), id)
            &&& replaced(old.safety_requirements.view(), new.safety_requirements.view(), n)
            &&& new.requirements == old.requirements
            &&& n.id == o.id && n.title == o.title && n.statement == o.statement
            &&& n.rationale == o.rationale && n.acceptance == o.acceptance
            &&& n.priority == o.priority && n.tags == o.tags && n.links == o.links && n.created == o.created
            &&& n.walkthrough == o.walkthrough
            &&& n.history@.len() == o.history@.len() + 1
            &&& n.history@.subrange(0, o.history@.len() as int) == o.history@
            &&& n.tests@.len() >= o.tests@.len()
            &&& n.tests@.subrange(0, o.tests@.len() as int) == o.tests@
            &&& n.updated == now
        },
    }
}

/// The newest history entry of an item.
pub open spec fn last_entry(p: Project, id: Seq<char>, fam: Family) -> HistoryEntry {
    match fam {
        Family::Req => lookup(p.requirements.view(), id).unwrap().history@.last(),
        Family::Sr => lookup(p.safety_requirements.view(), id).unwrap().history@.last(),
    }
}

/// A change to an item's validation dossier.
pub enum DossierEdit {
    /// Leave the dossier as it is.
    Keep,
    /// Replace the whole dossier with a newly opened one.
    Open(Validation),
    /// Record the analysis stage.
    Analysis(ValidationActivity),
    /// Record the testing stage.
    Testing(ValidationActivity),
    /// Conclude: statement, derived verdict, time and commit, anchor.
    Conclude {
        statement: String,
        verdict: TestOutcome,
        concluded: String,
        commit: String,
        content_hash: Option<String>,
        linked_files: Option<Vec<String>>,
    },
    /// Record the human confirmation of the result.
    Confirm(ValidationActivity),
}

/// The dossier after `edit` (an edit of a missing dossier leaves it missing).
pub open spec fn edited(v: Option<Validation>, edit: DossierEdit) -> Option<Validation> {
    match edit {
        DossierEdit::Keep => v,
        DossierEdit::Open(n) => Some(n),
        DossierEdit::Analysis(a) => match v {
            Some(d) => Some(Validation { analysis: Some(a), ..d }),
            None => None,
        },
        DossierEdit::Testing(t) => match v {
            Some(d) => Some(Validation { testing: Some(t), ..d }),
            None => None,
        },
        DossierEdit::Conclude { statement, verdict, concluded, commit, content_hash, linked_files } => match v {
            Some(d) => Some(Validation {
                statement: Some(statement),
                verdict: Some(verdict),
                concluded: Some(concluded),
                concluded_commit: Some(commit),
                content_hash,
                linked_files,
                ..d
            }),
            None => None,
        },
        DossierEdit::Confirm(c) => match v {
            Some(d) => Some(Validation { human_confirmation: Some(c), ..d }),
            None => None,
        },
    }
}

fn apply_edit(v: &mut Option<Validation>, edit: DossierEdit)
    ensures
        *final(v) == edited(*old(v), edit),
{
    match edit {
        DossierEdit::Keep => {},
        DossierEdit::Open(n) => {
            *v = Some(n);
        },
        DossierEdit::Analysis(a) => match v {
            Some(d) => {
                d.analysis = Some(a);
            },
            None => {},
        },
        DossierEdit::Testing(t) => match v {
            Some(d) => {
                d.testing = Some(t);
            },
            None => {},
        },
        DossierEdit::Conclude { statement, verdict, concluded, commit, content_hash, linked_files } => match v {
            Some(d) => {
                d.statement = Some(statement);
                d.verdict = Some(verdict);
                d.concluded = Some(concluded);
                d.concluded_commit = Some(commit);
                d.content_hash = content_hash;
                d.linked_files = linked_files;
            },
            None => {},
        },
        DossierEdit::Confirm(c) => match v {
            Some(d) => {
                d.human_confirmation = Some(c);
            },
            None => {},
        },
    }
}

/// Change the dossier fields of item `id`: edit its validation, set its
/// status, append the evidence record if any, append the history entry,
/// and stamp item and project with the entry's time.
fn update_item(
    project: &mut Project,
    id: &str,
    fam: Family,
    edit: DossierEdit,
    status: Status,
    test: Option<TestRecord>,
    e: HistoryEntry,
)
    requires
        item_exists(*old(project), id@, fam),
    ensures
        dossier_step(*old(project), *final(project), id@, fam, e.at),
        item_validation(*final(project), id@, fam) == edited(item_validation(*old(project), id@, fam), edit),
        item_status(*final(project), id@, fam) == status,
        item_tests(*final(project), id@, fam) == item_tests(*old(project), id@, fam) + match test {
            Some(t) => seq![t],
            None => Seq::empty(),
        },
        last_entry(*final(project), id@, fam) == e,
{
    let now = e.at.clone();
    let stamp = e.at.clone();
    match fam {
        Family::Req => {
            let mut r = project.requirements.remove(id).unwrap();
            let ghost o = r;
            apply_edit(&mut r.validation, edit);
            r.status = status;
            match test {
                Some(t) => r.tests.push(t),
                None => {},
            }
            r.history.push(e);
            r.updated = now;
            assert(r.history@.subrange(0, o.history@.len() as int) =~= o.history@);
            assert(r.tests@.subrange(0, o.tests@.len() as int) =~= o.tests@);
            let ghost mid = project.requirements.view();
            project.requirements.insert(r);
            proof {
                assert(!has_key(mid, id@));
            }
        },
        Family::Sr => {
            let mut r = project.safety_requirements.remove(id).unwrap();
            let ghost o = r;
            apply_edit(&mut r.validation, edit);
            r.status = status;
            match test {
                Some(t) => r.tests.push(t),
                None => {},
            }
            r.history.push(e);
            r.updated = now;
            assert(r.history@.subrange(0, o.history@.len() as int) =~= o.history@);
            assert(r.tests@.subrange(0, o.tests@.len() as int) =~= o.tests@);
            let ghost mid = project.safety_requirements.view();
            project.safety_requirements.insert(r);
            proof {
                assert(!has_key(mid, id@));
            }
        },
    }
    project.updated = stamp;
}

fn text(s: &str) -> (r: String)
    ensures
        r@ == s@,
{
    string_of(&chars_of(s))
}

/// `v` is a freshly opened dossier holding `plan`, opened by the context's
/// actor at its time and commit.
pub open spec fn opened_with(v: Validation, plan: Seq<char>, ctx: ActionContext) -> bool {
    &&& v.plan@ == plan
    &&& v.actor == ctx.actor
    &&& v.opened == ctx.now
    &&& v.opened_commit@ == ctx.commit_view()
    &&& v.analysis.is_none() && v.testing.is_none() && v.statement.is_none()
    &&& v.verdict.is_none() && v.concluded.is_none() && v.concluded_commit.is_none()
    &&& !v.exempt && v.exemption_kind.is_none()
    &&& v.content_hash.is_none() && v.linked_files.is_none() && v.human_confirmation.is_none()
}

pub open spec fn opt_view(o: Option<String>) -> Option<Seq<char>> {
    match o {
        Some(s) => Some(s@),
        None => None,
    }
}

/// Stage 1: open (or, with `reopen`, re-open) the dossier with its plan. A
/// concluded dossier is only replaced when re-opening.
pub fn op_plan(
    project: &mut Project,
    raw: &str,
    plan: String,
    reopen: bool,
    reason: Option<String>,
    ctx: &ActionContext,
) -> (r: Result<String, ReqError>)
    ensures
        match resolve_spec(*old(project), raw@) {
            None => r is Err && *final(project) == *old(project),
            Some(x) => {
                let (id, fam) = x;
                let prior = item_validation(*old(project), id, fam);
                if prior.is_some() && prior.unwrap().concluded_spec() && !reopen {
                    *final(project) == *old(project) && match r {
                        Err(ReqError::DossierConcluded { id: e }) => e@ == id,
                        _ => false,
                    }
                } else {
                    &&& r is Ok && r.unwrap()@ == id
                    &&& dossier_step(*old(project), *final(project), id, fam, ctx.now)
                    &&& item_validation(*final(project), id, fam).is_some()
                    &&& opened_with(item_validation(*final(project), id, fam).unwrap(), plan@, *ctx)
                    &&& item_status(*final(project), id, fam) == item_status(*old(project), id, fam)
                    &&& item_tests(*final(project), id, fam) == item_tests(*old(project), id, fam)
                    &&& entry_records(last_entry(*final(project), id, fam), *ctx,
                        if reopen { "validation re-opened (plan recorded)"@ } else { "validation plan recorded"@ },
                        opt_view(reason))
                }
            },
        },
{
    let (id, fam) = resolve(project, raw)?;
    match dossier(project, id.as_str(), fam) {
        Some(v) => if v.is_concluded() && !reopen {
            return Err(ReqError::DossierConcluded { id });
        },
        None => {},
    }
    let status = current_status(project, id.as_str(), fam);
    let v = Validation::opened(plan, ctx.actor.clone(), commit_of(ctx), ctx.now.clone());
    let action = if reopen {
        text("validation re-opened (plan recorded)")
    } else {
        text("validation plan recorded")
    };
    let e = history(action, reason, ctx);
    update_item(project, id.as_str(), fam, DossierEdit::Open(v), status, None, e);
    Ok(id)
}


/// The one-line summary of an evidence record cited by the testing stage:
/// `record: <outcome> @<commit, abbreviated, or —> (<kind>)`.
pub open spec fn record_summary(t: TestRecord) -> Seq<char> {
    "record: "@ + t.outcome.name() + " @"@ + (if t.commit@.len() == 0 {
        "—"@
    } else {
        crate::staleness::short_spec(t.commit@)
    }) + " ("@ + t.kind.name() + ")"@
}

/// Summarise one evidence record.
pub fn summarise_record(t: &TestRecord) -> (r: String)
    ensures
        r@ == record_summary(*t),
{
    let mut s = text("record: ");
    s.append(t.outcome.as_str());
    s.append(" @");
    if t.commit.as_str().is_empty() {
        s.append("—");
    } else {
        let c = crate::staleness::short(t.commit.as_str());
        s.append(c.as_str());
    }
    s.append(" (");
    s.append(t.kind.as_str());
    s.append(")");
    s
}

/// `refs` extended, in order, by each summary it does not already hold.
pub open spec fn merge_refs(refs: Seq<Seq<char>>, sums: Seq<Seq<char>>) -> Seq<Seq<char>>
    decreases sums.len(),
{
    if sums.len() == 0 {
        refs
    } else {
        let prev = merge_refs(refs, sums.drop_last());
        if prev.contains(sums.last()) {
            prev
        } else {
            prev.push(sums.last())
        }
    }
}

fn contains_string(v: &Vec<String>, s: &String) -> (b: bool)
    ensures
        b == crate::text::views(v@).contains(s@),
{
    let mut i: usize = 0;
    while i < v.len()
        invariant
            i <= v@.len(),
            forall|j: int| 0 <= j < i ==> v@[j]@ != s@,
        decreases v@.len() - i,
    {
        if crate::text::str_eq(v[i].as_str(), s.as_str()) {
            assert(crate::text::views(v@)[i as int] == s@);
            return true;
        }
        i = i + 1;
    }
    proof {
        if crate::text::views(v@).contains(s@) {
            let j = choose|j: int| 0 <= j < crate::text::views(v@).len() && crate::text::views(v@)[j] == s@;
            assert(v@[j]@ == s@);
        }
    }
    false
}

/// The references a stage records: the caller's, and for testing also a
/// summary of each evidence record already attached, without repeats.
pub open spec fn stage_refs(stage: Stage, refs: Seq<Seq<char>>, tests: Seq<TestRecord>) -> Seq<Seq<char>> {
    if stage == Stage::Testing {
        merge_refs(refs, tests.map_values(|t: TestRecord| record_summary(t)))
    } else {
        refs
    }
}

fn build_refs(stage: Stage, references: &Vec<String>, tests: &Vec<TestRecord>) -> (r: Vec<String>)
    ensures
        crate::text::views(r@) == stage_refs(stage, crate::text::views(references@), tests@),
{
    let mut refs = crate::text::clone_strings(references);
    if matches!(stage, Stage::Testing) {
        let ghost base = crate::text::views(references@);
        let ghost sums = tests@.map_values(|t: TestRecord| record_summary(t));
        let mut i: usize = 0;
        while i < tests.len()
            invariant
                i <= tests@.len(),
                sums == tests@.map_values(|t: TestRecord| record_summary(t)),
                crate::text::views(refs@) == merge_refs(base, sums.subrange(0, i as int)),
            decreases tests@.len() - i,
        {
            let s = summarise_record(&tests[i]);
            let ghost pre = sums.subrange(0, i as int);
            let ghost nxt = sums.subrange(0, i + 1);
            assert(nxt.drop_last() =~= pre);
            assert(nxt.last() == s@);
            if !contains_string(&refs, &s) {
                refs.push(s);
                assert(crate::text::views(refs@) =~= merge_refs(base, pre).push(nxt.last()));
            }
            i = i + 1;
        }
        assert(sums.subrange(0, tests@.len() as int) =~= sums);
    }
    refs
}

/// `a` is the stage entry holding `findings`, `outcome` and `refs`,
/// recorded by the context's actor at its time.
pub open spec fn activity_of(a: ValidationActivity, findings: Seq<char>, outcome: TestOutcome, refs: Seq<Seq<char>>, ctx: ActionContext) -> bool {
    &&& a.summary@ == findings
    &&& a.outcome == outcome
    &&& crate::text::views(a.references@) == refs
    &&& a.at == ctx.now
    &&& a.actor == ctx.actor
}

/// Stages 2 and 3: record validation by analysis or by testing. Needs an
/// open (not concluded) dossier, and testing needs analysis first.
pub fn op_activity(
    project: &mut Project,
    raw: &str,
    stage: Stage,
    findings: String,
    outcome: TestOutcome,
    references: &Vec<String>,
    ctx: &ActionContext,
) -> (r: Result<String, ReqError>)
    ensures
        match resolve_spec(*old(project), raw@) {
            None => r is Err && *final(project) == *old(project),
            Some(x) => {
                let (id, fam) = x;
                let prior = item_validation(*old(project), id, fam);
                if prior.is_none() {
                    *final(project) == *old(project) && match r {
                        Err(ReqError::NoDossier { id: e }) => e@ == id,
                        _ => false,
                    }
                } else if prior.unwrap().concluded_spec() {
                    *final(project) == *old(project) && match r {
                        Err(ReqError::DossierConcluded { id: e }) => e@ == id,
                        _ => false,
                    }
                } else if stage == Stage::Testing && prior.unwrap().analysis.is_none() {
                    *final(project) == *old(project) && match r {
                        Err(ReqError::AnalysisFirst { id: e }) => e@ == id,
                        _ => false,
                    }
                } else {
                    let v = item_validation(*final(project), id, fam).unwrap();
                    let refs = stage_refs(stage, crate::text::views(references@), item_tests(*old(project), id, fam));
                    &&& r is Ok && r.unwrap()@ == id
                    &&& dossier_step(*old(project), *final(project), id, fam, ctx.now)
                    &&& item_validation(*final(project), id, fam).is_some()
                    &&& match stage {
                        Stage::Analysis => v == Validation { analysis: v.analysis, ..prior.unwrap() }
                            && activity_of(v.analysis.unwrap(), findings@, outcome, refs, *ctx) && v.analysis.is_some(),
                        Stage::Testing => v == Validation { testing: v.testing, ..prior.unwrap() }
                            && activity_of(v.testing.unwrap(), findings@, outcome, refs, *ctx) && v.testing.is_some(),
                    }
                    &&& item_status(*final(project), id, fam) == item_status(*old(project), id, fam)
                    &&& item_tests(*final(project), id, fam) == item_tests(*old(project), id, fam)
                    &&& entry_records(last_entry(*final(project), id, fam), *ctx,
                        "validation "@ + stage.name() + " recorded ("@ + outcome.name() + ")"@, None)
                }
            },
        },
{
    let (id, fam) = resolve(project, raw)?;
    let refs = match fam {
        Family::Req => build_refs(stage, references, &project.requirements.get(id.as_str()).unwrap().tests),
        Family::Sr => build_refs(stage, references, &project.safety_requirements.get(id.as_str()).unwrap().tests),
    };
    match dossier(project, id.as_str(), fam) {
        None => return Err(ReqError::NoDossier { id }),
        Some(v) => {
            if v.is_concluded() {
                return Err(ReqError::DossierConcluded { id });
            }
            if matches!(stage, Stage::Testing) && v.analysis.is_none() {
                return Err(ReqError::AnalysisFirst { id });
            }
        },
    }
    let entry = ValidationActivity {
        summary: findings,
        outcome,
        references: refs,
        at: ctx.now.clone(),
        actor: ctx.actor.clone(),
    };
    let status = current_status(project, id.as_str(), fam);
    let edit = match stage {
        Stage::Analysis => DossierEdit::Analysis(entry),
        Stage::Testing => DossierEdit::Testing(entry),
    };
    let mut action = text("validation ");
    action.append(stage.label());
    action.append(" recorded (");
    action.append(outcome.as_str());
    action.append(")");
    let e = history(action, None, ctx);
    update_item(project, id.as_str(), fam, edit, status, None, e);
    Ok(id)
}


/// `s` with every backslash turned into a forward slash.
pub open spec fn forward_slashed(s: Seq<char>) -> Seq<char> {
    s.map_values(|c: char| if c == '\\' { '/' } else { c })
}

/// A path with forward slashes, so anchors are portable across platforms.
pub fn to_forward_slashes(s: &str) -> (r: String)
    ensures
        r@ == forward_slashed(s@),
{
    let v = chars_of(s);
    let mut out: Vec<char> = Vec::new();
    let mut i: usize = 0;
    while i < v.len()
        invariant
            i <= v@.len(),
            out@ == forward_slashed(v@.subrange(0, i as int)),
        decreases v@.len() - i,
    {
        let c = v[i];
        out.push(if c == '\\' { '/' } else { c });
        assert(out@ =~= forward_slashed(v@.subrange(0, i + 1)));
        i = i + 1;
    }
    assert(v@.subrange(0, v@.len() as int) =~= v@);
    string_of(&out)
}

fn forward_all(v: &Vec<String>) -> (r: Vec<String>)
    ensures
        crate::text::views(r@) == crate::text::views(v@).map_values(|s: Seq<char>| forward_slashed(s)),
{
    let mut out: Vec<String> = Vec::new();
    let mut i: usize = 0;
    while i < v.len()
        invariant
            i <= v@.len(),
            out@.len() == i,
            forall|j: int| 0 <= j < i ==> #[trigger] out@[j]@ == forward_slashed(v@[j]@),
        decreases v@.len() - i,
    {
        out.push(to_forward_slashes(v[i].as_str()));
        i = i + 1;
    }
    assert(crate::text::views(out@) =~= crate::text::views(v@).map_values(|s: Seq<char>| forward_slashed(s)));
    out
}

/// Outcome of concluding a dossier.
pub struct ConcludeOutcome {
    pub id: String,
    pub verdict: TestOutcome,
    pub promoted: bool,
    /// A safety requirement that now waits at Implemented for the human co-sign.
    pub awaiting_confirmation: bool,
}

/// What blocks concluding, when something does.
#[derive(Copy, Clone, Debug, PartialEq, Eq, Structural)]
pub enum ConcludeBlock {
    NoDossier,
    StagesMissing,
    VerdictFail,
    Promotion(PromotionBlock),
}

/// Why a conclude of item `id` is refused, if it is: no dossier; a stage
/// missing; or, when promoting, a failed verdict or a promotion block.
pub open spec fn conclude_block(p: Project, id: Seq<char>, fam: Family, promote: bool, force: bool) -> Option<ConcludeBlock> {
    match item_validation(p, id, fam) {
        None => Some(ConcludeBlock::NoDossier),
        Some(v) => if v.analysis.is_none() || v.testing.is_none() {
            Some(ConcludeBlock::StagesMissing)
        } else if promote && derived_verdict(v) == Some(TestOutcome::Fail) {
            Some(ConcludeBlock::VerdictFail)
        } else if promote {
            match preflight_spec(p, id, fam, force) {
                Some(b) => Some(ConcludeBlock::Promotion(b)),
                None => None,
            }
        } else {
            None
        },
    }
}

pub open spec fn reports_conclude_block(e: ReqError, id: Seq<char>, b: ConcludeBlock) -> bool {
    match b {
        ConcludeBlock::NoDossier => e matches ReqError::NoDossier { id: x } && x@ == id,
        ConcludeBlock::StagesMissing => e matches ReqError::StagesMissing { id: x } && x@ == id,
        ConcludeBlock::VerdictFail => e matches ReqError::VerdictFail { id: x } && x@ == id,
        ConcludeBlock::Promotion(pb) => reports_block(e, id, pb),
    }
}

/// The evidence record a promoting conclude attaches: a pass at the
/// context's time and commit, of `kind`, anchored like the dossier.
pub open spec fn conclude_record(t: TestRecord, statement: Seq<char>, kind: EvidenceKind, hash: Option<Seq<char>>,
    files: Option<Seq<Seq<char>>>, exception: bool, sil: Option<Sil>, ctx: ActionContext) -> bool {
    &&& t.at == ctx.now
    &&& t.actor == ctx.actor
    &&& t.commit@ == ctx.commit_view()
    &&& t.outcome == TestOutcome::Pass
    &&& t.notes@ == "validation dossier concluded — "@ + statement
    &&& t.kind == kind
    &&& opt_view(t.content_hash) == hash
    &&& match t.linked_files { Some(f) => files == Some(crate::text::views(f@)), None => files.is_none() }
    &&& t.sil_gate_exception == exception
    &&& t.sil_at_verification == sil
}

/// Stage 4: conclude. Records the statement and the derived verdict (Pass
/// only when analysis and testing both passed), anchors the dossier on the
/// hash of the linked files, and with `promote` on a Pass records the
/// conclusion as evidence: an ordinary requirement becomes Verified, a
/// safety requirement Implemented, awaiting its human co-sign. `linked`
/// are the files that reference the id and `content_hash` their hash.
pub fn op_conclude(
    project: &mut Project,
    raw: &str,
    statement: String,
    promote: bool,
    force: bool,
    reason: Option<String>,
    linked: &Vec<String>,
    content_hash: &String,
    ctx: &ActionContext,
) -> (r: Result<ConcludeOutcome, ReqError>)
    ensures
        match resolve_spec(*old(project), raw@) {
            None => r is Err && *final(project) == *old(project),
            Some(x) => {
                let (id, fam) = x;
                match conclude_block(*old(project), id, fam, promote, force) {
                    Some(b) => *final(project) == *old(project) && r is Err && reports_conclude_block(r->Err_0, id, b),
                    None => {
                        let prior = item_validation(*old(project), id, fam).unwrap();
                        let verdict = derived_verdict(prior).unwrap();
                        let v = item_validation(*final(project), id, fam).unwrap();
                        let hash: Option<Seq<char>> = if linked@.len() == 0 { None } else { Some(content_hash@) };
                        let files: Option<Seq<Seq<char>>> = if linked@.len() == 0 { None } else {
                            Some(crate::text::views(linked@).map_values(|s: Seq<char>| forward_slashed(s)))
                        };
                        let will_record = promote && verdict == TestOutcome::Pass;
                        let inherited = if fam == Family::Sr {
                            (*old(project)).inherited_sil_spec(lookup((*old(project)).safety_requirements.view(), id).unwrap())
                        } else {
                            None
                        };
                        let kind = if will_record && has_strong_spec(item_tests(*old(project), id, fam)) {
                            EvidenceKind::Composition
                        } else {
                            EvidenceKind::Inspection
                        };
                        let exception = will_record && force && kind == EvidenceKind::Inspection && match inherited {
                            Some(s) => s.rank_of() >= Sil::Sil3.rank_of(),
                            None => false,
                        };
                        &&& r is Ok
                        &&& r.unwrap().id@ == id
                        &&& r.unwrap().verdict == verdict
                        &&& r.unwrap().promoted == (will_record && fam == Family::Req)
                        &&& r.unwrap().awaiting_confirmation == (will_record && fam == Family::Sr)
                        &&& dossier_step(*old(project), *final(project), id, fam, ctx.now)
                        &&& item_validation(*final(project), id, fam).is_some()
                        &&& v == Validation {
                            statement: v.statement,
                            verdict: Some(verdict),
                            concluded: Some(ctx.now),
                            concluded_commit: v.concluded_commit,
                            content_hash: v.content_hash,
                            linked_files: v.linked_files,
                            ..prior
                        }
                        &&& opt_view(v.statement) == Some(statement@)
                        &&& opt_view(v.concluded_commit) == Some(ctx.commit_view())
                        &&& opt_view(v.content_hash) == hash
                        &&& match v.linked_files { Some(f) => files == Some(crate::text::views(f@)), None => files.is_none() }
                        &&& item_status(*final(project), id, fam) == if !will_record {
                            item_status(*old(project), id, fam)
                        } else if fam == Family::Sr {
                            Status::Implemented
                        } else {
                            Status::Verified
                        }
                        &&& if will_record {
                            let ts = item_tests(*final(project), id, fam);
                            &&& ts.len() == item_tests(*old(project), id, fam).len() + 1
                            &&& ts.drop_last() == item_tests(*old(project), id, fam)
                            &&& conclude_record(ts.last(), statement@, kind, hash, files, exception, inherited, *ctx)
                        } else {
                            item_tests(*final(project), id, fam) == item_tests(*old(project), id, fam)
                        }
                        &&& entry_records(last_entry(*final(project), id, fam), *ctx,
                            "validation concluded ("@ + verdict.name() + ")"@ + if will_record && fam == Family::Req {
                                " — promoted to Verified"@
                            } else if will_record {
                                " — awaiting human confirmation"@
                            } else {
                                Seq::empty()
                            },
                            opt_view(reason))
                    },
                }
            },
        },
{
    let (id, fam) = resolve(project, raw)?;
    let verdict = match dossier(project, id.as_str(), fam) {
        None => return Err(ReqError::NoDossier { id }),
        Some(v) => {
            if v.analysis.is_none() || v.testing.is_none() {
                return Err(ReqError::StagesMissing { id });
            }
            match v.derive_verdict() {
                Some(o) => o,
                None => TestOutcome::Fail,
            }
        },
    };
    if promote {
        if matches!(verdict, TestOutcome::Fail) {
            return Err(ReqError::VerdictFail { id });
        }
        promote_preflight(project, id.as_str(), fam, force)?;
    }
    let hash: Option<String> = if linked.len() == 0 { None } else { Some(content_hash.clone()) };
    let files: Option<Vec<String>> = if linked.len() == 0 { None } else { Some(forward_all(linked)) };
    let will_record = promote && matches!(verdict, TestOutcome::Pass);
    let strong = will_record && has_strong_evidence(project, id.as_str(), fam);
    let inherited = match fam {
        Family::Sr => project.inherited_sil(project.safety_requirements.get(id.as_str()).unwrap()),
        Family::Req => None,
    };
    let kind = if strong { EvidenceKind::Composition } else { EvidenceKind::Inspection };
    let exception = will_record && force && matches!(kind, EvidenceKind::Inspection) && match inherited {
        Some(s) => s.rank() >= Sil::Sil3.rank(),
        None => false,
    };
    let commit = commit_of(ctx);
    let status_before = current_status(project, id.as_str(), fam);
    let (status, promoted, awaiting) = if will_record {
        match fam {
            Family::Sr => (Status::Implemented, false, true),
            Family::Req => (Status::Verified, true, false),
        }
    } else {
        (status_before, false, false)
    };
    let test = if will_record {
        let mut notes = text("validation dossier concluded — ");
        notes.append(statement.as_str());
        Some(TestRecord {
            at: ctx.now.clone(),
            actor: ctx.actor.clone(),
            commit: commit_of(ctx),
            outcome: TestOutcome::Pass,
            notes,
            kind,
            content_hash: crate::text::clone_opt(&hash),
            linked_files: match &files { Some(f) => Some(crate::text::clone_strings(f)), None => None },
            sil_gate_exception: exception,
            sil_at_verification: inherited,
            external: None,
        })
    } else {
        None
    };
    let mut action = text("validation concluded (");
    action.append(verdict.as_str());
    action.append(")");
    if promoted {
        action.append(" — promoted to Verified");
    } else if awaiting {
        action.append(" — awaiting human confirmation");
    }
    let e = history(action, reason, ctx);
    let edit = DossierEdit::Conclude {
        statement,
        verdict,
        concluded: ctx.now.clone(),
        commit,
        content_hash: hash,
        linked_files: files,
    };
    update_item(project, id.as_str(), fam, edit, status, test, e);
    Ok(ConcludeOutcome { id, verdict, promoted, awaiting_confirmation: awaiting })
}


/// A passing record accepted under an audited SIL-rigour exception.
pub open spec fn is_exception(t: TestRecord) -> bool {
    t.outcome == TestOutcome::Pass && t.sil_gate_exception
}

pub open spec fn has_exception_spec(tests: Seq<TestRecord>) -> bool {
    exists|i: int| 0 <= i < tests.len() && is_exception(#[trigger] tests[i])
}

fn any_exception(tests: &Vec<TestRecord>) -> (b: bool)
    ensures
        b == has_exception_spec(tests@),
{
    let mut i: usize = 0;
    while i < tests.len()
        invariant
            i <= tests@.len(),
            forall|j: int| 0 <= j < i ==> !is_exception(#[trigger] tests@[j]),
        decreases tests@.len() - i,
    {
        let t = &tests[i];
        if matches!(t.outcome, TestOutcome::Pass) && t.sil_gate_exception {
            assert(is_exception(tests@[i as int]));
            return true;
        }
        i = i + 1;
    }
    false
}

/// What blocks a human confirmation of item `id`, if anything: no dossier,
/// no concluded Pass verdict, or (for a safety requirement, whose co-sign
/// promotes it) the promotion checks, forced only by an audited exception
/// already on record.
pub open spec fn confirm_block(p: Project, id: Seq<char>, fam: Family) -> Option<ConfirmBlock> {
    match item_validation(p, id, fam) {
        None => Some(ConfirmBlock::NoDossier),
        Some(v) => if v.verdict != Some(TestOutcome::Pass) {
            Some(ConfirmBlock::NoPass)
        } else if fam == Family::Sr {
            match preflight_spec(p, id, fam, has_exception_spec(item_tests(p, id, fam))) {
                Some(b) => Some(ConfirmBlock::Promotion(b)),
                None => None,
            }
        } else {
            None
        },
    }
}

/// What blocks a human confirmation.
#[derive(Copy, Clone, Debug, PartialEq, Eq, Structural)]
pub enum ConfirmBlock {
    NoDossier,
    NoPass,
    Promotion(PromotionBlock),
}

pub open spec fn reports_confirm_block(e: ReqError, id: Seq<char>, b: ConfirmBlock) -> bool {
    match b {
        ConfirmBlock::NoDossier => e matches ReqError::NoDossier { id: x } && x@ == id,
        ConfirmBlock::NoPass => e matches ReqError::NoPassToConfirm { id: x } && x@ == id,
        ConfirmBlock::Promotion(pb) => reports_block(e, id, pb),
    }
}

/// The default summary of a human confirmation without a note.
pub open spec fn confirm_summary(note: Seq<char>) -> Seq<char> {
    if note.len() == 0 { "human confirmation of the validation result"@ } else { note }
}

/// Record the human co-sign of a concluded Pass. Only a human may do it;
/// for a safety requirement the co-sign is what promotes it to Verified.
pub fn op_confirm(project: &mut Project, raw: &str, note: &str, ctx: &ActionContext) -> (r: Result<String, ReqError>)
    ensures
        ctx.actor_kind == ActorKind::Agent ==> *final(project) == *old(project) && r == Err::<String, ReqError>(ReqError::ConfirmNeedsHuman),
        ctx.actor_kind != ActorKind::Agent ==> match resolve_spec(*old(project), raw@) {
            None => r is Err && *final(project) == *old(project),
            Some(x) => {
                let (id, fam) = x;
                match confirm_block(*old(project), id, fam) {
                    Some(b) => *final(project) == *old(project) && r is Err && reports_confirm_block(r->Err_0, id, b),
                    None => {
                        let prior = item_validation(*old(project), id, fam).unwrap();
                        let v = item_validation(*final(project), id, fam).unwrap();
                        let c = v.human_confirmation.unwrap();
                        &&& r is Ok && r.unwrap()@ == id
                        &&& dossier_step(*old(project), *final(project), id, fam, ctx.now)
                        &&& item_validation(*final(project), id, fam).is_some()
                        &&& v == Validation { human_confirmation: v.human_confirmation, ..prior }
                        &&& v.human_confirmation.is_some()
                        &&& c.summary@ == confirm_summary(note@)
                        &&& c.outcome == TestOutcome::Pass
                        &&& c.references@.len() == 0
                        &&& c.at == ctx.now
                        &&& c.actor == ctx.actor
                        &&& item_status(*final(project), id, fam) == if fam == Family::Sr {
                            Status::Verified
                        } else {
                            item_status(*old(project), id, fam)
                        }
                        &&& item_tests(*final(project), id, fam) == item_tests(*old(project), id, fam)
                        &&& entry_records(last_entry(*final(project), id, fam), *ctx,
                            if fam == Family::Sr {
                                "validation result confirmed by human — promoted to Verified"@
                            } else {
                                "validation result confirmed by human"@
                            },
                            None)
                    },
                }
            },
        },
{
    if matches!(ctx.actor_kind, ActorKind::Agent) {
        return Err(ReqError::ConfirmNeedsHuman);
    }
    let (id, fam) = resolve(project, raw)?;
    match dossier(project, id.as_str(), fam) {
        None => return Err(ReqError::NoDossier { id }),
        Some(v) => if !matches!(v.verdict, Some(TestOutcome::Pass)) {
            return Err(ReqError::NoPassToConfirm { id });
        },
    }
    if matches!(fam, Family::Sr) {
        let had_exception = any_exception(&project.safety_requirements.get(id.as_str()).unwrap().tests);
        promote_preflight(project, id.as_str(), fam, had_exception)?;
    }
    let summary = if chars_of(note).len() == 0 {
        text("human confirmation of the validation result")
    } else {
        text(note)
    };
    let activity = ValidationActivity {
        summary,
        outcome: TestOutcome::Pass,
        references: Vec::new(),
        at: ctx.now.clone(),
        actor: ctx.actor.clone(),
    };
    let promoted_sr = matches!(fam, Family::Sr);
    let status = if promoted_sr { Status::Verified } else { current_status(project, id.as_str(), fam) };
    let action = if promoted_sr {
        text("validation result confirmed by human — promoted to Verified")
    } else {
        text("validation result confirmed by human")
    };
    let e = history(action, None, ctx);
    update_item(project, id.as_str(), fam, DossierEdit::Confirm(activity), status, None, e);
    Ok(id)
}


// ---------------------------------------------------------------------------
// Audited waivers
// ---------------------------------------------------------------------------

/// `v` is a waiver dossier: exempt, of `kind`, holding `plan` and
/// `statement`, opened and concluded with a Pass at `now` by `actor` at
/// `commit`, with the concluding commit recorded or not.
pub open spec fn waiver(v: Validation, plan: Seq<char>, statement: Seq<char>, kind: ExemptionKind,
    actor: String, commit: Seq<char>, now: String, commit_recorded: bool) -> bool {
    &&& v.plan@ == plan
    &&& v.actor == actor
    &&& v.opened == now
    &&& v.opened_commit@ == commit
    &&& v.analysis.is_none() && v.testing.is_none()
    &&& opt_view(v.statement) == Some(statement)
    &&& v.verdict == Some(TestOutcome::Pass)
    &&& v.concluded == Some(now)
    &&& if commit_recorded { opt_view(v.concluded_commit) == Some(commit) } else { v.concluded_commit.is_none() }
    &&& v.exempt
    &&& v.exemption_kind == Some(kind)
    &&& v.content_hash.is_none() && v.linked_files.is_none() && v.human_confirmation.is_none()
}

/// The audited `--no-dossier` waiver recorded when an ordinary requirement
/// is verified without a dossier.
pub fn exemption_dossier(reason: &str, actor: String, commit: String, now: String) -> (v: Validation)
    ensures
        waiver(v, "[--no-dossier exemption] "@ + reason@, "[no-dossier exemption: "@ + reason@ + "]"@,
            ExemptionKind::NoDossier, actor, commit@, now, false),
        v.passed_spec(),
{
    let ghost c = commit@;
    let mut plan = text("[--no-dossier exemption] ");
    plan.append(reason);
    let mut statement = text("[no-dossier exemption: ");
    statement.append(reason);
    statement.append("]");
    let concluded = now.clone();
    let mut v = Validation::opened(plan, actor, commit, now);
    v.exempt = true;
    v.exemption_kind = Some(ExemptionKind::NoDossier);
    v.statement = Some(statement);
    v.verdict = Some(TestOutcome::Pass);
    v.concluded = Some(concluded);
    v
}

/// A Verified ordinary requirement without a passing dossier.
pub open spec fn needs_backfill(r: Requirement) -> bool {
    r.status == Status::Verified && !(r.validation.is_some() && r.validation.unwrap().passed_spec())
}

/// The ids of the requirements that need a back-filled waiver, in id order.
pub open spec fn backfill_targets(reqs: Seq<Requirement>) -> Seq<Seq<char>>
    decreases reqs.len(),
{
    if reqs.len() == 0 {
        Seq::empty()
    } else {
        let rest = backfill_targets(reqs.drop_last());
        if needs_backfill(reqs.last()) { rest.push(reqs.last().id@) } else { rest }
    }
}

/// `n` is requirement `o` carrying a back-filled waiver for `reason`: the
/// dossier replaced, the history grown by the recording entry, the time
/// stamped, nothing else changed.
pub open spec fn backfilled(o: Requirement, n: Requirement, reason: Seq<char>, ctx: ActionContext) -> bool {
    &&& n == Requirement { validation: n.validation, history: n.history, updated: n.updated, ..o }
    &&& n.updated == ctx.now
    &&& n.history@.len() == o.history@.len() + 1
    &&& n.history@.drop_last() == o.history@
    &&& entry_records(n.history@.last(), ctx, "validation back-filled (audited exemption)"@, Some(reason))
    &&& n.validation.is_some()
    &&& waiver(n.validation.unwrap(), "[backfilled exemption] "@ + reason, "[backfilled: "@ + reason + "]"@,
        ExemptionKind::Backfilled, ctx.actor, ctx.commit_view(), ctx.now, true)
}

/// The project after back-filling `targets` (all existing requirement ids):
/// exactly those requirements carry the waiver, everything else is as it was.
pub open spec fn backfill_applied(old: Project, new: Project, targets: Seq<Seq<char>>, reason: Seq<char>, ctx: ActionContext) -> bool {
    &&& new.name == old.name
    &&& new.hazards == old.hazards
    &&& new.safety_functions == old.safety_functions
    &&& new.safety_requirements == old.safety_requirements
    &&& new.calibration == old.calibration
    &&& new.calibration_label == old.calibration_label
    &&& new.requirements.view().len() == old.requirements.view().len()
    &&& forall|k: Seq<char>| #[trigger] has_key(new.requirements.view(), k) == has_key(old.requirements.view(), k)
    &&& forall|k: Seq<char>| targets.contains(k) ==> backfilled(lookup(old.requirements.view(), k).unwrap(),
        #[trigger] lookup(new.requirements.view(), k).unwrap(), reason, ctx)
    &&& forall|k: Seq<char>| !targets.contains(k) ==> #[trigger] lookup(new.requirements.view(), k) == lookup(old.requirements.view(), k)
}

/// Put a back-filled waiver on one existing requirement.
fn backfill_one(project: &mut Project, id: &str, reason: &str, ctx: &ActionContext)
    requires
        has_key(old(project).requirements.view(), id@),
    ensures
        final(project).name == old(project).name,
        final(project).hazards == old(project).hazards,
        final(project).safety_functions == old(project).safety_functions,
        final(project).safety_requirements == old(project).safety_requirements,
        final(project).calibration == old(project).calibration,
        final(project).calibration_label == old(project).calibration_label,
        final(project).updated == old(project).updated,
        has_key(final(project).requirements.view(), id@),
        replaced(old(project).requirements.view(), final(project).requirements.view(),
            lookup(final(project).requirements.view(), id@).unwrap()),
        lookup(final(project).requirements.view(), id@).unwrap().key() == id@,
        backfilled(lookup(old(project).requirements.view(), id@).unwrap(),
            lookup(final(project).requirements.view(), id@).unwrap(), reason@, *ctx),
{
    let mut plan = text("[backfilled exemption] ");
    plan.append(reason);
    let mut statement = text("[backfilled: ");
    statement.append(reason);
    statement.append("]");
    let mut v = Validation::opened(plan, ctx.actor.clone(), commit_of(ctx), ctx.now.clone());
    v.exempt = true;
    v.exemption_kind = Some(ExemptionKind::Backfilled);
    v.statement = Some(statement);
    v.verdict = Some(TestOutcome::Pass);
    v.concluded = Some(ctx.now.clone());
    v.concluded_commit = Some(commit_of(ctx));
    let e = history(text("validation back-filled (audited exemption)"), Some(text(reason)), ctx);
    let mut r = project.requirements.remove(id).unwrap();
    let ghost o = r;
    r.validation = Some(v);
    r.updated = ctx.now.clone();
    r.history.push(e);
    assert(r.history@.drop_last() =~= o.history@);
    let ghost mid = project.requirements.view();
    project.requirements.insert(r);
    proof {
        assert(!has_key(mid, id@));
    }
}

/// Back-fill an audited waiver onto already-Verified items lacking a passing
/// dossier: the one named (never a safety requirement: those cannot be
/// waived), or with `all` every such ordinary requirement. Returns the ids
/// touched.
pub fn op_backfill(project: &mut Project, raw_id: Option<&str>, all: bool, reason: &str, ctx: &ActionContext)
    -> (r: Result<Vec<String>, ReqError>)
    ensures
        match raw_id {
            Some(raw) => match resolve_spec(*old(project), raw@) {
                None => r is Err && *final(project) == *old(project),
                Some(x) => if x.1 == Family::Sr {
                    *final(project) == *old(project) && match r {
                        Err(ReqError::SafetyNotExemptable { id }) => id@ == x.0,
                        _ => false,
                    }
                } else {
                    &&& r is Ok && crate::text::views(r.unwrap()@) == seq![x.0]
                    &&& backfill_applied(*old(project), *final(project), seq![x.0], reason@, *ctx)
                    &&& final(project).updated == ctx.now
                },
            },
            None => if all {
                let t = backfill_targets(old(project).requirements.view());
                &&& r is Ok && crate::text::views(r.unwrap()@) == t
                &&& backfill_applied(*old(project), *final(project), t, reason@, *ctx)
                &&& final(project).updated == if t.len() == 0 { old(project).updated } else { ctx.now }
            } else {
                *final(project) == *old(project) && r == Err::<Vec<String>, ReqError>(ReqError::NothingToBackfill)
            },
        },
{
    let ghost o = *project;
    let mut targets: Vec<String> = Vec::new();
    match raw_id {
        Some(raw) => {
            let (id, fam) = resolve(project, raw)?;
            if matches!(fam, Family::Sr) {
                return Err(ReqError::SafetyNotExemptable { id });
            }
            targets.push(id);
            assert(crate::text::views(targets@) =~= seq![targets@[0]@]);
        },
        None => {
            if !all {
                return Err(ReqError::NothingToBackfill);
            }
            targets = collect_backfill_targets(&project.requirements);
        },
    }
    let ghost tv = crate::text::views(targets@);
    proof {
        assert forall|a: int, b: int| 0 <= a < b < tv.len() implies tv[a] != tv[b] by {
            crate::text::lemma_lt_irreflexive(tv[a]);
        }
    }
    let mut j: usize = 0;
    while j < targets.len()
        invariant
            j <= targets@.len(),
            tv == crate::text::views(targets@),
            forall|a: int, b: int| 0 <= a < b < tv.len() ==> tv[a] != tv[b],
            forall|a: int| 0 <= a < tv.len() ==> has_key(o.requirements.view(), #[trigger] tv[a]),
            backfill_applied(o, *project, tv.take(j as int), reason@, *ctx),
            project.updated == o.updated,
        decreases targets@.len() - j,
    {
        let ghost before = *project;
        let ghost t = tv[j as int];
        assert(!tv.take(j as int).contains(t)) by {
            if tv.take(j as int).contains(t) {
                let a = choose|a: int| 0 <= a < j && tv.take(j as int)[a] == t;
                assert(tv[a] == tv[j as int]);
            }
        }
        let _ = project.requirements.len();
        backfill_one(project, targets[j].as_str(), reason, ctx);
        let _ = project.requirements.len();
        proof {
            let n = lookup(project.requirements.view(), t).unwrap();
            assert forall|k: Seq<char>| k != t implies
                has_key(project.requirements.view(), k) == has_key(before.requirements.view(), k)
                && lookup(project.requirements.view(), k) == lookup(before.requirements.view(), k) by {
                crate::idmap::lemma_replaced_lookup(before.requirements.view(), project.requirements.view(), n, k);
            }
            assert(tv.take(j as int + 1) =~= tv.take(j as int).push(t));
            let done = tv.take(j as int + 1);
            assert forall|k: Seq<char>| #[trigger] has_key(project.requirements.view(), k) == has_key(o.requirements.view(), k) by {
                if k != t {
                    crate::idmap::lemma_replaced_lookup(before.requirements.view(), project.requirements.view(), n, k);
                }
            }
            assert forall|k: Seq<char>| done.contains(k) implies backfilled(lookup(o.requirements.view(), k).unwrap(),
                #[trigger] lookup(project.requirements.view(), k).unwrap(), reason@, *ctx) by {
                if k == t {
                    assert(!tv.take(j as int).contains(k));
                    assert(lookup(before.requirements.view(), k) == lookup(o.requirements.view(), k));
                } else {
                    crate::idmap::lemma_replaced_lookup(before.requirements.view(), project.requirements.view(), n, k);
                    assert(tv.take(j as int).contains(k));
                    assert(backfilled(lookup(o.requirements.view(), k).unwrap(), lookup(before.requirements.view(), k).unwrap(), reason@, *ctx));
                }
            }
            assert forall|k: Seq<char>| !done.contains(k) implies #[trigger] lookup(project.requirements.view(), k) == lookup(o.requirements.view(), k) by {
                assert(done[j as int] == t);
                assert(k != t);
                crate::idmap::lemma_replaced_lookup(before.requirements.view(), project.requirements.view(), n, k);
                assert(!tv.take(j as int).contains(k));
            }
        }
        j = j + 1;
    }
    assert(tv.take(j as int) =~= tv);
    if targets.len() > 0 {
        project.updated = ctx.now.clone();
    }
    Ok(targets)
}

/// Some entry before position `i` has key `k`.
pub open spec fn key_before<T: Keyed>(s: Seq<T>, i: int, k: Seq<char>) -> bool {
    exists|q: int| 0 <= q < i && #[trigger] s[q].key() == k
}

/// The requirements needing a back-filled waiver, in id order.
fn collect_backfill_targets(reqs: &IdMap<Requirement>) -> (r: Vec<String>)
    ensures
        crate::text::views(r@) == backfill_targets(reqs.view()),
        forall|a: int, b: int| 0 <= a < b < r@.len() ==> crate::text::seq_lt(#[trigger] r@[a]@, #[trigger] r@[b]@),
        forall|a: int| 0 <= a < r@.len() ==> has_key(reqs.view(), #[trigger] r@[a]@),
{
    let n = reqs.len();
    let ghost s = reqs.view();
    let mut out: Vec<String> = Vec::new();
    let mut i: usize = 0;
    while i < n
        invariant
            n == s.len(),
            s == reqs.view(),
            crate::idmap::keys_sorted(s),
            i <= n,
            crate::text::views(out@) == backfill_targets(s.take(i as int)),
            forall|a: int, b: int| 0 <= a < b < out@.len() ==> crate::text::seq_lt(#[trigger] out@[a]@, #[trigger] out@[b]@),
            forall|a: int| 0 <= a < out@.len() ==> key_before(s, i as int, #[trigger] out@[a]@),
        decreases n - i,
    {
        let r = reqs.at(i);
        assert(s.take(i as int + 1).drop_last() =~= s.take(i as int));
        assert(s.take(i as int + 1).last() == s[i as int]);
        let needs = matches!(r.status, Status::Verified) && !match &r.validation {
            Some(v) => v.passed(),
            None => false,
        };
        if needs {
            let ghost before = out@;
            proof {
                assert forall|a: int| 0 <= a < before.len() implies crate::text::seq_lt(before[a]@, r.id@) by {
                    let q = choose|q: int| 0 <= q < i && #[trigger] s[q].key() == before[a]@;
                    assert(crate::text::seq_lt(s[q].key(), s[i as int].key()));
                }
            }
            out.push(r.id.clone());
            proof {
                assert(crate::text::views(out@) =~= crate::text::views(before).push(r.id@));
                assert forall|a: int| 0 <= a < out@.len() implies key_before(s, i + 1, #[trigger] out@[a]@) by {
                    if a < before.len() {
                        let q = choose|q: int| 0 <= q < i && #[trigger] s[q].key() == before[a]@;
                        assert(s[q].key() == out@[a]@);
                    } else {
                        assert(s[i as int].key() == out@[a]@);
                    }
                }
            }
        }
        i = i + 1;
    }
    assert(s.take(n as int) =~= s);
    proof {
        assert forall|a: int| 0 <= a < out@.len() implies has_key(reqs.view(), #[trigger] out@[a]@) by {
            let q = choose|q: int| 0 <= q < n && #[trigger] s[q].key() == out@[a]@;
        }
    }
    out
}


// ---------------------------------------------------------------------------
// Guidance when the dossier gate blocks a promotion
// ---------------------------------------------------------------------------

/// The three routes to Verified when the dossier gate blocks item `id`.
pub open spec fn routes_spec(id: Seq<char>) -> Seq<Seq<char>> {
    seq![
        "dossier: run `req validation plan "@ + id + " ...` → analysis → test → conclude --promote"@,
        "waiver: pass --no-dossier --reason \"...\" to record an audited exemption"@,
        "exempt: tag "@ + id + " `"@ + crate::model::DEFAULT_VALIDATION_EXEMPT_TAG@ + "` to exclude it from the dossier gate"@,
    ]
}

/// The legal routes to Verified when the dossier gate blocks a promotion,
/// as separate lines so every surface lists the same ones.
pub fn promotion_routes(id: &str) -> (r: Vec<String>)
    ensures
        crate::text::views(r@) == routes_spec(id@),
{
    let mut a = text("dossier: run `req validation plan ");
    a.append(id);
    a.append(" ...` → analysis → test → conclude --promote");
    let b = text("waiver: pass --no-dossier --reason \"...\" to record an audited exemption");
    let mut c = text("exempt: tag ");
    c.append(id);
    c.append(" `");
    c.append(crate::model::DEFAULT_VALIDATION_EXEMPT_TAG);
    c.append("` to exclude it from the dossier gate");
    let v = vec![a, b, c];
    assert(crate::text::views(v@) =~= routes_spec(id@));
    v
}

/// The whole refusal, built from the routes so the two never disagree.
pub open spec fn blocked_message_spec(id: Seq<char>) -> Seq<char> {
    id + " cannot be promoted to Verified without a passing validation dossier. Choose one of:\n  - "@
        + crate::text::join_seq(routes_spec(id), "\n  - "@)
}

/// The message that refuses promoting `id` without a passing dossier.
pub fn promotion_blocked_message(id: &str) -> (r: String)
    ensures
        r@ == blocked_message_spec(id@),
{
    let mut m = text(id);
    m.append(" cannot be promoted to Verified without a passing validation dossier. Choose one of:\n  - ");
    let routes = promotion_routes(id);
    let joined = crate::text::join(&routes, "\n  - ");
    m.append(joined.as_str());
    m
}


/// The SIL-rigour gate's strong evidence is exactly a passing record made
/// by an automated test or by composition: a failed record, or inspection,
/// never counts.
pub proof fn lemma_strong_means_passing(tests: Seq<TestRecord>)
    ensures
        has_strong_spec(tests) <==> exists|i: int| 0 <= i < tests.len() && (#[trigger] tests[i]).outcome == TestOutcome::Pass
            && (tests[i].kind == EvidenceKind::Automated || tests[i].kind == EvidenceKind::Composition),
        (forall|i: int| 0 <= i < tests.len() ==> (#[trigger] tests[i]).outcome != TestOutcome::Pass) ==> !has_strong_spec(tests),
{
    if has_strong_spec(tests) {
        let i = choose|i: int| 0 <= i < tests.len() && is_strong(#[trigger] tests[i]);
        assert(tests[i].outcome == TestOutcome::Pass);
    }
    if exists|i: int| 0 <= i < tests.len() && (#[trigger] tests[i]).outcome == TestOutcome::Pass
        && (tests[i].kind == EvidenceKind::Automated || tests[i].kind == EvidenceKind::Composition) {
        let i = choose|i: int| 0 <= i < tests.len() && (#[trigger] tests[i]).outcome == TestOutcome::Pass
            && (tests[i].kind == EvidenceKind::Automated || tests[i].kind == EvidenceKind::Composition);
        assert(is_strong(tests[i]));
    }
}

} // verus!
