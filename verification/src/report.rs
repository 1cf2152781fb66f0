//! The true-status report: how many Verified items rest on each kind of
//! provenance, and the unvalidated surface grouped by how far each dossier
//! progressed.
use vstd::prelude::*;

use crate::idmap::{keys_sorted, IdMap, Keyed};
use crate::model::{Project, Requirement, SafetyRequirement};
use crate::provenance::{provenance_report, req_rows, row_view, sr_rows, Provenance, ProvenanceRow, SourceProbe};
use crate::text::{chars_lt, chars_of, seq_lt, views};
use crate::validation::{unvalidated_stage, unvalidated_stage_spec};

verus! {

/// How many rows carry provenance `p`.
pub open spec fn count_with(rows: Seq<Provenance>, p: Provenance) -> nat
    decreases rows.len(),
{
    if rows.len() == 0 {
        0
    } else {
        count_with(rows.drop_last(), p) + if rows.last() == p { 1nat } else { 0nat }
    }
}

/// The provenances of report rows.
pub open spec fn provenances(rows: Seq<ProvenanceRow>) -> Seq<Provenance> {
    rows.map_values(|r: ProvenanceRow| r.provenance)
}

/// The headline counts of the report, one per provenance.
#[derive(Copy, Clone, Debug, PartialEq, Eq, Structural)]
pub struct ProvenanceCounts {
    pub genuine: usize,
    pub backfilled: usize,
    pub no_dossier: usize,
    pub stale: usize,
    pub unconfirmed: usize,
    pub ungated: usize,
}

impl ProvenanceCounts {
    pub open spec fn total(self) -> int {
        self.genuine + self.backfilled + self.no_dossier + self.stale + self.unconfirmed + self.ungated
    }
}

/// Each count is the number of rows with that provenance.
pub open spec fn counts_of(c: ProvenanceCounts, rows: Seq<Provenance>) -> bool {
    &&& c.genuine == count_with(rows, Provenance::Genuine)
    &&& c.backfilled == count_with(rows, Provenance::ExemptBackfilled)
    &&& c.no_dossier == count_with(rows, Provenance::ExemptNoDossier)
    &&& c.stale == count_with(rows, Provenance::Stale)
    &&& c.unconfirmed == count_with(rows, Provenance::Unconfirmed)
    &&& c.ungated == count_with(rows, Provenance::Ungated)
}

/// Every row falls in exactly one bucket: the counts add up to the rows.
pub proof fn lemma_counts_partition(rows: Seq<Provenance>)
    ensures
        count_with(rows, Provenance::Genuine) + count_with(rows, Provenance::ExemptBackfilled)
            + count_with(rows, Provenance::ExemptNoDossier) + count_with(rows, Provenance::Stale)
            + count_with(rows, Provenance::Unconfirmed) + count_with(rows, Provenance::Ungated) == rows.len(),
    decreases rows.len(),
{
    if rows.len() > 0 {
        lemma_counts_partition(rows.drop_last());
    }
}

/// Count the report rows by provenance.
pub fn count_provenance(rows: &Vec<ProvenanceRow>) -> (c: ProvenanceCounts)
    ensures
        counts_of(c, provenances(rows@)),
        c.total() == rows@.len(),
{
    let mut c = ProvenanceCounts { genuine: 0, backfilled: 0, no_dossier: 0, stale: 0, unconfirmed: 0, ungated: 0 };
    let mut i: usize = 0;
    while i < rows.len()
        invariant
            i <= rows@.len(),
            counts_of(c, provenances(rows@.take(i as int))),
            c.total() == i,
        decreases rows@.len() - i,
    {
        let ghost pre = provenances(rows@.take(i as int));
        let ghost nxt = provenances(rows@.take(i + 1));
        assert(nxt.drop_last() =~= pre);
        assert(nxt.last() == rows@[i as int].provenance);
        match rows[i].provenance {
            Provenance::Genuine => c.genuine = c.genuine + 1,
            Provenance::ExemptBackfilled => c.backfilled = c.backfilled + 1,
            Provenance::ExemptNoDossier => c.no_dossier = c.no_dossier + 1,
            Provenance::Stale => c.stale = c.stale + 1,
            Provenance::Unconfirmed => c.unconfirmed = c.unconfirmed + 1,
            Provenance::Ungated => c.ungated = c.ungated + 1,
        }
        i = i + 1;
    }
    assert(rows@.take(rows@.len() as int) =~= rows@);
    c
}

/// One item without a passing validation: its id, family and stage.
pub struct UnvalidatedRow {
    pub id: String,
    pub family: &'static str,
    pub stage: &'static str,
}

pub open spec fn unval_view(r: UnvalidatedRow) -> (Seq<char>, Seq<char>, Seq<char>) {
    (r.id@, r.family@, r.stage@)
}

/// The unvalidated requirements among `reqs`, in order.
pub open spec fn req_unvalidated(reqs: Seq<Requirement>) -> Seq<(Seq<char>, Seq<char>, Seq<char>)>
    decreases reqs.len(),
{
    if reqs.len() == 0 {
        Seq::empty()
    } else {
        let rest = req_unvalidated(reqs.drop_last());
        let r = reqs.last();
        match unvalidated_stage_spec(r.status, r.validation) {
            Some(s) => rest.push((r.id@, "requirement"@, s)),
            None => rest,
        }
    }
}

/// The unvalidated safety requirements among `srs`, in order.
pub open spec fn sr_unvalidated(srs: Seq<SafetyRequirement>) -> Seq<(Seq<char>, Seq<char>, Seq<char>)>
    decreases srs.len(),
{
    if srs.len() == 0 {
        Seq::empty()
    } else {
        let rest = sr_unvalidated(srs.drop_last());
        let r = srs.last();
        match unvalidated_stage_spec(r.status, r.validation) {
            Some(s) => rest.push((r.id@, "safety-requirement"@, s)),
            None => rest,
        }
    }
}

/// The stable merge of two lists by id: on equal ids the first list's row
/// comes first, so merging two id-ordered lists gives one id-ordered list.
pub open spec fn merge_by_id(a: Seq<(Seq<char>, Seq<char>, Seq<char>)>, b: Seq<(Seq<char>, Seq<char>, Seq<char>)>)
    -> Seq<(Seq<char>, Seq<char>, Seq<char>)>
    decreases a.len() + b.len(),
{
    if a.len() == 0 {
        b
    } else if b.len() == 0 {
        a
    } else if !seq_lt(b[0].0, a[0].0) {
        seq![a[0]] + merge_by_id(a.drop_first(), b)
    } else {
        seq![b[0]] + merge_by_id(a, b.drop_first())
    }
}

fn unvalidated_reqs(reqs: &IdMap<Requirement>) -> (r: Vec<UnvalidatedRow>)
    ensures
        r@.map_values(|x: UnvalidatedRow| unval_view(x)) == req_unvalidated(reqs.view()),
{
    let n = reqs.len();
    let ghost s = reqs.view();
    let mut out: Vec<UnvalidatedRow> = Vec::new();
    let mut i: usize = 0;
    while i < n
        invariant
            n == s.len(),
            s == reqs.view(),
            i <= n,
            out@.map_values(|x: UnvalidatedRow| unval_view(x)) == req_unvalidated(s.take(i as int)),
        decreases n - i,
    {
        let r = reqs.at(i);
        assert(s.take(i as int + 1).drop_last() =~= s.take(i as int));
        assert(s.take(i as int + 1).last() == s[i as int]);
        let ghost before = out@;
        match unvalidated_stage(r.status, r.validation.as_ref()) {
            Some(stage) => {
                out.push(UnvalidatedRow { id: r.id.clone(), family: "requirement", stage });
                assert(out@.map_values(|x: UnvalidatedRow| unval_view(x)) =~= before.map_values(|x: UnvalidatedRow| unval_view(x)).push(
                    (r.id@, "requirement"@, stage@)));
            },
            None => {},
        }
        i = i + 1;
    }
    assert(s.take(n as int) =~= s);
    out
}

fn unvalidated_srs(srs: &IdMap<SafetyRequirement>) -> (r: Vec<UnvalidatedRow>)
    ensures
        r@.map_values(|x: UnvalidatedRow| unval_view(x)) == sr_unvalidated(srs.view()),
{
    let n = srs.len();
    let ghost s = srs.view();
    let mut out: Vec<UnvalidatedRow> = Vec::new();
    let mut i: usize = 0;
    while i < n
        invariant
            n == s.len(),
            s == srs.view(),
            i <= n,
            out@.map_values(|x: UnvalidatedRow| unval_view(x)) == sr_unvalidated(s.take(i as int)),
        decreases n - i,
    {
        let r = srs.at(i);
        assert(s.take(i as int + 1).drop_last() =~= s.take(i as int));
        assert(s.take(i as int + 1).last() == s[i as int]);
        let ghost before = out@;
        match unvalidated_stage(r.status, r.validation.as_ref()) {
            Some(stage) => {
                out.push(UnvalidatedRow { id: r.id.clone(), family: "safety-requirement", stage });
                assert(out@.map_values(|x: UnvalidatedRow| unval_view(x)) =~= before.map_values(|x: UnvalidatedRow| unval_view(x)).push(
                    (r.id@, "safety-requirement"@, stage@)));
            },
            None => {},
        }
        i = i + 1;
    }
    assert(s.take(n as int) =~= s);
    out
}

/// Every requirement and safety requirement that has not reached a passing
/// validation, with how far its dossier progressed, in id order.
pub fn unvalidated_rows(project: &Project) -> (rows: Vec<UnvalidatedRow>)
    ensures
        rows@.map_values(|x: UnvalidatedRow| unval_view(x)) == merge_by_id(
            req_unvalidated(project.requirements.view()),
            sr_unvalidated(project.safety_requirements.view()),
        ),
{
    let a = unvalidated_reqs(&project.requirements);
    let b = unvalidated_srs(&project.safety_requirements);
    let ghost av = a@.map_values(|x: UnvalidatedRow| unval_view(x));
    let ghost bv = b@.map_values(|x: UnvalidatedRow| unval_view(x));
    let mut out: Vec<UnvalidatedRow> = Vec::new();
    let mut i: usize = 0;
    let mut j: usize = 0;
    assert(av.skip(0) =~= av);
    assert(bv.skip(0) =~= bv);
    assert(out@.map_values(|x: UnvalidatedRow| unval_view(x)) =~= Seq::<(Seq<char>, Seq<char>, Seq<char>)>::empty());
    while i < a.len() || j < b.len()
        invariant
            i <= a@.len(),
            j <= b@.len(),
            av == a@.map_values(|x: UnvalidatedRow| unval_view(x)),
            bv == b@.map_values(|x: UnvalidatedRow| unval_view(x)),
            out@.map_values(|x: UnvalidatedRow| unval_view(x)) + merge_by_id(av.skip(i as int), bv.skip(j as int)) == merge_by_id(av, bv),
        decreases a@.len() + b@.len() - i - j,
    {
        let ghost before = out@;
        let ghost ra = av.skip(i as int);
        let ghost rb = bv.skip(j as int);
        let take_a = if i == a.len() {
            false
        } else if j == b.len() {
            true
        } else {
            let ai = chars_of(a[i].id.as_str());
            let bj = chars_of(b[j].id.as_str());
            !chars_lt(&bj, &ai)
        };
        if take_a {
            let r = &a[i];
            out.push(UnvalidatedRow { id: r.id.clone(), family: r.family, stage: r.stage });
            proof {
                assert(ra.drop_first() =~= av.skip(i + 1));
                if rb.len() == 0 {
                    assert(merge_by_id(ra, rb) == ra);
                    assert(ra =~= seq![ra[0]] + ra.drop_first());
                    assert(merge_by_id(ra.drop_first(), rb) == ra.drop_first());
                }
                assert(out@.map_values(|x: UnvalidatedRow| unval_view(x)) =~= before.map_values(|x: UnvalidatedRow| unval_view(x)).push(ra[0]));
            }
            i = i + 1;
        } else {
            let r = &b[j];
            out.push(UnvalidatedRow { id: r.id.clone(), family: r.family, stage: r.stage });
            proof {
                assert(rb.drop_first() =~= bv.skip(j + 1));
                if ra.len() == 0 {
                    assert(merge_by_id(ra, rb) == rb);
                    assert(rb =~= seq![rb[0]] + rb.drop_first());
                    assert(merge_by_id(ra, rb.drop_first()) == rb.drop_first());
                }
                assert(out@.map_values(|x: UnvalidatedRow| unval_view(x)) =~= before.map_values(|x: UnvalidatedRow| unval_view(x)).push(rb[0]));
            }
            j = j + 1;
        }
    }
    assert(av.skip(i as int) =~= Seq::<(Seq<char>, Seq<char>, Seq<char>)>::empty());
    assert(bv.skip(j as int) =~= Seq::<(Seq<char>, Seq<char>, Seq<char>)>::empty());
    assert(out@.map_values(|x: UnvalidatedRow| unval_view(x)) =~= merge_by_id(av, bv));
    out
}

/// How many rows are at stage `stage`.
pub open spec fn stage_count(rows: Seq<(Seq<char>, Seq<char>, Seq<char>)>, stage: Seq<char>) -> nat
    decreases rows.len(),
{
    if rows.len() == 0 {
        0
    } else {
        stage_count(rows.drop_last(), stage) + if rows.last().2 == stage { 1nat } else { 0nat }
    }
}

/// Count the unvalidated rows at one stage.
pub fn count_at_stage(rows: &Vec<UnvalidatedRow>, stage: &str) -> (n: usize)
    ensures
        n == stage_count(rows@.map_values(|x: UnvalidatedRow| unval_view(x)), stage@),
{
    let ghost v = rows@.map_values(|x: UnvalidatedRow| unval_view(x));
    let mut n: usize = 0;
    let mut i: usize = 0;
    while i < rows.len()
        invariant
            i <= rows@.len(),
            v == rows@.map_values(|x: UnvalidatedRow| unval_view(x)),
            n == stage_count(v.take(i as int), stage@),
            n <= i,
        decreases rows@.len() - i,
    {
        assert(v.take(i + 1).drop_last() =~= v.take(i as int));
        if crate::text::str_eq(rows[i].stage, stage) {
            n = n + 1;
        }
        i = i + 1;
    }
    assert(v.take(rows@.len() as int) =~= v);
    n
}

/// The ids of the safety requirements `s`, in order.
pub open spec fn sr_ids(s: Seq<SafetyRequirement>) -> Seq<Seq<char>> {
    s.map_values(|x: SafetyRequirement| x.id@)
}

/// Every safety requirement's id, none omitted, in id order.
pub fn sr_list(project: &Project) -> (r: Vec<String>)
    ensures
        views(r@) == sr_ids(project.safety_requirements.view()),
        forall|i: int, j: int| 0 <= i < j < r@.len() ==> seq_lt(#[trigger] r@[i]@, #[trigger] r@[j]@),
{
    let ghost s = project.safety_requirements.view();
    let n = project.safety_requirements.len();
    let mut out: Vec<String> = Vec::new();
    let mut i: usize = 0;
    while i < n
        invariant
            n == s.len(),
            s == project.safety_requirements.view(),
            keys_sorted(s),
            i <= n,
            views(out@) =~= sr_ids(s.take(i as int)),
        decreases n - i,
    {
        let sr = project.safety_requirements.at(i);
        out.push(sr.id.clone());
        assert(sr_ids(s.take(i + 1)) =~= sr_ids(s.take(i as int)).push(s[i as int].id@));
        i = i + 1;
    }
    assert(s.take(n as int) =~= s);
    assert forall|i: int, j: int| 0 <= i < j < out@.len() implies seq_lt(#[trigger] out@[i]@, #[trigger] out@[j]@) by {
        assert(out@[i]@ == views(out@)[i] && out@[j]@ == views(out@)[j]);
        assert(s[i].key() == s[i].id@ && s[j].key() == s[j].id@);
    }
    out
}

/// What `req validation report` shows: the provenance of every Verified
/// item with the headline counts, the unvalidated surface, and every safety
/// requirement.
pub struct ValidationReport {
    pub rows: Vec<ProvenanceRow>,
    pub counts: ProvenanceCounts,
    pub unvalidated: Vec<UnvalidatedRow>,
    pub safety_requirements: Vec<String>,
}

/// Assemble the validation report from a project it only reads.
pub fn validation_report(project: &Project, probes: Option<&IdMap<SourceProbe>>) -> (r: ValidationReport)
    ensures
        r.rows@.map_values(|x: ProvenanceRow| row_view(x)) == req_rows(
            project.requirements.view(),
            match probes { Some(m) => Some(m.view()), None => None },
        ) + sr_rows(
            *project,
            project.safety_requirements.view(),
            match probes { Some(m) => Some(m.view()), None => None },
        ),
        counts_of(r.counts, provenances(r.rows@)),
        r.counts.total() == r.rows@.len(),
        r.unvalidated@.map_values(|x: UnvalidatedRow| unval_view(x)) == merge_by_id(
            req_unvalidated(project.requirements.view()),
            sr_unvalidated(project.safety_requirements.view()),
        ),
        views(r.safety_requirements@) == sr_ids(project.safety_requirements.view()),
{
    let rows = provenance_report(project, probes);
    let counts = count_provenance(&rows);
    let unvalidated = unvalidated_rows(project);
    let safety_requirements = sr_list(project);
    ValidationReport { rows, counts, unvalidated, safety_requirements }
}

/// The dossier stages of the unvalidated surface, from least to most
/// advanced.
pub open spec fn stage_names_spec() -> Seq<Seq<char>> {
    seq!["no-plan"@, "plan-only"@, "analysis-failing"@, "analysed-untested"@, "tested-failing"@, "ready-to-conclude"@]
}

/// The dossier stages of the unvalidated surface, in report order.
pub fn stage_names() -> (r: Vec<String>)
    ensures
        views(r@) == stage_names_spec(),
{
    let mut v: Vec<String> = Vec::new();
    v.push(String::from_str("no-plan"));
    v.push(String::from_str("plan-only"));
    v.push(String::from_str("analysis-failing"));
    v.push(String::from_str("analysed-untested"));
    v.push(String::from_str("tested-failing"));
    v.push(String::from_str("ready-to-conclude"));
    assert(views(v@) =~= stage_names_spec());
    v
}

} // verus!
