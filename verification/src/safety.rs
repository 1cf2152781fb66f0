//! The functional-safety chain: hazards (HAZ), the safety functions (SF)
//! that mitigate them and the safety requirements (SR) that realize those.
//! Integrity levels are never set by hand: a hazard's required level comes
//! from the risk graph, a safety function's from the hazards it mitigates,
//! a safety requirement's from the safety functions it realizes.
use vstd::prelude::*;

use crate::errors::ReqError;
use crate::idmap::{has_key, lookup, IdMap, Keyed};
use crate::ids::{norm_id, norm_id_spec};
use crate::model::{
    max_sil, max_sil_exec, Hazard, LinkKind, Project, SafetyFunction, SafetyRequirement, Sil, Status,
};
use crate::text::{chars_of, str_eq, string_of, views};

verus! {

/// `sf` has a mitigates-link to `haz`.
pub open spec fn mitigates_spec(sf: SafetyFunction, haz: Seq<char>) -> bool {
    exists|i: int| 0 <= i < sf.links@.len() && (#[trigger] sf.links@[i]).kind == LinkKind::Mitigates && sf.links@[i].target@ == haz
}

/// `sr` has a realizes-link to `sf`.
pub open spec fn realizes_spec(sr: SafetyRequirement, sf: Seq<char>) -> bool {
    exists|i: int| 0 <= i < sr.links@.len() && (#[trigger] sr.links@[i]).kind == LinkKind::Realizes && sr.links@[i].target@ == sf
}

/// Whether a safety function mitigates a hazard.
pub fn mitigates(sf: &SafetyFunction, haz_id: &str) -> (b: bool)
    ensures
        b == mitigates_spec(*sf, haz_id@),
{
    let mut i: usize = 0;
    while i < sf.links.len()
        invariant
            i <= sf.links@.len(),
            forall|j: int| 0 <= j < i ==> !((#[trigger] sf.links@[j]).kind == LinkKind::Mitigates && sf.links@[j].target@ == haz_id@),
        decreases sf.links@.len() - i,
    {
        if sf.links[i].kind == LinkKind::Mitigates && str_eq(sf.links[i].target.as_str(), haz_id) {
            return true;
        }
        i = i + 1;
    }
    false
}

/// Whether a safety requirement realizes a safety function.
pub fn realizes(sr: &SafetyRequirement, sf_id: &str) -> (b: bool)
    ensures
        b == realizes_spec(*sr, sf_id@),
{
    let mut i: usize = 0;
    while i < sr.links.len()
        invariant
            i <= sr.links@.len(),
            forall|j: int| 0 <= j < i ==> !((#[trigger] sr.links@[j]).kind == LinkKind::Realizes && sr.links@[j].target@ == sf_id@),
        decreases sr.links@.len() - i,
    {
        if sr.links[i].kind == LinkKind::Realizes && str_eq(sr.links[i].target.as_str(), sf_id) {
            return true;
        }
        i = i + 1;
    }
    false
}

// ---------------------------------------------------------------------------
// Resolution
// ---------------------------------------------------------------------------

/// Resolve a typed hazard id.
pub fn resolve_haz(project: &Project, raw: &str) -> (r: Result<String, ReqError>)
    ensures
        has_key(project.hazards.view(), norm_id_spec("HAZ"@, raw@)) ==> r.is_ok() && r.unwrap()@ == norm_id_spec("HAZ"@, raw@),
        !has_key(project.hazards.view(), norm_id_spec("HAZ"@, raw@)) ==> match r {
            Err(ReqError::NoSuchHazard { raw: x }) => x@ == raw@,
            _ => false,
        },
{
    let id = norm_id("HAZ", raw);
    if project.hazards.contains_key(id.as_str()) {
        Ok(id)
    } else {
        Err(ReqError::NoSuchHazard { raw: string_of(&chars_of(raw)) })
    }
}

/// Resolve a typed safety-function id.
pub fn resolve_sf(project: &Project, raw: &str) -> (r: Result<String, ReqError>)
    ensures
        has_key(project.safety_functions.view(), norm_id_spec("SF"@, raw@)) ==> r.is_ok() && r.unwrap()@ == norm_id_spec("SF"@, raw@),
        !has_key(project.safety_functions.view(), norm_id_spec("SF"@, raw@)) ==> match r {
            Err(ReqError::NoSuchSafetyFunction { raw: x }) => x@ == raw@,
            _ => false,
        },
{
    let id = norm_id("SF", raw);
    if project.safety_functions.contains_key(id.as_str()) {
        Ok(id)
    } else {
        Err(ReqError::NoSuchSafetyFunction { raw: string_of(&chars_of(raw)) })
    }
}

/// Resolve a typed safety-requirement id.
pub fn resolve_sr(project: &Project, raw: &str) -> (r: Result<String, ReqError>)
    ensures
        has_key(project.safety_requirements.view(), norm_id_spec("SR"@, raw@)) ==> r.is_ok() && r.unwrap()@ == norm_id_spec("SR"@, raw@),
        !has_key(project.safety_requirements.view(), norm_id_spec("SR"@, raw@)) ==> match r {
            Err(ReqError::NoSuchSafetyRequirement { raw: x }) => x@ == raw@,
            _ => false,
        },
{
    let id = norm_id("SR", raw);
    if project.safety_requirements.contains_key(id.as_str()) {
        Ok(id)
    } else {
        Err(ReqError::NoSuchSafetyRequirement { raw: string_of(&chars_of(raw)) })
    }
}

/// A level for display: its name, or a dash when there is none.
pub open spec fn sil_text(s: Option<Sil>) -> Seq<char> {
    match s {
        Some(x) => x.name(),
        None => "—"@,
    }
}

/// Render a level, a dash when there is none.
pub fn sil_str(s: Option<Sil>) -> (r: String)
    ensures
        r@ == sil_text(s),
{
    match s {
        Some(x) => string_of(&chars_of(x.as_str())),
        None => string_of(&chars_of("—")),
    }
}

// ---------------------------------------------------------------------------
// The safety case of one hazard
// ---------------------------------------------------------------------------

/// The safety functions among `sfs` that mitigate `haz`, in order.
pub open spec fn mitigators(sfs: Seq<SafetyFunction>, haz: Seq<char>) -> Seq<SafetyFunction>
    decreases sfs.len(),
{
    if sfs.len() == 0 {
        Seq::empty()
    } else {
        let rest = mitigators(sfs.drop_last(), haz);
        if mitigates_spec(sfs.last(), haz) { rest.push(sfs.last()) } else { rest }
    }
}

/// The safety requirements among `srs` that realize `sf`, in order.
pub open spec fn realizers(srs: Seq<SafetyRequirement>, sf: Seq<char>) -> Seq<SafetyRequirement>
    decreases srs.len(),
{
    if srs.len() == 0 {
        Seq::empty()
    } else {
        let rest = realizers(srs.drop_last(), sf);
        if realizes_spec(srs.last(), sf) { rest.push(srs.last()) } else { rest }
    }
}

/// The most demanding level allocated to any of `sfs`.
pub open spec fn max_allocated(p: Project, sfs: Seq<SafetyFunction>) -> Option<Sil>
    decreases sfs.len(),
{
    if sfs.len() == 0 {
        None
    } else {
        max_sil(max_allocated(p, sfs.drop_last()), p.allocated_sil_spec(sfs.last()))
    }
}

/// For each of `sfs` in turn, the safety requirements realizing it.
pub open spec fn case_srs(p: Project, sfs: Seq<SafetyFunction>) -> Seq<SafetyRequirement>
    decreases sfs.len(),
{
    if sfs.len() == 0 {
        Seq::empty()
    } else {
        case_srs(p, sfs.drop_last()) + realizers(p.safety_requirements.view(), sfs.last().id@)
    }
}

/// How many of `srs` are Verified.
pub open spec fn verified_count(srs: Seq<SafetyRequirement>) -> nat
    decreases srs.len(),
{
    if srs.len() == 0 {
        0
    } else {
        verified_count(srs.drop_last()) + if srs.last().status == Status::Verified { 1nat } else { 0nat }
    }
}

/// What blocks the case: each realizing requirement not yet verified.
pub open spec fn unverified_notes(srs: Seq<SafetyRequirement>) -> Seq<Seq<char>>
    decreases srs.len(),
{
    if srs.len() == 0 {
        Seq::empty()
    } else {
        let rest = unverified_notes(srs.drop_last());
        if srs.last().status == Status::Verified { rest } else { rest.push(srs.last().id@ + " not verified"@) }
    }
}

/// A hazard's allocated level meets its required level; a hazard not yet
/// assessed does not count against adequacy.
pub open spec fn adequate_spec(required: Option<Sil>, allocated: Option<Sil>) -> bool {
    match (required, allocated) {
        (Some(r), Some(a)) => a.rank_of() >= r.rank_of(),
        (Some(_), None) => false,
        (None, _) => true,
    }
}

/// The verdict on one hazard's safety case.
pub struct Verdict {
    pub required: Option<Sil>,
    pub allocated: Option<Sil>,
    pub sr_total: usize,
    pub sr_verified: usize,
    pub adequate: bool,
    pub complete: bool,
    pub blocking: Vec<String>,
}

/// The blocking notes of a hazard's case.
pub open spec fn blocking_spec(p: Project, haz: Seq<char>) -> Seq<Seq<char>> {
    let sfs = mitigators(p.safety_functions.view(), haz);
    let srs = case_srs(p, sfs);
    unverified_notes(srs) + if sfs.len() == 0 {
        seq!["no mitigating safety function"@]
    } else if srs.len() == 0 {
        seq!["no realizing safety requirement"@]
    } else {
        Seq::empty()
    }
}

/// `v` is the verdict on the safety case of hazard `haz`.
pub open spec fn verdict_of(p: Project, haz: Seq<char>, v: Verdict) -> bool {
    let h = lookup(p.hazards.view(), haz).unwrap();
    let sfs = mitigators(p.safety_functions.view(), haz);
    let srs = case_srs(p, sfs);
    &&& v.required == p.required_sil_spec(h)
    &&& v.allocated == max_allocated(p, sfs)
    &&& v.sr_total == srs.len()
    &&& v.sr_verified == verified_count(srs)
    &&& v.adequate == adequate_spec(v.required, v.allocated)
    &&& views(v.blocking@) == blocking_spec(p, haz)
    &&& v.complete == (v.adequate && v.blocking@.len() == 0)
}

fn mitigating(p: &Project, haz_id: &str) -> (r: Vec<usize>)
    ensures
        r@.len() == mitigators(p.safety_functions.view(), haz_id@).len(),
        forall|k: int| 0 <= k < r@.len() ==> (#[trigger] r@[k]) < p.safety_functions.view().len()
            && p.safety_functions.view()[r@[k] as int] == mitigators(p.safety_functions.view(), haz_id@)[k],
{
    let n = p.safety_functions.len();
    let ghost s = p.safety_functions.view();
    let mut out: Vec<usize> = Vec::new();
    let mut i: usize = 0;
    while i < n
        invariant
            n == s.len(),
            s == p.safety_functions.view(),
            i <= n,
            out@.len() == mitigators(s.take(i as int), haz_id@).len(),
            forall|k: int| 0 <= k < out@.len() ==> (#[trigger] out@[k]) < i && s[out@[k] as int] == mitigators(s.take(i as int), haz_id@)[k],
        decreases n - i,
    {
        assert(s.take(i + 1).drop_last() =~= s.take(i as int));
        assert(s.take(i + 1).last() == s[i as int]);
        if mitigates(p.safety_functions.at(i), haz_id) {
            out.push(i);
        }
        i = i + 1;
    }
    assert(s.take(n as int) =~= s);
    out
}

/// The realizing requirements of one safety function, counted into the
/// running totals.
fn tally_realizers(p: &Project, sf_id: &str, total: &mut usize, verified: &mut usize, blocking: &mut Vec<String>)
    requires
        *old(total) + p.safety_requirements.view().len() <= usize::MAX,
        *old(verified) <= *old(total),
    ensures
        *final(total) == *old(total) + realizers(p.safety_requirements.view(), sf_id@).len(),
        *final(verified) == *old(verified) + verified_count(realizers(p.safety_requirements.view(), sf_id@)),
        *final(verified) <= *final(total),
        views(final(blocking)@) == views(old(blocking)@) + unverified_notes(realizers(p.safety_requirements.view(), sf_id@)),
{
    let n = p.safety_requirements.len();
    let ghost s = p.safety_requirements.view();
    let ghost t0 = *total;
    let ghost v0 = *verified;
    let ghost b0 = views(blocking@);
    let mut i: usize = 0;
    while i < n
        invariant
            n == s.len(),
            s == p.safety_requirements.view(),
            i <= n,
            t0 + n <= usize::MAX,
            *total == t0 + realizers(s.take(i as int), sf_id@).len(),
            *verified == v0 + verified_count(realizers(s.take(i as int), sf_id@)),
            verified_count(realizers(s.take(i as int), sf_id@)) <= realizers(s.take(i as int), sf_id@).len(),
            realizers(s.take(i as int), sf_id@).len() <= i,
            v0 <= t0,
            views(blocking@) == b0 + unverified_notes(realizers(s.take(i as int), sf_id@)),
        decreases n - i,
    {
        assert(s.take(i + 1).drop_last() =~= s.take(i as int));
        assert(s.take(i + 1).last() == s[i as int]);
        let sr = p.safety_requirements.at(i);
        if realizes(sr, sf_id) {
            let ghost rs = realizers(s.take(i as int), sf_id@);
            assert(realizers(s.take(i + 1), sf_id@) == rs.push(*sr));
            assert(rs.push(*sr).drop_last() =~= rs);
            *total = *total + 1;
            if matches!(sr.status, Status::Verified) {
                *verified = *verified + 1;
                assert(unverified_notes(rs.push(*sr)) == unverified_notes(rs));
            } else {
                let ghost bb = views(blocking@);
                let mut note = sr.id.clone();
                note.append(" not verified");
                blocking.push(note);
                assert(views(blocking@) =~= bb.push(sr.id@ + " not verified"@));
            }
        }
        i = i + 1;
    }
    assert(s.take(n as int) =~= s);
}

proof fn lemma_case_srs_len(p: Project, sfs: Seq<SafetyFunction>)
    ensures
        case_srs(p, sfs).len() <= sfs.len() * p.safety_requirements.view().len(),
        verified_count(case_srs(p, sfs)) <= case_srs(p, sfs).len(),
    decreases sfs.len(),
{
    if sfs.len() > 0 {
        lemma_case_srs_len(p, sfs.drop_last());
        lemma_realizers_len(p.safety_requirements.view(), sfs.last().id@);
        lemma_verified_concat(case_srs(p, sfs.drop_last()), realizers(p.safety_requirements.view(), sfs.last().id@));
        assert((sfs.len() - 1) * p.safety_requirements.view().len() + p.safety_requirements.view().len()
            == sfs.len() * p.safety_requirements.view().len()) by (nonlinear_arith);
    }
}

proof fn lemma_realizers_len(srs: Seq<SafetyRequirement>, sf: Seq<char>)
    ensures
        realizers(srs, sf).len() <= srs.len(),
        verified_count(realizers(srs, sf)) <= realizers(srs, sf).len(),
    decreases srs.len(),
{
    if srs.len() > 0 {
        lemma_realizers_len(srs.drop_last(), sf);
        let rs = realizers(srs.drop_last(), sf);
        assert(rs.push(srs.last()).drop_last() =~= rs);
    }
}

proof fn lemma_verified_concat(a: Seq<SafetyRequirement>, b: Seq<SafetyRequirement>)
    ensures
        verified_count(a + b) == verified_count(a) + verified_count(b),
        unverified_notes(a + b) == unverified_notes(a) + unverified_notes(b),
    decreases b.len(),
{
    if b.len() > 0 {
        lemma_verified_concat(a, b.drop_last());
        assert((a + b).drop_last() =~= a + b.drop_last());
        assert((a + b).last() == b.last());
        assert(unverified_notes(a + b.drop_last()).push(b.last().id@ + " not verified"@)
            =~= unverified_notes(a) + unverified_notes(b.drop_last()).push(b.last().id@ + " not verified"@));
    } else {
        assert(a + b =~= a);
        assert(unverified_notes(a) + Seq::<Seq<char>>::empty() =~= unverified_notes(a));
    }
}

/// Judge the safety case of an existing hazard: its required level, the
/// level allocated by its mitigating safety functions, whether that is
/// adequate, and whether every realizing safety requirement is verified.
pub fn assess_hazard(project: &Project, haz_id: &str) -> (v: Verdict)
    requires
        has_key(project.hazards.view(), haz_id@),
        project.safety_functions.view().len() * project.safety_requirements.view().len() <= usize::MAX,
    ensures
        verdict_of(*project, haz_id@, v),
{
    let h = project.hazards.get(haz_id).unwrap();
    let required = project.required_sil(h);
    let sfs = mitigating(project, haz_id);
    let ghost ms = mitigators(project.safety_functions.view(), haz_id@);
    let ghost nsr = project.safety_requirements.view().len();
    let mut allocated: Option<Sil> = None;
    let mut total: usize = 0;
    let mut verified: usize = 0;
    let mut blocking: Vec<String> = Vec::new();
    proof {
        lemma_case_srs_len(*project, ms);
        assert(ms.len() <= project.safety_functions.view().len()) by {
            lemma_mitigators_len(project.safety_functions.view(), haz_id@);
        }
        assert(ms.len() * nsr <= project.safety_functions.view().len() * nsr) by (nonlinear_arith)
            requires ms.len() <= project.safety_functions.view().len();
    }
    let mut k: usize = 0;
    while k < sfs.len()
        invariant
            k <= sfs@.len(),
            sfs@.len() == ms.len(),
            ms == mitigators(project.safety_functions.view(), haz_id@),
            nsr == project.safety_requirements.view().len(),
            ms.len() * nsr <= usize::MAX,
            forall|q: int| 0 <= q < sfs@.len() ==> (#[trigger] sfs@[q]) < project.safety_functions.view().len()
                && project.safety_functions.view()[sfs@[q] as int] == ms[q],
            allocated == max_allocated(*project, ms.take(k as int)),
            total == case_srs(*project, ms.take(k as int)).len(),
            verified == verified_count(case_srs(*project, ms.take(k as int))),
            verified <= total,
            total <= k * nsr,
            views(blocking@) == unverified_notes(case_srs(*project, ms.take(k as int))),
        decreases sfs@.len() - k,
    {
        let sf = project.safety_functions.at(sfs[k]);
        assert(ms.take(k + 1).drop_last() =~= ms.take(k as int));
        assert(ms.take(k + 1).last() == ms[k as int]);
        let a = project.allocated_sil(sf);
        allocated = max_sil_exec(allocated, a);
        proof {
            lemma_realizers_len(project.safety_requirements.view(), sf.id@);
            lemma_verified_concat(case_srs(*project, ms.take(k as int)), realizers(project.safety_requirements.view(), sf.id@));
            assert(k * nsr + nsr == (k + 1) * nsr) by (nonlinear_arith);
            assert((k + 1) * nsr <= ms.len() * nsr) by (nonlinear_arith)
                requires k + 1 <= ms.len();
        }
        tally_realizers(project, sf.id.as_str(), &mut total, &mut verified, &mut blocking);
        k = k + 1;
    }
    assert(ms.take(sfs@.len() as int) =~= ms);
    let ghost base = views(blocking@);
    if sfs.len() == 0 {
        blocking.push(string_of(&chars_of("no mitigating safety function")));
        assert(views(blocking@) =~= base + seq!["no mitigating safety function"@]);
    } else if total == 0 {
        blocking.push(string_of(&chars_of("no realizing safety requirement")));
        assert(views(blocking@) =~= base + seq!["no realizing safety requirement"@]);
    } else {
        assert(views(blocking@) =~= base + Seq::<Seq<char>>::empty());
    }
    let adequate = match (required, allocated) {
        (Some(r), Some(a)) => a.rank() >= r.rank(),
        (Some(_), None) => false,
        (None, _) => true,
    };
    let complete = adequate && blocking.len() == 0;
    Verdict { required, allocated, sr_total: total, sr_verified: verified, adequate, complete, blocking }
}

proof fn lemma_mitigators_len(sfs: Seq<SafetyFunction>, haz: Seq<char>)
    ensures
        mitigators(sfs, haz).len() <= sfs.len(),
    decreases sfs.len(),
{
    if sfs.len() > 0 {
        lemma_mitigators_len(sfs.drop_last(), haz);
    }
}


/// Judging a hazard complete means: its levels are adequate, it has a
/// mitigating safety function and a realizing safety requirement, and every
/// realizing safety requirement is verified.
pub proof fn lemma_complete_means(p: Project, haz: Seq<char>, v: Verdict)
    requires
        verdict_of(p, haz, v),
        v.complete,
    ensures
        adequate_spec(v.required, v.allocated),
        mitigators(p.safety_functions.view(), haz).len() > 0,
        case_srs(p, mitigators(p.safety_functions.view(), haz)).len() > 0,
        forall|i: int| 0 <= i < case_srs(p, mitigators(p.safety_functions.view(), haz)).len()
            ==> (#[trigger] case_srs(p, mitigators(p.safety_functions.view(), haz))[i]).status == Status::Verified,
{
    let sfs = mitigators(p.safety_functions.view(), haz);
    let srs = case_srs(p, sfs);
    assert(blocking_spec(p, haz).len() == 0);
    lemma_unverified_empty(srs);
}

proof fn lemma_unverified_empty(srs: Seq<SafetyRequirement>)
    requires
        unverified_notes(srs).len() == 0,
    ensures
        forall|i: int| 0 <= i < srs.len() ==> (#[trigger] srs[i]).status == Status::Verified,
    decreases srs.len(),
{
    if srs.len() > 0 {
        if srs.last().status != Status::Verified {
            assert(unverified_notes(srs).len() > 0);
        }
        lemma_unverified_empty(srs.drop_last());
        assert forall|i: int| 0 <= i < srs.len() implies (#[trigger] srs[i]).status == Status::Verified by {
            if i < srs.len() - 1 {
                assert(srs[i] == srs.drop_last()[i]);
            }
        }
    }
}

// ---------------------------------------------------------------------------
// What `req trace` shows
// ---------------------------------------------------------------------------

/// One part of a trace: the safety case of a hazard, a safety function
/// that mitigates no hazard, or a safety requirement that realizes no
/// safety function.
pub enum TraceItem {
    Hazard(String),
    SfAlone(String),
    SrAlone(String),
}

pub open spec fn item_view(t: TraceItem) -> (nat, Seq<char>) {
    match t {
        TraceItem::Hazard(h) => (0, h@),
        TraceItem::SfAlone(s) => (1, s@),
        TraceItem::SrAlone(s) => (2, s@),
    }
}

/// The targets of `kind` links among `links` that name existing items of
/// `existing`, in link order.
pub open spec fn targets_in<T: Keyed>(links: Seq<crate::model::Link>, kind: LinkKind, existing: Seq<T>) -> Seq<Seq<char>>
    decreases links.len(),
{
    if links.len() == 0 {
        Seq::empty()
    } else {
        let rest = targets_in(links.drop_last(), kind, existing);
        let l = links.last();
        if l.kind == kind && has_key(existing, l.target@) { rest.push(l.target@) } else { rest }
    }
}

/// The trace from an existing safety function: the cases of the hazards it
/// mitigates, or the function alone.
pub open spec fn sf_trace(p: Project, sf: Seq<char>) -> Seq<(nat, Seq<char>)> {
    let hs = targets_in(lookup(p.safety_functions.view(), sf).unwrap().links@, LinkKind::Mitigates, p.hazards.view());
    if hs.len() == 0 { seq![(1nat, sf)] } else { hs.map_values(|h: Seq<char>| (0nat, h)) }
}

/// The traces from each of `sfs` in turn.
pub open spec fn sfs_trace(p: Project, sfs: Seq<Seq<char>>) -> Seq<(nat, Seq<char>)>
    decreases sfs.len(),
{
    if sfs.len() == 0 { Seq::empty() } else { sfs_trace(p, sfs.drop_last()) + sf_trace(p, sfs.last()) }
}

proof fn lemma_targets_exist<T: Keyed>(links: Seq<crate::model::Link>, kind: LinkKind, existing: Seq<T>)
    ensures
        forall|q: int| 0 <= q < targets_in(links, kind, existing).len()
            ==> has_key(existing, #[trigger] targets_in(links, kind, existing)[q]),
    decreases links.len(),
{
    if links.len() > 0 {
        lemma_targets_exist(links.drop_last(), kind, existing);
        let rest = targets_in(links.drop_last(), kind, existing);
        let all = targets_in(links, kind, existing);
        assert forall|q: int| 0 <= q < all.len() implies has_key(existing, #[trigger] all[q]) by {
            if q < rest.len() {
                assert(all[q] == rest[q]);
            }
        }
    }
}

fn targets_of<T: Keyed>(links: &Vec<crate::model::Link>, kind: LinkKind, existing: &IdMap<T>) -> (r: Vec<String>)
    ensures
        views(r@) == targets_in(links@, kind, existing.view()),
{
    let mut out: Vec<String> = Vec::new();
    let mut i: usize = 0;
    while i < links.len()
        invariant
            i <= links@.len(),
            views(out@) == targets_in(links@.take(i as int), kind, existing.view()),
        decreases links@.len() - i,
    {
        assert(links@.take(i + 1).drop_last() =~= links@.take(i as int));
        assert(links@.take(i + 1).last() == links@[i as int]);
        let l = &links[i];
        if l.kind == kind && existing.contains_key(l.target.as_str()) {
            let ghost b = views(out@);
            out.push(l.target.clone());
            assert(views(out@) =~= b.push(l.target@));
        }
        i = i + 1;
    }
    assert(links@.take(links@.len() as int) =~= links@);
    out
}

fn push_sf_trace(out: &mut Vec<TraceItem>, p: &Project, sf_id: &str)
    requires
        has_key(p.safety_functions.view(), sf_id@),
    ensures
        final(out)@.map_values(|t: TraceItem| item_view(t)) == old(out)@.map_values(|t: TraceItem| item_view(t)) + sf_trace(*p, sf_id@),
{
    let ghost o = old(out)@.map_values(|t: TraceItem| item_view(t));
    let sf = p.safety_functions.get(sf_id).unwrap();
    let hs = targets_of(&sf.links, LinkKind::Mitigates, &p.hazards);
    if hs.len() == 0 {
        out.push(TraceItem::SfAlone(string_of(&chars_of(sf_id))));
        assert(out@.map_values(|t: TraceItem| item_view(t)) =~= o + seq![(1nat, sf_id@)]);
        return;
    }
    let mut i: usize = 0;
    while i < hs.len()
        invariant
            i <= hs@.len(),
            out@.map_values(|t: TraceItem| item_view(t)) == o + views(hs@).take(i as int).map_values(|h: Seq<char>| (0nat, h)),
        decreases hs@.len() - i,
    {
        let ghost b = out@.map_values(|t: TraceItem| item_view(t));
        out.push(TraceItem::Hazard(hs[i].clone()));
        assert(views(hs@).take(i + 1).map_values(|h: Seq<char>| (0nat, h))
            =~= views(hs@).take(i as int).map_values(|h: Seq<char>| (0nat, h)).push((0nat, hs@[i as int]@)));
        assert(out@.map_values(|t: TraceItem| item_view(t)) =~= b.push((0nat, hs@[i as int]@)));
        i = i + 1;
    }
    assert(views(hs@).take(hs@.len() as int) =~= views(hs@));
}

/// Where `req trace` leads from a typed id: a `HAZ` id to its case; an `SF`
/// id to the cases of the hazards it mitigates (or the function alone); an
/// `SR` id to the traces of the safety functions it realizes (or the
/// requirement alone). Other ids are refused.
pub fn trace_plan(project: &Project, raw: &str) -> (r: Result<Vec<TraceItem>, ReqError>)
    ensures
        ({
            let up = crate::text::upper_seq(crate::text::trim_seq(raw@));
            if crate::text::is_prefix("HAZ"@, up) {
                match r {
                    Ok(v) => has_key(project.hazards.view(), norm_id_spec("HAZ"@, raw@))
                        && v@.map_values(|t: TraceItem| item_view(t)) == seq![(0nat, norm_id_spec("HAZ"@, raw@))],
                    Err(e) => !has_key(project.hazards.view(), norm_id_spec("HAZ"@, raw@)),
                }
            } else if crate::text::is_prefix("SF"@, up) {
                match r {
                    Ok(v) => has_key(project.safety_functions.view(), norm_id_spec("SF"@, raw@))
                        && v@.map_values(|t: TraceItem| item_view(t)) == sf_trace(*project, norm_id_spec("SF"@, raw@)),
                    Err(e) => !has_key(project.safety_functions.view(), norm_id_spec("SF"@, raw@)),
                }
            } else if crate::text::is_prefix("SR"@, up) {
                match r {
                    Ok(v) => has_key(project.safety_requirements.view(), norm_id_spec("SR"@, raw@)) && {
                        let id = norm_id_spec("SR"@, raw@);
                        let sfs = targets_in(lookup(project.safety_requirements.view(), id).unwrap().links@,
                            LinkKind::Realizes, project.safety_functions.view());
                        v@.map_values(|t: TraceItem| item_view(t)) == if sfs.len() == 0 {
                            seq![(2nat, id)]
                        } else {
                            sfs_trace(*project, sfs)
                        }
                    },
                    Err(e) => !has_key(project.safety_requirements.view(), norm_id_spec("SR"@, raw@)),
                }
            } else {
                match r {
                    Err(ReqError::BadTarget { raw: x }) => x@ == raw@,
                    _ => false,
                }
            }
        }),
{
    let rv = chars_of(raw);
    let t = crate::text::trim(&rv);
    let ts = string_of(&t);
    let up = crate::text::to_upper(ts.as_str());
    let uv = chars_of(up.as_str());
    let mut out: Vec<TraceItem> = Vec::new();
    if crate::text::starts_with(&uv, &chars_of("HAZ")) {
        let id = resolve_haz(project, raw)?;
        let ghost iv = id@;
        out.push(TraceItem::Hazard(id));
        assert(out@.map_values(|t: TraceItem| item_view(t)) =~= seq![(0nat, iv)]);
        Ok(out)
    } else if crate::text::starts_with(&uv, &chars_of("SF")) {
        let id = resolve_sf(project, raw)?;
        assert(out@.map_values(|t: TraceItem| item_view(t)) =~= Seq::<(nat, Seq<char>)>::empty());
        push_sf_trace(&mut out, project, id.as_str());
        assert(out@.map_values(|t: TraceItem| item_view(t)) =~= sf_trace(*project, id@));
        Ok(out)
    } else if crate::text::starts_with(&uv, &chars_of("SR")) {
        let id = resolve_sr(project, raw)?;
        let sr = project.safety_requirements.get(id.as_str()).unwrap();
        let sfs = targets_of(&sr.links, LinkKind::Realizes, &project.safety_functions);
        if sfs.len() == 0 {
            let ghost iv = id@;
            out.push(TraceItem::SrAlone(id));
            assert(out@.map_values(|t: TraceItem| item_view(t)) =~= seq![(2nat, iv)]);
            return Ok(out);
        }
        let ghost sv = views(sfs@);
        proof {
            lemma_targets_exist(sr.links@, LinkKind::Realizes, project.safety_functions.view());
        }
        let mut i: usize = 0;
        assert(out@.map_values(|t: TraceItem| item_view(t)) =~= sfs_trace(*project, sv.take(0)));
        while i < sfs.len()
            invariant
                i <= sfs@.len(),
                sv == views(sfs@),
                sv == targets_in(sr.links@, LinkKind::Realizes, project.safety_functions.view()),
                forall|q: int| 0 <= q < sv.len() ==> has_key(project.safety_functions.view(), #[trigger] sv[q]),
                out@.map_values(|t: TraceItem| item_view(t)) == sfs_trace(*project, sv.take(i as int)),
            decreases sfs@.len() - i,
        {
            assert(sv.take(i + 1).drop_last() =~= sv.take(i as int));
            assert(sv.take(i + 1).last() == sv[i as int]);
            push_sf_trace(&mut out, project, sfs[i].as_str());
            i = i + 1;
        }
        assert(sv.take(sfs@.len() as int) =~= sv);
        Ok(out)
    } else {
        Err(ReqError::BadTarget { raw: string_of(&rv) })
    }
}

} // verus!
