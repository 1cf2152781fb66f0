//! Re-normalizing staleness anchors after the anchor hash changed format.
//! An anchor is refreshed only where the source is provably the one it was
//! taken on: its hash under the earlier format still equals the stored one.
//! Safety requirements are never refreshed here; those whose anchor no
//! longer matches wait for a human re-anchor and co-sign.
use vstd::prelude::*;

use crate::idmap::{has_key, keys_sorted, lookup, replaced, IdMap, Keyed};
use crate::model::{Project, Requirement, SafetyRequirement, Status, Validation};
use crate::staleness::{hash_files, hash_input, hex_seq, sha256_of, FileContent};
use crate::text::{str_eq, views};
use crate::validation::{forward_slashed, key_before, opt_view, to_forward_slashes};

verus! {

/// The files behind one item's anchor as they are now, with the hash the
/// earlier anchor format gives for them.
pub struct AnchorProbe {
    pub id: String,
    pub files: Vec<FileContent>,
    pub legacy_hash: String,
}

impl Keyed for AnchorProbe {
    open spec fn key(&self) -> Seq<char> {
        self.id@
    }

    fn key_str(&self) -> (r: &str) {
        self.id.as_str()
    }
}

/// What a refresh found.
pub struct RefreshReport {
    /// Requirements whose source was proven unchanged; their anchor now
    /// holds the current hash and forward-slash paths.
    pub refreshed: Vec<String>,
    /// Verified requirements whose source really changed: left stale.
    pub drifted: Vec<String>,
    /// Verified safety requirements whose anchor no longer matches.
    pub safety_pending: Vec<String>,
}

/// The current hash of a probe's files.
pub open spec fn probe_hash(p: AnchorProbe) -> Seq<char> {
    hex_seq(sha256_of(hash_input(p.files@)))
}

/// The stored anchor of a dossier, if any.
pub open spec fn anchor(v: Option<Validation>) -> Option<Seq<char>> {
    match v {
        Some(d) => opt_view(d.content_hash),
        None => None,
    }
}

/// The anchor paths a refresh records for a probe.
pub open spec fn probe_paths(p: AnchorProbe) -> Seq<Seq<char>> {
    p.files@.map_values(|f: FileContent| forward_slashed(f.path@))
}

#[derive(Copy, Clone, Debug, PartialEq, Eq, Structural)]
pub enum RefreshClass {
    /// Not Verified, not anchored, not probed, or still fresh.
    Skip,
    /// Proven unchanged under the earlier format: re-store the anchor.
    Refresh,
    /// The source changed.
    Drifted,
}

/// How a refresh treats an ordinary requirement.
pub open spec fn req_class(r: Requirement, probes: Seq<AnchorProbe>) -> RefreshClass {
    if r.status != Status::Verified {
        RefreshClass::Skip
    } else {
        match (anchor(r.validation), lookup(probes, r.id@)) {
            (Some(h), Some(p)) => if probe_hash(p) == h {
                RefreshClass::Skip
            } else if p.legacy_hash@ == h {
                RefreshClass::Refresh
            } else {
                RefreshClass::Drifted
            },
            _ => RefreshClass::Skip,
        }
    }
}

/// A Verified safety requirement whose anchor no longer matches its source.
pub open spec fn sr_pending(sr: SafetyRequirement, probes: Seq<AnchorProbe>) -> bool {
    sr.status == Status::Verified && match (anchor(sr.validation), lookup(probes, sr.id@)) {
        (Some(h), Some(p)) => probe_hash(p) != h,
        _ => false,
    }
}

/// The ids of the requirements in class `c`, in id order.
pub open spec fn req_ids_in(reqs: Seq<Requirement>, probes: Seq<AnchorProbe>, c: RefreshClass) -> Seq<Seq<char>>
    decreases reqs.len(),
{
    if reqs.len() == 0 {
        Seq::empty()
    } else {
        let rest = req_ids_in(reqs.drop_last(), probes, c);
        if req_class(reqs.last(), probes) == c { rest.push(reqs.last().id@) } else { rest }
    }
}

/// The ids of the pending safety requirements, in id order.
pub open spec fn pending_ids(srs: Seq<SafetyRequirement>, probes: Seq<AnchorProbe>) -> Seq<Seq<char>>
    decreases srs.len(),
{
    if srs.len() == 0 {
        Seq::empty()
    } else {
        let rest = pending_ids(srs.drop_last(), probes);
        if sr_pending(srs.last(), probes) { rest.push(srs.last().id@) } else { rest }
    }
}

/// `n` is requirement `o` with its anchor re-stored from probe `p`.
pub open spec fn re_anchored(o: Requirement, n: Requirement, p: AnchorProbe) -> bool {
    &&& n == Requirement { validation: n.validation, ..o }
    &&& o.validation.is_some() && n.validation.is_some()
    &&& {
        let ov = o.validation.unwrap();
        let nv = n.validation.unwrap();
        &&& nv == Validation { content_hash: nv.content_hash, linked_files: nv.linked_files, ..ov }
        &&& opt_view(nv.content_hash) == Some(probe_hash(p))
        &&& match nv.linked_files {
            Some(f) => views(f@) == probe_paths(p),
            None => false,
        }
    }
}

/// Whether the stored anchor `stored` still matches the probe's files:
/// compute their hash now and compare.
fn probe_matches(p: &AnchorProbe, stored: &str) -> (b: bool)
    ensures
        b == (probe_hash(*p) == stored@),
{
    let h = hash_files(&p.files);
    str_eq(h.as_str(), stored)
}

fn req_class_of(r: &Requirement, probes: &IdMap<AnchorProbe>) -> (c: RefreshClass)
    ensures
        c == req_class(*r, probes.view()),
{
    if !matches!(r.status, Status::Verified) {
        return RefreshClass::Skip;
    }
    let stored = match &r.validation {
        Some(v) => match &v.content_hash {
            Some(h) => h,
            None => return RefreshClass::Skip,
        },
        None => return RefreshClass::Skip,
    };
    match probes.get(r.id.as_str()) {
        None => RefreshClass::Skip,
        Some(p) => if probe_matches(p, stored.as_str()) {
            RefreshClass::Skip
        } else if str_eq(p.legacy_hash.as_str(), stored.as_str()) {
            RefreshClass::Refresh
        } else {
            RefreshClass::Drifted
        },
    }
}

fn sr_pending_of(sr: &SafetyRequirement, probes: &IdMap<AnchorProbe>) -> (b: bool)
    ensures
        b == sr_pending(*sr, probes.view()),
{
    if !matches!(sr.status, Status::Verified) {
        return false;
    }
    let stored = match &sr.validation {
        Some(v) => match &v.content_hash {
            Some(h) => h,
            None => return false,
        },
        None => return false,
    };
    match probes.get(sr.id.as_str()) {
        None => false,
        Some(p) => !probe_matches(p, stored.as_str()),
    }
}

/// The ids of the requirements in class `c`, in id order, strictly increasing.
fn collect_req_ids(reqs: &IdMap<Requirement>, probes: &IdMap<AnchorProbe>, c: RefreshClass) -> (r: Vec<String>)
    ensures
        views(r@) == req_ids_in(reqs.view(), probes.view(), c),
        forall|a: int, b: int| 0 <= a < b < r@.len() ==> crate::text::seq_lt(#[trigger] r@[a]@, #[trigger] r@[b]@),
        forall|a: int| 0 <= a < r@.len() ==> has_key(reqs.view(), #[trigger] r@[a]@),
{
    let n = reqs.len();
    let ghost s = reqs.view();
    let mut out: Vec<String> = Vec::new();
    let mut i: usize = 0;
    while i < n
        invariant
            n == s.len(),
            s == reqs.view(),
            keys_sorted(s),
            i <= n,
            views(out@) == req_ids_in(s.take(i as int), probes.view(), c),
            forall|a: int, b: int| 0 <= a < b < out@.len() ==> crate::text::seq_lt(#[trigger] out@[a]@, #[trigger] out@[b]@),
            forall|a: int| 0 <= a < out@.len() ==> key_before(s, i as int, #[trigger] out@[a]@),
        decreases n - i,
    {
        let r = reqs.at(i);
        assert(s.take(i as int + 1).drop_last() =~= s.take(i as int));
        assert(s.take(i as int + 1).last() == s[i as int]);
        if req_class_of(r, probes) == c {
            let ghost before = out@;
            proof {
                assert forall|a: int| 0 <= a < before.len() implies crate::text::seq_lt(before[a]@, r.id@) by {
                    let q = choose|q: int| 0 <= q < i && #[trigger] s[q].key() == before[a]@;
                    assert(crate::text::seq_lt(s[q].key(), s[i as int].key()));
                }
            }
            out.push(r.id.clone());
            proof {
                assert(views(out@) =~= views(before).push(r.id@));
                assert forall|a: int| 0 <= a < out@.len() implies key_before(s, i + 1, #[trigger] out@[a]@) by {
                    if a < before.len() {
                        let q = choose|q: int| 0 <= q < i && #[trigger] s[q].key() == before[a]@;
                        assert(s[q].key() == out@[a]@);
                    } else {
                        assert(s[i as int].key() == out@[a]@);
                    }
                }
            }
        }
        i = i + 1;
    }
    assert(s.take(n as int) =~= s);
    proof {
        assert forall|a: int| 0 <= a < out@.len() implies has_key(reqs.view(), #[trigger] out@[a]@) by {
            let q = choose|q: int| 0 <= q < n && #[trigger] s[q].key() == out@[a]@;
        }
    }
    out
}

fn collect_pending(srs: &IdMap<SafetyRequirement>, probes: &IdMap<AnchorProbe>) -> (r: Vec<String>)
    ensures
        views(r@) == pending_ids(srs.view(), probes.view()),
{
    let n = srs.len();
    let ghost s = srs.view();
    let mut out: Vec<String> = Vec::new();
    let mut i: usize = 0;
    while i < n
        invariant
            n == s.len(),
            s == srs.view(),
            i <= n,
            views(out@) == pending_ids(s.take(i as int), probes.view()),
        decreases n - i,
    {
        let sr = srs.at(i);
        assert(s.take(i as int + 1).drop_last() =~= s.take(i as int));
        assert(s.take(i as int + 1).last() == s[i as int]);
        if sr_pending_of(sr, probes) {
            let ghost before = out@;
            out.push(sr.id.clone());
            assert(views(out@) =~= views(before).push(sr.id@));
        }
        i = i + 1;
    }
    assert(s.take(n as int) =~= s);
    out
}

/// The anchor paths of a probe, with forward slashes.
fn probe_path_list(p: &AnchorProbe) -> (r: Vec<String>)
    ensures
        views(r@) == probe_paths(*p),
{
    let mut out: Vec<String> = Vec::new();
    let mut i: usize = 0;
    while i < p.files.len()
        invariant
            i <= p.files@.len(),
            out@.len() == i,
            forall|j: int| 0 <= j < i ==> #[trigger] out@[j]@ == forward_slashed(p.files@[j].path@),
        decreases p.files@.len() - i,
    {
        out.push(to_forward_slashes(p.files[i].path.as_str()));
        i = i + 1;
    }
    assert(views(out@) =~= probe_paths(*p));
    out
}

/// Re-store the anchor of one existing, anchored requirement from its probe.
fn re_anchor_one(project: &mut Project, id: &str, p: &AnchorProbe)
    requires
        has_key(old(project).requirements.view(), id@),
        lookup(old(project).requirements.view(), id@).unwrap().validation.is_some(),
    ensures
        final(project).name == old(project).name,
        final(project).hazards == old(project).hazards,
        final(project).safety_functions == old(project).safety_functions,
        final(project).safety_requirements == old(project).safety_requirements,
        final(project).calibration == old(project).calibration,
        final(project).calibration_label == old(project).calibration_label,
        final(project).updated == old(project).updated,
        has_key(final(project).requirements.view(), id@),
        replaced(old(project).requirements.view(), final(project).requirements.view(),
            lookup(final(project).requirements.view(), id@).unwrap()),
        lookup(final(project).requirements.view(), id@).unwrap().key() == id@,
        re_anchored(lookup(old(project).requirements.view(), id@).unwrap(),
            lookup(final(project).requirements.view(), id@).unwrap(), *p),
{
    let h = hash_files(&p.files);
    let paths = probe_path_list(p);
    let mut r = project.requirements.remove(id).unwrap();
    let mut v = r.validation.take().unwrap();
    v.content_hash = Some(h);
    v.linked_files = Some(paths);
    r.validation = Some(v);
    let ghost mid = project.requirements.view();
    project.requirements.insert(r);
    proof {
        assert(!has_key(mid, id@));
    }
}

/// Refresh the anchors that only the change of hash format made stale, and
/// report those that drifted for real and the safety requirements waiting
/// for a human. `probes` hold, per item id, the files its anchor covers (its
/// recorded list, else those found referencing the id) as they are now;
/// items without a probe are left alone.
pub fn op_refresh_anchors(project: &mut Project, probes: &IdMap<AnchorProbe>) -> (rep: RefreshReport)
    ensures
        views(rep.safety_pending@) == pending_ids(old(project).safety_requirements.view(), probes.view()),
        views(rep.refreshed@) == req_ids_in(old(project).requirements.view(), probes.view(), RefreshClass::Refresh),
        views(rep.drifted@) == req_ids_in(old(project).requirements.view(), probes.view(), RefreshClass::Drifted),
        final(project).name == old(project).name,
        final(project).hazards == old(project).hazards,
        final(project).safety_functions == old(project).safety_functions,
        final(project).safety_requirements == old(project).safety_requirements,
        final(project).calibration == old(project).calibration,
        final(project).calibration_label == old(project).calibration_label,
        final(project).updated == old(project).updated,
        final(project).requirements.view().len() == old(project).requirements.view().len(),
        forall|k: Seq<char>| #[trigger] has_key(final(project).requirements.view(), k) == has_key(old(project).requirements.view(), k),
        forall|k: Seq<char>| views(rep.refreshed@).contains(k) ==> re_anchored(lookup(old(project).requirements.view(), k).unwrap(),
            #[trigger] lookup(final(project).requirements.view(), k).unwrap(), lookup(probes.view(), k).unwrap()),
        forall|k: Seq<char>| !views(rep.refreshed@).contains(k) ==>
            #[trigger] lookup(final(project).requirements.view(), k) == lookup(old(project).requirements.view(), k),
{
    let _ = project.requirements.len();
    let ghost o = *project;
    let safety_pending = collect_pending(&project.safety_requirements, probes);
    let drifted = collect_req_ids(&project.requirements, probes, RefreshClass::Drifted);
    let refreshed = collect_req_ids(&project.requirements, probes, RefreshClass::Refresh);
    let ghost tv = views(refreshed@);
    proof {
        assert forall|a: int, b: int| 0 <= a < b < tv.len() implies tv[a] != tv[b] by {
            crate::text::lemma_lt_irreflexive(tv[a]);
        }
        assert forall|a: int| 0 <= a < tv.len() implies req_class(lookup(o.requirements.view(), #[trigger] tv[a]).unwrap(),
            probes.view()) == RefreshClass::Refresh by {
            lemma_ids_in_class(o.requirements.view(), probes.view(), RefreshClass::Refresh, tv[a]);
        }
    }
    let mut j: usize = 0;
    while j < refreshed.len()
        invariant
            j <= refreshed@.len(),
            tv == views(refreshed@),
            forall|a: int, b: int| 0 <= a < b < tv.len() ==> tv[a] != tv[b],
            forall|a: int| 0 <= a < tv.len() ==> has_key(o.requirements.view(), #[trigger] tv[a]),
            forall|a: int| 0 <= a < tv.len() ==> req_class(lookup(o.requirements.view(), #[trigger] tv[a]).unwrap(),
                probes.view()) == RefreshClass::Refresh,
            project.name == o.name,
            project.hazards == o.hazards,
            project.safety_functions == o.safety_functions,
            project.safety_requirements == o.safety_requirements,
            project.calibration == o.calibration,
            project.calibration_label == o.calibration_label,
            project.updated == o.updated,
            project.requirements.view().len() == o.requirements.view().len(),
            forall|k: Seq<char>| #[trigger] has_key(project.requirements.view(), k) == has_key(o.requirements.view(), k),
            forall|k: Seq<char>| tv.take(j as int).contains(k) ==> re_anchored(lookup(o.requirements.view(), k).unwrap(),
                #[trigger] lookup(project.requirements.view(), k).unwrap(), lookup(probes.view(), k).unwrap()),
            forall|k: Seq<char>| !tv.take(j as int).contains(k) ==>
                #[trigger] lookup(project.requirements.view(), k) == lookup(o.requirements.view(), k),
        decreases refreshed@.len() - j,
    {
        let ghost before = *project;
        let ghost t = tv[j as int];
        assert(!tv.take(j as int).contains(t)) by {
            if tv.take(j as int).contains(t) {
                let a = choose|a: int| 0 <= a < j && tv.take(j as int)[a] == t;
                assert(tv[a] == tv[j as int]);
            }
        }
        assert(lookup(project.requirements.view(), t) == lookup(o.requirements.view(), t));
        assert(req_class(lookup(o.requirements.view(), t).unwrap(), probes.view()) == RefreshClass::Refresh);
        let p = probes.get(refreshed[j].as_str()).unwrap();
        let _ = project.requirements.len();
        re_anchor_one(project, refreshed[j].as_str(), p);
        let _ = project.requirements.len();
        proof {
            let n = lookup(project.requirements.view(), t).unwrap();
            let done = tv.take(j as int + 1);
            assert(done =~= tv.take(j as int).push(t));
            assert forall|k: Seq<char>| #[trigger] has_key(project.requirements.view(), k) == has_key(o.requirements.view(), k) by {
                if k != t {
                    crate::idmap::lemma_replaced_lookup(before.requirements.view(), project.requirements.view(), n, k);
                }
            }
            assert forall|k: Seq<char>| done.contains(k) implies re_anchored(lookup(o.requirements.view(), k).unwrap(),
                #[trigger] lookup(project.requirements.view(), k).unwrap(), lookup(probes.view(), k).unwrap()) by {
                if k != t {
                    crate::idmap::lemma_replaced_lookup(before.requirements.view(), project.requirements.view(), n, k);
                    assert(tv.take(j as int).contains(k));
                }
            }
            assert forall|k: Seq<char>| !done.contains(k) implies
                #[trigger] lookup(project.requirements.view(), k) == lookup(o.requirements.view(), k) by {
                assert(done[j as int] == t);
                crate::idmap::lemma_replaced_lookup(before.requirements.view(), project.requirements.view(), n, k);
                assert(!tv.take(j as int).contains(k));
            }
        }
        j = j + 1;
    }
    assert(tv.take(j as int) =~= tv);
    RefreshReport { refreshed, drifted, safety_pending }
}

/// Every id listed for class `c` names a requirement of that class.
pub proof fn lemma_ids_in_class(reqs: Seq<Requirement>, probes: Seq<AnchorProbe>, c: RefreshClass, k: Seq<char>)
    requires
        keys_sorted(reqs),
        req_ids_in(reqs, probes, c).contains(k),
    ensures
        has_key(reqs, k),
        req_class(lookup(reqs, k).unwrap(), probes) == c,
    decreases reqs.len(),
{
    let rest = req_ids_in(reqs.drop_last(), probes, c);
    assert(keys_sorted(reqs.drop_last()));
    if rest.contains(k) {
        lemma_ids_in_class(reqs.drop_last(), probes, c, k);
        let i = choose|i: int| 0 <= i < reqs.drop_last().len() && #[trigger] reqs.drop_last()[i].key() == k;
        assert(reqs[i].key() == k);
        assert(lookup(reqs.drop_last(), k) == lookup(reqs, k)) by {
            let j = choose|j: int| 0 <= j < reqs.len() && #[trigger] reqs[j].key() == k;
            crate::idmap::lemma_sorted_unique(reqs, i, j);
        }
    } else {
        let last = reqs.len() - 1;
        assert(reqs[last].key() == k);
        let j = choose|j: int| 0 <= j < reqs.len() && #[trigger] reqs[j].key() == k;
        crate::idmap::lemma_sorted_unique(reqs, last, j);
    }
}

} // verus!
