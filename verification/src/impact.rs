//! The read-only impact preview: which safety artifacts' derived level a
//! proposed change would move. The change is staged on the caller's copy of
//! the project, which is consumed and never handed back to be saved.
use vstd::prelude::*;

use crate::cli::ImpactArgs;
use crate::errors::ReqError;
use crate::idmap::{has_key, keys_sorted, lemma_insert_lookup, lemma_sorted_unique, lookup, IdMap, Keyed};
use crate::ids::{norm_id, norm_id_spec};
use crate::model::{Avoidance, CalibrationEntry, CalibrationRow, Consequence, Frequency, Hazard, Link, LinkKind, Probability, Project, SafetyFunction, SafetyRequirement, Sil};
use crate::safety_gov::{avoidance_of, cal_error, canon, consequence_of, frequency_of, parse_c, parse_f, parse_p, parse_set, parse_w, probability_of, row_at, set_spec, CalFault, Parsed};
use crate::text::{chars_of, seq_lt, split_char, split_on, split_once_char, split_once_spec, string_of, trim, trim_seq, views};

verus! {

/// One artifact's derived level in a snapshot.
pub struct SnapEntry {
    pub id: String,
    pub sil: Option<Sil>,
}

impl Keyed for SnapEntry {
    open spec fn key(&self) -> Seq<char> {
        self.id@
    }

    fn key_str(&self) -> (r: &str) {
        self.id.as_str()
    }
}

/// The derived level of artifact `k`, as a map keyed by id holding every
/// hazard (its required level), then every safety function (allocated),
/// then every safety requirement (inherited) would have it: a later family
/// wins on a shared id. None when no artifact has that id.
pub open spec fn snap_spec(p: Project, k: Seq<char>) -> Option<Option<Sil>> {
    match lookup(p.safety_requirements.view(), k) {
        Some(sr) => Some(p.inherited_sil_spec(sr)),
        None => match lookup(p.safety_functions.view(), k) {
            Some(sf) => Some(p.allocated_sil_spec(sf)),
            None => match lookup(p.hazards.view(), k) {
                Some(h) => Some(p.required_sil_spec(h)),
                None => None,
            },
        },
    }
}

/// The level a snapshot holds for `k`, if it holds `k`.
pub open spec fn val_at(s: Seq<SnapEntry>, k: Seq<char>) -> Option<Option<Sil>> {
    match lookup(s, k) {
        Some(e) => Some(e.sil),
        None => None,
    }
}

/// In a sorted map, an entry's own key finds it.
pub proof fn lemma_lookup_own<T: Keyed>(s: Seq<T>, i: int)
    requires
        keys_sorted(s),
        0 <= i < s.len(),
    ensures
        has_key(s, s[i].key()),
        lookup(s, s[i].key()) == Some(s[i]),
{
    let k = s[i].key();
    assert(s[i].key() == k);
    let j = choose|j: int| 0 <= j < s.len() && #[trigger] s[j].key() == k;
    lemma_sorted_unique(s, j, i);
}

/// A key of the first `i + 1` entries is a key of the first `i` or the
/// key of entry `i`.
pub proof fn lemma_take_key<T: Keyed>(s: Seq<T>, i: int, k: Seq<char>)
    requires
        0 <= i < s.len(),
    ensures
        has_key(s.take(i + 1), k) <==> (has_key(s.take(i), k) || s[i].key() == k),
{
    if has_key(s.take(i + 1), k) {
        let j = choose|j: int| 0 <= j < s.take(i + 1).len() && #[trigger] s.take(i + 1)[j].key() == k;
        if j < i {
            assert(s.take(i)[j] == s[j]);
        }
    }
    if has_key(s.take(i), k) {
        let j = choose|j: int| 0 <= j < s.take(i).len() && #[trigger] s.take(i)[j].key() == k;
        assert(s.take(i + 1)[j] == s.take(i)[j]);
    }
    if s[i].key() == k {
        assert(s.take(i + 1)[i] == s[i]);
    }
}

/// One entry inserted into the snapshot: its own key now finds the new
/// level, every other key what it found before.
proof fn lemma_snap_insert(before: Seq<SnapEntry>, after: Seq<SnapEntry>, e: SnapEntry, k: Seq<char>)
    requires
        keys_sorted(before),
        keys_sorted(after),
        lookup(after, e.key()) == Some(e),
        forall|x: SnapEntry| #[trigger] after.contains(x) <==> (x == e || (before.contains(x) && x.key() != e.key())),
    ensures
        val_at(after, k) == if k == e.id@ { Some(e.sil) } else { val_at(before, k) },
{
    if k != e.id@ {
        lemma_insert_lookup(before, after, e, k);
    }
}

fn add_hazards(p: &Project, snap: &mut IdMap<SnapEntry>)
    ensures
        forall|k: Seq<char>| #[trigger] val_at(final(snap).view(), k) == if has_key(p.hazards.view(), k) {
            Some(p.required_sil_spec(lookup(p.hazards.view(), k).unwrap()))
        } else {
            val_at(old(snap).view(), k)
        },
{
    let ghost start = snap.view();
    let ghost fam = p.hazards.view();
    let n = p.hazards.len();
    let mut i: usize = 0;
    while i < n
        invariant
            n == fam.len(),
            fam == p.hazards.view(),
            keys_sorted(fam),
            i <= n,
            forall|k: Seq<char>| #[trigger] val_at(snap.view(), k) == if has_key(fam.take(i as int), k) {
                Some(p.required_sil_spec(lookup(fam, k).unwrap()))
            } else {
                val_at(start, k)
            },
        decreases n - i,
    {
        let h = p.hazards.at(i);
        let e = SnapEntry { id: h.id.clone(), sil: p.required_sil(h) };
        let ghost ev = e;
        let ghost before = snap.view();
        let _ = snap.len();
        snap.insert(e);
        let _ = snap.len();
        proof {
            lemma_lookup_own(fam, i as int);
            assert forall|k: Seq<char>| #[trigger] val_at(snap.view(), k) == if has_key(fam.take(i + 1), k) {
                Some(p.required_sil_spec(lookup(fam, k).unwrap()))
            } else {
                val_at(start, k)
            } by {
                lemma_snap_insert(before, snap.view(), ev, k);
                lemma_take_key(fam, i as int, k);
            }
        }
        i = i + 1;
    }
    assert(fam.take(n as int) =~= fam);
}

fn add_functions(p: &Project, snap: &mut IdMap<SnapEntry>)
    ensures
        forall|k: Seq<char>| #[trigger] val_at(final(snap).view(), k) == if has_key(p.safety_functions.view(), k) {
            Some(p.allocated_sil_spec(lookup(p.safety_functions.view(), k).unwrap()))
        } else {
            val_at(old(snap).view(), k)
        },
{
    let ghost start = snap.view();
    let ghost fam = p.safety_functions.view();
    let n = p.safety_functions.len();
    let mut i: usize = 0;
    while i < n
        invariant
            n == fam.len(),
            fam == p.safety_functions.view(),
            keys_sorted(fam),
            i <= n,
            forall|k: Seq<char>| #[trigger] val_at(snap.view(), k) == if has_key(fam.take(i as int), k) {
                Some(p.allocated_sil_spec(lookup(fam, k).unwrap()))
            } else {
                val_at(start, k)
            },
        decreases n - i,
    {
        let sf = p.safety_functions.at(i);
        let e = SnapEntry { id: sf.id.clone(), sil: p.allocated_sil(sf) };
        let ghost ev = e;
        let ghost before = snap.view();
        let _ = snap.len();
        snap.insert(e);
        let _ = snap.len();
        proof {
            lemma_lookup_own(fam, i as int);
            assert forall|k: Seq<char>| #[trigger] val_at(snap.view(), k) == if has_key(fam.take(i + 1), k) {
                Some(p.allocated_sil_spec(lookup(fam, k).unwrap()))
            } else {
                val_at(start, k)
            } by {
                lemma_snap_insert(before, snap.view(), ev, k);
                lemma_take_key(fam, i as int, k);
            }
        }
        i = i + 1;
    }
    assert(fam.take(n as int) =~= fam);
}

fn add_requirements(p: &Project, snap: &mut IdMap<SnapEntry>)
    ensures
        forall|k: Seq<char>| #[trigger] val_at(final(snap).view(), k) == if has_key(p.safety_requirements.view(), k) {
            Some(p.inherited_sil_spec(lookup(p.safety_requirements.view(), k).unwrap()))
        } else {
            val_at(old(snap).view(), k)
        },
{
    let ghost start = snap.view();
    let ghost fam = p.safety_requirements.view();
    let n = p.safety_requirements.len();
    let mut i: usize = 0;
    while i < n
        invariant
            n == fam.len(),
            fam == p.safety_requirements.view(),
            keys_sorted(fam),
            i <= n,
            forall|k: Seq<char>| #[trigger] val_at(snap.view(), k) == if has_key(fam.take(i as int), k) {
                Some(p.inherited_sil_spec(lookup(fam, k).unwrap()))
            } else {
                val_at(start, k)
            },
        decreases n - i,
    {
        let sr = p.safety_requirements.at(i);
        let e = SnapEntry { id: sr.id.clone(), sil: p.inherited_sil(sr) };
        let ghost ev = e;
        let ghost before = snap.view();
        let _ = snap.len();
        snap.insert(e);
        let _ = snap.len();
        proof {
            lemma_lookup_own(fam, i as int);
            assert forall|k: Seq<char>| #[trigger] val_at(snap.view(), k) == if has_key(fam.take(i + 1), k) {
                Some(p.inherited_sil_spec(lookup(fam, k).unwrap()))
            } else {
                val_at(start, k)
            } by {
                lemma_snap_insert(before, snap.view(), ev, k);
                lemma_take_key(fam, i as int, k);
            }
        }
        i = i + 1;
    }
    assert(fam.take(n as int) =~= fam);
}

/// The derived level of every safety artifact: hazard → required, safety
/// function → allocated, safety requirement → inherited, keyed by id.
pub fn sil_snapshot(p: &Project) -> (s: IdMap<SnapEntry>)
    ensures
        forall|k: Seq<char>| #[trigger] val_at(s.view(), k) == snap_spec(*p, k),
{
    let mut snap: IdMap<SnapEntry> = IdMap::new();
    let ghost empty = snap.view();
    add_hazards(p, &mut snap);
    add_functions(p, &mut snap);
    add_requirements(p, &mut snap);
    proof {
        assert forall|k: Seq<char>| #[trigger] val_at(snap.view(), k) == snap_spec(*p, k) by {
            assert(!has_key(empty, k));
        }
    }
    snap
}

/// One artifact whose derived level the change moves.
pub struct SilChange {
    pub id: String,
    pub before: Option<Sil>,
    pub after: Option<Sil>,
}

/// The level `k` has in a project's snapshot (none when absent).
pub open spec fn level_in(p: Project, k: Seq<char>) -> Option<Sil> {
    match snap_spec(p, k) {
        Some(x) => x,
        None => None,
    }
}

/// Artifact `k` exists before the change and its level differs after it.
pub open spec fn moved(before: Project, after: Project, k: Seq<char>) -> bool {
    match snap_spec(before, k) {
        Some(b) => b != level_in(after, k),
        None => false,
    }
}

/// `cs` lists exactly the moved artifacts, in id order, with their levels
/// before and after.
pub open spec fn changes_spec(before: Project, after: Project, cs: Seq<SilChange>) -> bool {
    &&& forall|i: int, j: int| 0 <= i < j < cs.len() ==> seq_lt(#[trigger] cs[i].id@, #[trigger] cs[j].id@)
    &&& forall|i: int| 0 <= i < cs.len() ==> moved(before, after, (#[trigger] cs[i]).id@)
        && snap_spec(before, cs[i].id@) == Some(cs[i].before) && cs[i].after == level_in(after, cs[i].id@)
    &&& forall|k: Seq<char>| #[trigger] moved(before, after, k) ==> exists|i: int| 0 <= i < cs.len() && (#[trigger] cs[i]).id@ == k
}

fn same_level(a: Option<Sil>, b: Option<Sil>) -> (r: bool)
    ensures
        r == (a == b),
{
    match (a, b) {
        (None, None) => true,
        (Some(x), Some(y)) => x == y,
        _ => false,
    }
}

/// The level a snapshot holds for `k` (none when absent).
pub open spec fn level_at(s: Seq<SnapEntry>, k: Seq<char>) -> Option<Sil> {
    match val_at(s, k) {
        Some(x) => x,
        None => None,
    }
}

fn diff_snapshots(b: &IdMap<SnapEntry>, a: &IdMap<SnapEntry>) -> (cs: Vec<SilChange>)
    ensures
        forall|i: int, j: int| 0 <= i < j < cs@.len() ==> seq_lt(#[trigger] cs@[i].id@, #[trigger] cs@[j].id@),
        forall|i: int| 0 <= i < cs@.len() ==> val_at(b.view(), (#[trigger] cs@[i]).id@) == Some(cs@[i].before)
            && cs@[i].after == level_at(a.view(), cs@[i].id@) && cs@[i].before != cs@[i].after,
        forall|j: int| 0 <= j < b.view().len() && (#[trigger] b.view()[j]).sil != level_at(a.view(), b.view()[j].id@)
            ==> exists|i: int| 0 <= i < cs@.len() && (#[trigger] cs@[i]).id@ == b.view()[j].id@,
{
    let ghost bv = b.view();
    let n = b.len();
    let mut out: Vec<SilChange> = Vec::new();
    let ghost mut idx: Seq<int> = Seq::empty();
    let mut i: usize = 0;
    while i < n
        invariant
            n == bv.len(),
            bv == b.view(),
            keys_sorted(bv),
            i <= n,
            idx.len() == out@.len(),
            forall|t: int| 0 <= t < idx.len() ==> 0 <= #[trigger] idx[t] < i,
            forall|t: int, u: int| 0 <= t < u < idx.len() ==> #[trigger] idx[t] < #[trigger] idx[u],
            forall|t: int| 0 <= t < out@.len() ==> (#[trigger] out@[t]).id@ == bv[idx[t]].id@
                && out@[t].before == bv[idx[t]].sil && out@[t].after == level_at(a.view(), out@[t].id@)
                && out@[t].before != out@[t].after,
            forall|j: int| 0 <= j < i && (#[trigger] bv[j]).sil != level_at(a.view(), bv[j].id@)
                ==> exists|t: int| 0 <= t < out@.len() && (#[trigger] out@[t]).id@ == bv[j].id@,
        decreases n - i,
    {
        let e = b.at(i);
        let after = match a.get(e.id.as_str()) {
            Some(x) => x.sil,
            None => None,
        };
        let ghost prev = out@;
        assert(after == level_at(a.view(), bv[i as int].id@));
        if !same_level(e.sil, after) {
            let ghost t = out@.len() as int;
            out.push(SilChange { id: e.id.clone(), before: e.sil, after });
            proof {
                idx = idx.push(i as int);
                assert(out@[t].id@ == bv[i as int].id@);
            }
        }
        proof {
            assert forall|j: int| 0 <= j < i + 1 && (#[trigger] bv[j]).sil != level_at(a.view(), bv[j].id@)
                implies exists|t: int| 0 <= t < out@.len() && (#[trigger] out@[t]).id@ == bv[j].id@ by {
                if j < i {
                    let t = choose|t: int| 0 <= t < prev.len() && (#[trigger] prev[t]).id@ == bv[j].id@;
                    assert(out@[t] == prev[t]);
                } else {
                    assert(out@[prev.len() as int].id@ == bv[j].id@);
                }
            }
        }
        i = i + 1;
    }
    proof {
        assert forall|t: int| 0 <= t < out@.len() implies val_at(bv, (#[trigger] out@[t]).id@) == Some(out@[t].before) by {
            lemma_lookup_own(bv, idx[t]);
        }
        assert forall|s: int, u: int| 0 <= s < u < out@.len() implies seq_lt(#[trigger] out@[s].id@, #[trigger] out@[u].id@) by {
            assert(idx[s] < idx[u]);
            assert(seq_lt(bv[idx[s]].key(), bv[idx[u]].key()));
        }
    }
    out
}

/// The differences between two snapshots, lifted to the projects they
/// were taken of.
proof fn lemma_lift(before: Project, after: Project, bv: Seq<SnapEntry>, av: Seq<SnapEntry>, cs: Seq<SilChange>)
    requires
        keys_sorted(bv),
        forall|k: Seq<char>| #[trigger] val_at(bv, k) == snap_spec(before, k),
        forall|k: Seq<char>| #[trigger] val_at(av, k) == snap_spec(after, k),
        forall|i: int, j: int| 0 <= i < j < cs.len() ==> seq_lt(#[trigger] cs[i].id@, #[trigger] cs[j].id@),
        forall|i: int| 0 <= i < cs.len() ==> val_at(bv, (#[trigger] cs[i]).id@) == Some(cs[i].before)
            && cs[i].after == level_at(av, cs[i].id@) && cs[i].before != cs[i].after,
        forall|j: int| 0 <= j < bv.len() && (#[trigger] bv[j]).sil != level_at(av, bv[j].id@)
            ==> exists|i: int| 0 <= i < cs.len() && (#[trigger] cs[i]).id@ == bv[j].id@,
    ensures
        changes_spec(before, after, cs),
{
    assert forall|k: Seq<char>| #[trigger] moved(before, after, k) implies exists|i: int| 0 <= i < cs.len() && (#[trigger] cs[i]).id@ == k by {
        assert(val_at(bv, k) == snap_spec(before, k));
        assert(val_at(av, k) == snap_spec(after, k));
        assert(has_key(bv, k));
        let j = choose|j: int| 0 <= j < bv.len() && #[trigger] bv[j].key() == k;
        lemma_lookup_own(bv, j);
        assert(bv[j].sil != level_at(av, bv[j].id@));
    }
    assert forall|i: int| 0 <= i < cs.len() implies moved(before, after, (#[trigger] cs[i]).id@)
        && snap_spec(before, cs[i].id@) == Some(cs[i].before) && cs[i].after == level_in(after, cs[i].id@) by {
        assert(val_at(bv, cs[i].id@) == snap_spec(before, cs[i].id@));
        assert(val_at(av, cs[i].id@) == snap_spec(after, cs[i].id@));
    }
}

/// The level changes between the snapshots of `before` and `after`.
pub fn sil_changes(before: &Project, after: &Project) -> (cs: Vec<SilChange>)
    ensures
        changes_spec(*before, *after, cs@),
{
    let b = sil_snapshot(before);
    let a = sil_snapshot(after);
    let cs = diff_snapshots(&b, &a);
    let _ = b.len();
    proof {
        lemma_lift(*before, *after, b.view(), a.view(), cs@);
    }
    cs
}

// ---------------------------------------------------------------------------
// Staging the proposed change
// ---------------------------------------------------------------------------

/// A `LHS=RHS` argument cut at the first `=`, both sides trimmed.
pub open spec fn split_eq_spec(spec: Seq<char>) -> Option<(Seq<char>, Seq<char>)> {
    match split_once_spec(spec, '=') {
        Some((a, b)) => Some((trim_seq(a), trim_seq(b))),
        None => None,
    }
}

/// Split a `LHS=RHS` argument of `flag`, trimming both sides.
pub fn split_eq(spec: &str, flag: &str) -> (r: Result<(String, String), ReqError>)
    ensures
        match split_eq_spec(spec@) {
            Some((a, b)) => r is Ok && r->Ok_0.0@ == a && r->Ok_0.1@ == b,
            None => r matches Err(ReqError::MissingEquals { flag: f, spec: x }) && f@ == flag@ && x@ == spec@,
        },
{
    match split_once_char(spec, '=') {
        Some((a, b)) => {
            let av = chars_of(a.as_str());
            let bv = chars_of(b.as_str());
            Ok((string_of(&trim(&av)), string_of(&trim(&bv))))
        },
        None => Err(ReqError::MissingEquals { flag: string_of(&chars_of(flag)), spec: string_of(&chars_of(spec)) }),
    }
}

/// The risk parameters `C_x/F_x/P_x/Wn` of `--assess`.
pub open spec fn assess_spec(params: Seq<char>) -> Parsed<(Consequence, Frequency, Avoidance, Probability)> {
    let parts = split_on(params, '/');
    if parts.len() != 4 {
        Err((CalFault::BadLeafShape, params))
    } else {
        match consequence_of(parts[0]) {
            None => Err((CalFault::BadConsequence, canon(parts[0]))),
            Some(c) => match frequency_of(parts[1]) {
                None => Err((CalFault::BadFrequency, canon(parts[1]))),
                Some(f) => match avoidance_of(parts[2]) {
                    None => Err((CalFault::BadAvoidance, canon(parts[2]))),
                    Some(pa) => match probability_of(parts[3]) {
                        None => Err((CalFault::BadProbability, canon(parts[3]))),
                        Some(w) => Ok((c, f, pa, w)),
                    },
                },
            },
        }
    }
}

/// Why `req impact` refuses a proposed change.
pub enum ImpactFault {
    /// A calibration or risk parameter does not parse.
    Cal(CalFault, Seq<char>),
    /// A `LHS=RHS` argument (flag, argument) without the `=`.
    MissingEquals(Seq<char>, Seq<char>),
    /// `--assess` without four risk parameters (as typed).
    AssessShape(Seq<char>),
    NoHazard(Seq<char>),
    NoFunction(Seq<char>),
    NoRequirement(Seq<char>),
    Nothing,
}

/// `e` reports `f`.
pub open spec fn fault_matches(e: ReqError, f: ImpactFault) -> bool {
    match f {
        ImpactFault::Cal(cf, t) => cal_error(e, cf, t),
        ImpactFault::MissingEquals(flag, spec) => e matches ReqError::MissingEquals { flag: x, spec: y } && x@ == flag && y@ == spec,
        ImpactFault::AssessShape(params) => e matches ReqError::BadAssessment { params: x } && x@ == params,
        ImpactFault::NoHazard(raw) => e matches ReqError::NoSuchHazard { raw: x } && x@ == raw,
        ImpactFault::NoFunction(raw) => e matches ReqError::NoSuchSafetyFunction { raw: x } && x@ == raw,
        ImpactFault::NoRequirement(raw) => e matches ReqError::NoSuchSafetyRequirement { raw: x } && x@ == raw,
        ImpactFault::Nothing => e matches ReqError::NothingToAnalyse,
    }
}

pub open spec fn cal_stage(args: ImpactArgs) -> Option<ImpactFault> {
    match args.calibrate {
        Some(spec) => match set_spec(spec@) {
            Err((f, t)) => Some(ImpactFault::Cal(f, t)),
            Ok(_) => None,
        },
        None => None,
    }
}

pub open spec fn mit_stage(p: Project, args: ImpactArgs) -> Option<ImpactFault> {
    match args.mitigate {
        None => None,
        Some(m) => match split_eq_spec(m@) {
            None => Some(ImpactFault::MissingEquals("--mitigate"@, m@)),
            Some((a, b)) => if !has_key(p.hazards.view(), norm_id_spec("HAZ"@, b)) {
                Some(ImpactFault::NoHazard(b))
            } else if !has_key(p.safety_functions.view(), norm_id_spec("SF"@, a)) {
                Some(ImpactFault::NoFunction(a))
            } else {
                None
            },
        },
    }
}

pub open spec fn real_stage(p: Project, args: ImpactArgs) -> Option<ImpactFault> {
    match args.realize {
        None => None,
        Some(m) => match split_eq_spec(m@) {
            None => Some(ImpactFault::MissingEquals("--realize"@, m@)),
            Some((a, b)) => if !has_key(p.safety_functions.view(), norm_id_spec("SF"@, b)) {
                Some(ImpactFault::NoFunction(b))
            } else if !has_key(p.safety_requirements.view(), norm_id_spec("SR"@, a)) {
                Some(ImpactFault::NoRequirement(a))
            } else {
                None
            },
        },
    }
}

pub open spec fn assess_stage(p: Project, args: ImpactArgs) -> Option<ImpactFault> {
    match args.assess {
        None => None,
        Some(m) => match split_eq_spec(m@) {
            None => Some(ImpactFault::MissingEquals("--assess"@, m@)),
            Some((a, b)) => match assess_spec(b) {
                Err((CalFault::BadLeafShape, t)) => Some(ImpactFault::AssessShape(t)),
                Err((f, t)) => Some(ImpactFault::Cal(f, t)),
                Ok(_) => if !has_key(p.hazards.view(), norm_id_spec("HAZ"@, a)) {
                    Some(ImpactFault::NoHazard(a))
                } else {
                    None
                },
            },
        },
    }
}

/// The first reason to refuse the proposed change, in the order the parts
/// are applied (calibrate, mitigate, realize, assess), or that there is no
/// change at all.
pub open spec fn first_fault(p: Project, args: ImpactArgs) -> Option<ImpactFault> {
    if cal_stage(args) is Some {
        cal_stage(args)
    } else if mit_stage(p, args) is Some {
        mit_stage(p, args)
    } else if real_stage(p, args) is Some {
        real_stage(p, args)
    } else if assess_stage(p, args) is Some {
        assess_stage(p, args)
    } else if args.calibrate.is_none() && args.mitigate.is_none() && args.realize.is_none() && args.assess.is_none() {
        Some(ImpactFault::Nothing)
    } else {
        None
    }
}

/// The override the change adds, if any.
pub open spec fn calibration_of(args: ImpactArgs) -> Option<(Seq<char>, CalibrationRow)> {
    match args.calibrate {
        Some(spec) => match set_spec(spec@) {
            Ok(x) => Some(x),
            Err(_) => None,
        },
        None => None,
    }
}

/// The (safety function, hazard) mitigation the change adds, if any.
pub open spec fn mitigation_of(args: ImpactArgs) -> Option<(Seq<char>, Seq<char>)> {
    match args.mitigate {
        Some(m) => match split_eq_spec(m@) {
            Some((a, b)) => Some((norm_id_spec("SF"@, a), norm_id_spec("HAZ"@, b))),
            None => None,
        },
        None => None,
    }
}

/// The (safety requirement, safety function) realization the change adds.
pub open spec fn realization_of(args: ImpactArgs) -> Option<(Seq<char>, Seq<char>)> {
    match args.realize {
        Some(m) => match split_eq_spec(m@) {
            Some((a, b)) => Some((norm_id_spec("SR"@, a), norm_id_spec("SF"@, b))),
            None => None,
        },
        None => None,
    }
}

/// The hazard and parameters the change assesses.
pub open spec fn assessment_of(args: ImpactArgs) -> Option<(Seq<char>, (Consequence, Frequency, Avoidance, Probability))> {
    match args.assess {
        Some(m) => match split_eq_spec(m@) {
            Some((a, b)) => match assess_spec(b) {
                Ok(x) => Some((norm_id_spec("HAZ"@, a), x)),
                Err(_) => None,
            },
            None => None,
        },
        None => None,
    }
}

/// `new` is `old` with the proposed change applied: the override added,
/// the links appended, the hazard assessed; nothing else differs in what
/// the derived levels read.
pub open spec fn staged(old: Project, args: ImpactArgs, new: Project) -> bool {
    &&& forall|k: Seq<char>| #[trigger] row_at(new.calibration.view(), k) == match calibration_of(args) {
        Some((leaf, row)) => if k == leaf { Some(row) } else { row_at(old.calibration.view(), k) },
        None => row_at(old.calibration.view(), k),
    }
    &&& forall|k: Seq<char>| #[trigger] lookup(new.hazards.view(), k) == match assessment_of(args) {
        Some((h, (c, f, pa, w))) => if k == h {
            Some(Hazard { consequence: Some(c), frequency: Some(f), avoidance: Some(pa), probability: Some(w), ..lookup(old.hazards.view(), k).unwrap() })
        } else {
            lookup(old.hazards.view(), k)
        },
        None => lookup(old.hazards.view(), k),
    }
    &&& forall|k: Seq<char>| #[trigger] has_key(new.safety_functions.view(), k) == has_key(old.safety_functions.view(), k)
    &&& forall|k: Seq<char>| #[trigger] lookup(new.safety_functions.view(), k) == lookup(old.safety_functions.view(), k)
        || (mitigation_of(args) matches Some((sf, haz)) && k == sf && {
            let o = lookup(old.safety_functions.view(), k).unwrap();
            let n = lookup(new.safety_functions.view(), k).unwrap();
            &&& n == SafetyFunction { links: n.links, ..o }
            &&& n.links@.drop_last() == o.links@ && n.links@.len() == o.links@.len() + 1
            &&& n.links@.last().kind == LinkKind::Mitigates && n.links@.last().target@ == haz
        })
    &&& forall|k: Seq<char>| #[trigger] has_key(new.safety_requirements.view(), k) == has_key(old.safety_requirements.view(), k)
    &&& forall|k: Seq<char>| #[trigger] lookup(new.safety_requirements.view(), k) == lookup(old.safety_requirements.view(), k)
        || (realization_of(args) matches Some((sr, sf)) && k == sr && {
            let o = lookup(old.safety_requirements.view(), k).unwrap();
            let n = lookup(new.safety_requirements.view(), k).unwrap();
            &&& n == SafetyRequirement { links: n.links, ..o }
            &&& n.links@.drop_last() == o.links@ && n.links@.len() == o.links@.len() + 1
            &&& n.links@.last().kind == LinkKind::Realizes && n.links@.last().target@ == sf
        })
}

/// The descriptions of the proposed change, one per part.
pub open spec fn described(args: ImpactArgs) -> Seq<Seq<char>> {
    let d0: Seq<Seq<char>> = match calibration_of(args) {
        Some((leaf, _)) => seq!["calibrate "@ + leaf],
        None => Seq::empty(),
    };
    let d1: Seq<Seq<char>> = match mitigation_of(args) {
        Some((sf, haz)) => seq![sf + " mitigates "@ + haz],
        None => Seq::empty(),
    };
    let d2: Seq<Seq<char>> = match realization_of(args) {
        Some((sr, sf)) => seq![sr + " realizes "@ + sf],
        None => Seq::empty(),
    };
    let d3: Seq<Seq<char>> = match assessment_of(args) {
        Some((h, _)) => seq!["assess "@ + h],
        None => Seq::empty(),
    };
    d0 + d1 + d2 + d3
}

/// What `req impact` reports: the proposed change, and the artifacts whose
/// derived level it moves (before → after), in id order.
pub struct ImpactReport {
    pub proposed: Vec<String>,
    pub changes: Vec<SilChange>,
}


fn stage_calibrate(args: &ImpactArgs, q: &mut Project, proposed: &mut Vec<String>) -> (r: Result<(), ReqError>)
    ensures
        match cal_stage(*args) {
            Some(f) => r is Err && fault_matches(r->Err_0, f),
            None => r is Ok,
        },
        r is Ok ==> {
            &&& final(q).hazards == old(q).hazards && final(q).safety_functions == old(q).safety_functions
            &&& final(q).safety_requirements == old(q).safety_requirements
            &&& forall|k: Seq<char>| #[trigger] row_at(final(q).calibration.view(), k) == match calibration_of(*args) {
                Some((leaf, row)) => if k == leaf { Some(row) } else { row_at(old(q).calibration.view(), k) },
                None => row_at(old(q).calibration.view(), k),
            }
            &&& views(final(proposed)@) == views(old(proposed)@) + match calibration_of(*args) {
                Some((leaf, _)) => seq!["calibrate "@ + leaf],
                None => Seq::<Seq<char>>::empty(),
            }
        },
{
    match &args.calibrate {
        None => {
            assert(views(proposed@) =~= views(proposed@) + Seq::<Seq<char>>::empty());
            Ok(())
        },
        Some(spec) => {
            let (leaf, row) = match parse_set(spec.as_str()) {
                Ok(x) => x,
                Err(e) => return Err(e),
            };
            let mut d = String::new();
            d.append("calibrate ");
            d.append(leaf.as_str());
            let ghost lv = leaf@;
            let ghost before = q.calibration.view();
            let _ = q.calibration.len();
            let entry = CalibrationEntry { leaf, row };
            let ghost ev = entry;
            q.calibration.insert(entry);
            let _ = q.calibration.len();
            proof {
                assert forall|k: Seq<char>| #[trigger] row_at(q.calibration.view(), k) == if k == lv { Some(row) } else { row_at(before, k) } by {
                    if k != lv {
                        lemma_insert_lookup(before, q.calibration.view(), ev, k);
                    }
                }
            }
            let ghost pre = views(proposed@);
            proposed.push(d);
            assert(views(proposed@) =~= pre + seq!["calibrate "@ + lv]);
            Ok(())
        },
    }
}

fn stage_mitigate(args: &ImpactArgs, q: &mut Project, proposed: &mut Vec<String>) -> (r: Result<(), ReqError>)
    ensures
        match mit_stage(*old(q), *args) {
            Some(f) => r is Err && fault_matches(r->Err_0, f),
            None => r is Ok,
        },
        r is Ok ==> {
            &&& final(q).hazards == old(q).hazards && final(q).calibration == old(q).calibration
            &&& final(q).safety_requirements == old(q).safety_requirements
            &&& forall|k: Seq<char>| #[trigger] has_key(final(q).safety_functions.view(), k) == has_key(old(q).safety_functions.view(), k)
            &&& forall|k: Seq<char>| #[trigger] lookup(final(q).safety_functions.view(), k) == lookup(old(q).safety_functions.view(), k)
                || (mitigation_of(*args) matches Some((sf, haz)) && k == sf && {
                    let o = lookup(old(q).safety_functions.view(), k).unwrap();
                    let n = lookup(final(q).safety_functions.view(), k).unwrap();
                    &&& n == SafetyFunction { links: n.links, ..o }
                    &&& n.links@.drop_last() == o.links@ && n.links@.len() == o.links@.len() + 1
                    &&& n.links@.last().kind == LinkKind::Mitigates && n.links@.last().target@ == haz
                })
            &&& views(final(proposed)@) == views(old(proposed)@) + match mitigation_of(*args) {
                Some((sf, haz)) => seq![sf + " mitigates "@ + haz],
                None => Seq::<Seq<char>>::empty(),
            }
        },
{
    let m = match &args.mitigate {
        None => {
            assert(views(proposed@) =~= views(proposed@) + Seq::<Seq<char>>::empty());
            return Ok(());
        },
        Some(m) => m,
    };
    let (a, b) = match split_eq(m.as_str(), "--mitigate") {
        Ok(x) => x,
        Err(e) => return Err(e),
    };
    let sf = norm_id("SF", a.as_str());
    let haz = norm_id("HAZ", b.as_str());
    if !q.hazards.contains_key(haz.as_str()) {
        return Err(ReqError::NoSuchHazard { raw: b });
    }
    if !q.safety_functions.contains_key(sf.as_str()) {
        return Err(ReqError::NoSuchSafetyFunction { raw: a });
    }
    let ghost before = q.safety_functions.view();
    let ghost sfv = sf@;
    let _ = q.safety_functions.len();
    let mut f = q.safety_functions.remove(sf.as_str()).unwrap();
    let ghost o = f;
    f.links.push(Link { kind: LinkKind::Mitigates, target: haz.clone() });
    assert(f.links@.drop_last() =~= o.links@);
    let ghost fv = f;
    q.safety_functions.insert(f);
    let _ = q.safety_functions.len();
    proof {
        assert forall|k: Seq<char>| #[trigger] lookup(q.safety_functions.view(), k) == lookup(before, k)
            || (k == sfv && lookup(q.safety_functions.view(), k) == Some(fv)) by {
            if k != sfv {
                lemma_insert_lookup(before, q.safety_functions.view(), fv, k);
            }
        }
        assert forall|k: Seq<char>| #[trigger] has_key(q.safety_functions.view(), k) == has_key(before, k) by {
            if k != sfv {
                lemma_insert_lookup(before, q.safety_functions.view(), fv, k);
            }
        }
    }
    let mut d = String::new();
    d.append(sf.as_str());
    d.append(" mitigates ");
    d.append(haz.as_str());
    let ghost pre = views(proposed@);
    proposed.push(d);
    assert(views(proposed@) =~= pre + seq![sf@ + " mitigates "@ + haz@]);
    Ok(())
}

fn stage_realize(args: &ImpactArgs, q: &mut Project, proposed: &mut Vec<String>) -> (r: Result<(), ReqError>)
    ensures
        match real_stage(*old(q), *args) {
            Some(f) => r is Err && fault_matches(r->Err_0, f),
            None => r is Ok,
        },
        r is Ok ==> {
            &&& final(q).hazards == old(q).hazards && final(q).calibration == old(q).calibration
            &&& final(q).safety_functions == old(q).safety_functions
            &&& forall|k: Seq<char>| #[trigger] has_key(final(q).safety_requirements.view(), k) == has_key(old(q).safety_requirements.view(), k)
            &&& forall|k: Seq<char>| #[trigger] lookup(final(q).safety_requirements.view(), k) == lookup(old(q).safety_requirements.view(), k)
                || (realization_of(*args) matches Some((sr, sf)) && k == sr && {
                    let o = lookup(old(q).safety_requirements.view(), k).unwrap();
                    let n = lookup(final(q).safety_requirements.view(), k).unwrap();
                    &&& n == SafetyRequirement { links: n.links, ..o }
                    &&& n.links@.drop_last() == o.links@ && n.links@.len() == o.links@.len() + 1
                    &&& n.links@.last().kind == LinkKind::Realizes && n.links@.last().target@ == sf
                })
            &&& views(final(proposed)@) == views(old(proposed)@) + match realization_of(*args) {
                Some((sr, sf)) => seq![sr + " realizes "@ + sf],
                None => Seq::<Seq<char>>::empty(),
            }
        },
{
    let m = match &args.realize {
        None => {
            assert(views(proposed@) =~= views(proposed@) + Seq::<Seq<char>>::empty());
            return Ok(());
        },
        Some(m) => m,
    };
    let (a, b) = match split_eq(m.as_str(), "--realize") {
        Ok(x) => x,
        Err(e) => return Err(e),
    };
    let sr = norm_id("SR", a.as_str());
    let sf = norm_id("SF", b.as_str());
    if !q.safety_functions.contains_key(sf.as_str()) {
        return Err(ReqError::NoSuchSafetyFunction { raw: b });
    }
    if !q.safety_requirements.contains_key(sr.as_str()) {
        return Err(ReqError::NoSuchSafetyRequirement { raw: a });
    }
    let ghost before = q.safety_requirements.view();
    let ghost srv = sr@;
    let _ = q.safety_requirements.len();
    let mut x = q.safety_requirements.remove(sr.as_str()).unwrap();
    let ghost o = x;
    x.links.push(Link { kind: LinkKind::Realizes, target: sf.clone() });
    assert(x.links@.drop_last() =~= o.links@);
    let ghost xv = x;
    q.safety_requirements.insert(x);
    let _ = q.safety_requirements.len();
    proof {
        assert forall|k: Seq<char>| #[trigger] lookup(q.safety_requirements.view(), k) == lookup(before, k)
            || (k == srv && lookup(q.safety_requirements.view(), k) == Some(xv)) by {
            if k != srv {
                lemma_insert_lookup(before, q.safety_requirements.view(), xv, k);
            }
        }
        assert forall|k: Seq<char>| #[trigger] has_key(q.safety_requirements.view(), k) == has_key(before, k) by {
            if k != srv {
                lemma_insert_lookup(before, q.safety_requirements.view(), xv, k);
            }
        }
    }
    let mut d = String::new();
    d.append(sr.as_str());
    d.append(" realizes ");
    d.append(sf.as_str());
    let ghost pre = views(proposed@);
    proposed.push(d);
    assert(views(proposed@) =~= pre + seq![sr@ + " realizes "@ + sf@]);
    Ok(())
}

fn stage_assess(args: &ImpactArgs, q: &mut Project, proposed: &mut Vec<String>) -> (r: Result<(), ReqError>)
    ensures
        match assess_stage(*old(q), *args) {
            Some(f) => r is Err && fault_matches(r->Err_0, f),
            None => r is Ok,
        },
        r is Ok ==> {
            &&& final(q).calibration == old(q).calibration && final(q).safety_functions == old(q).safety_functions
            &&& final(q).safety_requirements == old(q).safety_requirements
            &&& forall|k: Seq<char>| #[trigger] lookup(final(q).hazards.view(), k) == match assessment_of(*args) {
                Some((h, (c, f, pa, w))) => if k == h {
                    Some(Hazard { consequence: Some(c), frequency: Some(f), avoidance: Some(pa), probability: Some(w), ..lookup(old(q).hazards.view(), k).unwrap() })
                } else {
                    lookup(old(q).hazards.view(), k)
                },
                None => lookup(old(q).hazards.view(), k),
            }
            &&& views(final(proposed)@) == views(old(proposed)@) + match assessment_of(*args) {
                Some((h, _)) => seq!["assess "@ + h],
                None => Seq::<Seq<char>>::empty(),
            }
        },
{
    let m = match &args.assess {
        None => {
            assert(views(proposed@) =~= views(proposed@) + Seq::<Seq<char>>::empty());
            return Ok(());
        },
        Some(m) => m,
    };
    let (a, b) = match split_eq(m.as_str(), "--assess") {
        Ok(x) => x,
        Err(e) => return Err(e),
    };
    let parts = split_char(b.as_str(), '/');
    if parts.len() != 4 {
        return Err(ReqError::BadAssessment { params: b });
    }
    assert(views(parts@)[0] == parts@[0]@);
    assert(views(parts@)[1] == parts@[1]@);
    assert(views(parts@)[2] == parts@[2]@);
    assert(views(parts@)[3] == parts@[3]@);
    let c = match parse_c(parts[0].as_str()) {
        Ok(x) => x,
        Err(e) => return Err(e),
    };
    let f = match parse_f(parts[1].as_str()) {
        Ok(x) => x,
        Err(e) => return Err(e),
    };
    let pa = match parse_p(parts[2].as_str()) {
        Ok(x) => x,
        Err(e) => return Err(e),
    };
    let w = match parse_w(parts[3].as_str()) {
        Ok(x) => x,
        Err(e) => return Err(e),
    };
    let hid = norm_id("HAZ", a.as_str());
    if !q.hazards.contains_key(hid.as_str()) {
        return Err(ReqError::NoSuchHazard { raw: a });
    }
    let ghost before = q.hazards.view();
    let ghost hv = hid@;
    let _ = q.hazards.len();
    let mut h = q.hazards.remove(hid.as_str()).unwrap();
    h.consequence = Some(c);
    h.frequency = Some(f);
    h.avoidance = Some(pa);
    h.probability = Some(w);
    let ghost nv = h;
    q.hazards.insert(h);
    let _ = q.hazards.len();
    proof {
        assert forall|k: Seq<char>| #[trigger] lookup(q.hazards.view(), k) == if k == hv { Some(nv) } else { lookup(before, k) } by {
            if k != hv {
                lemma_insert_lookup(before, q.hazards.view(), nv, k);
            }
        }
    }
    let mut d = String::new();
    d.append("assess ");
    d.append(hid.as_str());
    let ghost pre = views(proposed@);
    proposed.push(d);
    assert(views(proposed@) =~= pre + seq!["assess "@ + hv]);
    Ok(())
}

/// Preview which safety artifacts' derived level a proposed change would
/// move (`req impact`). The change is staged on the given copy of the
/// project, which is consumed: nothing is ever written back.
pub fn impact(args: &ImpactArgs, project: Project) -> (r: Result<ImpactReport, ReqError>)
    ensures
        match first_fault(project, *args) {
            Some(f) => r is Err && fault_matches(r->Err_0, f),
            None => r is Ok && views(r->Ok_0.proposed@) == described(*args)
                && exists|q: Project| #[trigger] staged(project, *args, q) && changes_spec(project, q, r->Ok_0.changes@),
        },
{
    let b = sil_snapshot(&project);
    let _ = b.len();
    let ghost p0 = project;
    let mut q = project;
    let mut proposed: Vec<String> = Vec::new();
    let ghost q0 = q;
    match stage_calibrate(args, &mut q, &mut proposed) {
        Ok(()) => {},
        Err(e) => return Err(e),
    }
    let ghost q1 = q;
    match stage_mitigate(args, &mut q, &mut proposed) {
        Ok(()) => {},
        Err(e) => return Err(e),
    }
    let ghost q2 = q;
    assert(real_stage(q2, *args) == real_stage(p0, *args));
    match stage_realize(args, &mut q, &mut proposed) {
        Ok(()) => {},
        Err(e) => return Err(e),
    }
    let ghost q3 = q;
    assert(assess_stage(q3, *args) == assess_stage(p0, *args));
    match stage_assess(args, &mut q, &mut proposed) {
        Ok(()) => {},
        Err(e) => return Err(e),
    }
    assert(views(proposed@) =~= described(*args));
    if proposed.len() == 0 {
        proof {
            assert(args.calibrate is Some ==> calibration_of(*args) is Some);
            assert(args.mitigate is Some ==> mitigation_of(*args) is Some);
            assert(args.realize is Some ==> realization_of(*args) is Some);
            assert(args.assess is Some ==> assessment_of(*args) is Some);
            assert(views(proposed@).len() == 0);
        }
        return Err(ReqError::NothingToAnalyse);
    }
    let a = sil_snapshot(&q);
    let cs = diff_snapshots(&b, &a);
    proof {
        lemma_lift(p0, q, b.view(), a.view(), cs@);
        assert(views(proposed@) =~= described(*args));
        assert(staged(p0, *args, q));
    }
    Ok(ImpactReport { proposed, changes: cs })
}

} // verus!
