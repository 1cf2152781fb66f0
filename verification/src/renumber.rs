//! Renumbering ids that collide after a merge (`req renumber`): an id held on
//! both sides by different artifacts (another creation time or title) moves,
//! on our side, to a fresh number of its family, and every link that named it
//! follows. Requirements, hazards, safety functions and safety requirements
//! are each numbered on from their own counter.
use vstd::prelude::*;

use crate::idmap::{has_key, keys_sorted, lookup, IdMap, Keyed};
use crate::ids::{max_number, max_prefixed, pad4, prefixed_number_of};
use crate::model::{
    entry_records, history, ActionContext, Hazard, HistoryEntry, Link, Project, Requirement, SafetyFunction,
    SafetyRequirement,
};
use crate::text::{
    all_digits, chars_of, concat_chars, dec_padded, dec_seq, digits_value, is_prefix, lemma_dec_seq_digits,
    lemma_pad_zeros_value, parse_uint_spec, str_eq, string_of,
};

verus! {

/// A member of an artifact family as renumbering sees it: an id, what tells
/// two artifacts apart (creation time and title), links and a history.
pub trait Artifact: Keyed + Sized {
    spec fn created_view(&self) -> Seq<char>;

    spec fn title_view(&self) -> Seq<char>;

    spec fn links_view(&self) -> Seq<Link>;

    spec fn history_view(&self) -> Seq<HistoryEntry>;

    /// `other` is `self` but for its id, links and history.
    spec fn same_rest(self, other: Self) -> bool;

    fn created_str(&self) -> (r: &str)
        ensures
            r@ == self.created_view(),
    ;

    fn title_str(&self) -> (r: &str)
        ensures
            r@ == self.title_view(),
    ;

    fn links_ref(&self) -> (r: &Vec<Link>)
        ensures
            r@ == self.links_view(),
    ;

    /// The artifact under id `id`, with `e` appended to its history.
    fn renamed(self, id: String, e: HistoryEntry) -> (r: Self)
        ensures
            r.key() == id@,
            r.links_view() == self.links_view(),
            r.history_view() == self.history_view().push(e),
            self.same_rest(r),
    ;

    /// The artifact with its links replaced by `links`.
    fn relinked(self, links: Vec<Link>) -> (r: Self)
        ensures
            r.key() == self.key(),
            r.links_view() == links@,
            r.history_view() == self.history_view(),
            self.same_rest(r),
    ;
}

impl Artifact for Requirement {
    open spec fn created_view(&self) -> Seq<char> {
        self.created@
    }

    open spec fn title_view(&self) -> Seq<char> {
        self.title@
    }

    open spec fn links_view(&self) -> Seq<Link> {
        self.links@
    }

    open spec fn history_view(&self) -> Seq<HistoryEntry> {
        self.history@
    }

    open spec fn same_rest(self, other: Self) -> bool {
        other == Requirement { id: other.id, links: other.links, history: other.history, ..self }
    }

    fn created_str(&self) -> (r: &str) {
        self.created.as_str()
    }

    fn title_str(&self) -> (r: &str) {
        self.title.as_str()
    }

    fn links_ref(&self) -> (r: &Vec<Link>) {
        &self.links
    }

    fn renamed(self, id: String, e: HistoryEntry) -> (r: Self) {
        let mut a = self;
        a.id = id;
        a.history.push(e);
        a
    }

    fn relinked(self, links: Vec<Link>) -> (r: Self) {
        let mut a = self;
        a.links = links;
        a
    }
}

impl Artifact for Hazard {
    open spec fn created_view(&self) -> Seq<char> {
        self.created@
    }

    open spec fn title_view(&self) -> Seq<char> {
        self.title@
    }

    open spec fn links_view(&self) -> Seq<Link> {
        self.links@
    }

    open spec fn history_view(&self) -> Seq<HistoryEntry> {
        self.history@
    }

    open spec fn same_rest(self, other: Self) -> bool {
        other == Hazard { id: other.id, links: other.links, history: other.history, ..self }
    }

    fn created_str(&self) -> (r: &str) {
        self.created.as_str()
    }

    fn title_str(&self) -> (r: &str) {
        self.title.as_str()
    }

    fn links_ref(&self) -> (r: &Vec<Link>) {
        &self.links
    }

    fn renamed(self, id: String, e: HistoryEntry) -> (r: Self) {
        let mut a = self;
        a.id = id;
        a.history.push(e);
        a
    }

    fn relinked(self, links: Vec<Link>) -> (r: Self) {
        let mut a = self;
        a.links = links;
        a
    }
}

impl Artifact for SafetyFunction {
    open spec fn created_view(&self) -> Seq<char> {
        self.created@
    }

    open spec fn title_view(&self) -> Seq<char> {
        self.title@
    }

    open spec fn links_view(&self) -> Seq<Link> {
        self.links@
    }

    open spec fn history_view(&self) -> Seq<HistoryEntry> {
        self.history@
    }

    open spec fn same_rest(self, other: Self) -> bool {
        other == SafetyFunction { id: other.id, links: other.links, history: other.history, ..self }
    }

    fn created_str(&self) -> (r: &str) {
        self.created.as_str()
    }

    fn title_str(&self) -> (r: &str) {
        self.title.as_str()
    }

    fn links_ref(&self) -> (r: &Vec<Link>) {
        &self.links
    }

    fn renamed(self, id: String, e: HistoryEntry) -> (r: Self) {
        let mut a = self;
        a.id = id;
        a.history.push(e);
        a
    }

    fn relinked(self, links: Vec<Link>) -> (r: Self) {
        let mut a = self;
        a.links = links;
        a
    }
}

impl Artifact for SafetyRequirement {
    open spec fn created_view(&self) -> Seq<char> {
        self.created@
    }

    open spec fn title_view(&self) -> Seq<char> {
        self.title@
    }

    open spec fn links_view(&self) -> Seq<Link> {
        self.links@
    }

    open spec fn history_view(&self) -> Seq<HistoryEntry> {
        self.history@
    }

    open spec fn same_rest(self, other: Self) -> bool {
        other == SafetyRequirement { id: other.id, links: other.links, history: other.history, ..self }
    }

    fn created_str(&self) -> (r: &str) {
        self.created.as_str()
    }

    fn title_str(&self) -> (r: &str) {
        self.title.as_str()
    }

    fn links_ref(&self) -> (r: &Vec<Link>) {
        &self.links
    }

    fn renamed(self, id: String, e: HistoryEntry) -> (r: Self) {
        let mut a = self;
        a.id = id;
        a.history.push(e);
        a
    }

    fn relinked(self, links: Vec<Link>) -> (r: Self) {
        let mut a = self;
        a.links = links;
        a
    }
}

// ---------------------------------------------------------------------------
// Planning the renames of one family
// ---------------------------------------------------------------------------

/// The ids of a list of renames, as plain values.
pub open spec fn pair_views(v: Seq<(String, String)>) -> Seq<(Seq<char>, Seq<char>)> {
    v.map_values(|p: (String, String)| (p.0@, p.1@))
}

/// `a`'s id is held in `base` by a different artifact.
pub open spec fn collides<T: Artifact>(a: T, base: Seq<T>) -> bool {
    has_key(base, a.key()) && {
        let b = lookup(base, a.key()).unwrap();
        b.created_view() != a.created_view() || b.title_view() != a.title_view()
    }
}

/// Id number `n` of family `prefix`: `<prefix>-NNNN`.
pub open spec fn family_id(prefix: Seq<char>, n: nat) -> Seq<char> {
    prefix + "-"@ + pad4(n)
}

/// The renames of `cur` against `base`, in id order, the colliding ids
/// taking the numbers from `next` on.
pub open spec fn plan_spec<T: Artifact>(cur: Seq<T>, base: Seq<T>, next: nat, prefix: Seq<char>) -> Seq<(Seq<char>, Seq<char>)>
    decreases cur.len(),
{
    if cur.len() == 0 {
        Seq::empty()
    } else {
        let rest = plan_spec(cur.drop_last(), base, next, prefix);
        if collides(cur.last(), base) {
            rest.push((cur.last().key(), family_id(prefix, next + rest.len())))
        } else {
            rest
        }
    }
}

proof fn lemma_plan_prefix<T: Artifact>(cur: Seq<T>, base: Seq<T>, next: nat, prefix: Seq<char>, i: int)
    requires
        0 <= i <= cur.len(),
    ensures
        plan_spec(cur.take(i), base, next, prefix).len() <= plan_spec(cur, base, next, prefix).len(),
    decreases cur.len() - i,
{
    if i < cur.len() {
        lemma_plan_prefix(cur, base, next, prefix, i + 1);
        assert(cur.take(i + 1).drop_last() =~= cur.take(i));
    } else {
        assert(cur.take(i) =~= cur);
    }
}

/// Plan the renames of one family (`current` against `base`), numbering
/// from `next`, which ends one past the last number used.
pub fn plan_renames<T: Artifact>(current: &IdMap<T>, base: &IdMap<T>, next: &mut u64, prefix: &str) -> (r: Vec<(String, String)>)
    requires
        *old(next) + plan_spec(current.view(), base.view(), *old(next) as nat, prefix@).len() <= u32::MAX,
    ensures
        pair_views(r@) == plan_spec(current.view(), base.view(), *old(next) as nat, prefix@),
        *final(next) == *old(next) + r@.len(),
{
    let n = current.len();
    let ghost s = current.view();
    let ghost bs = base.view();
    let ghost n0 = *next as nat;
    let pv = chars_of(prefix);
    let dash = chars_of("-");
    let want = concat_chars(&pv, &dash);
    let mut out: Vec<(String, String)> = Vec::new();
    let mut i: usize = 0;
    while i < n
        invariant
            n == s.len(),
            s == current.view(),
            bs == base.view(),
            want@ == prefix@ + "-"@,
            i <= n,
            pair_views(out@) == plan_spec(s.take(i as int), bs, n0, prefix@),
            *next == n0 + out@.len(),
            n0 + plan_spec(s, bs, n0, prefix@).len() <= u32::MAX,
        decreases n - i,
    {
        let a = current.at(i);
        proof {
            assert(s.take(i + 1).drop_last() =~= s.take(i as int));
            assert(s.take(i + 1).last() == s[i as int]);
            lemma_plan_prefix(s, bs, n0, prefix@, i + 1);
        }
        let hit = match base.get(a.key_str()) {
            Some(b) => !str_eq(b.created_str(), a.created_str()) || !str_eq(b.title_str(), a.title_str()),
            None => false,
        };
        if hit {
            let d = dec_padded(*next, 4);
            let id = string_of(&concat_chars(&want, &d));
            let ghost pre = pair_views(out@);
            out.push((string_of(&chars_of(a.key_str())), id));
            assert(pair_views(out@) =~= pre.push((s[i as int].key(), family_id(prefix@, n0 + pre.len()))));
            *next = *next + 1;
        }
        i = i + 1;
    }
    assert(s.take(n as int) =~= s);
    out
}

// ---------------------------------------------------------------------------
// Moving the colliding artifacts
// ---------------------------------------------------------------------------

/// How `req renumber` explains a move in the history.
pub const BASE_MERGE_NOTE: &'static str = " (merge with base)";

/// How the merge driver explains a move in the history.
pub const COLLISION_NOTE: &'static str = " (merge collision with the other side)";

/// The history note of an artifact renumbered from `old`.
pub open spec fn renumber_note(old: Seq<char>, tail: Seq<char>) -> Seq<char> {
    "renumbered from "@ + old + tail
}

/// `b` is `a` moved to id `new`, its history noting the move from `old`.
pub open spec fn moved<T: Artifact>(a: T, b: T, old: Seq<char>, new: Seq<char>, ctx: ActionContext, tail: Seq<char>) -> bool {
    &&& b.key() == new
    &&& a.same_rest(b)
    &&& b.links_view() == a.links_view()
    &&& b.history_view().len() == a.history_view().len() + 1
    &&& b.history_view().drop_last() == a.history_view()
    &&& entry_records(b.history_view().last(), ctx, renumber_note(old, tail), None)
}

/// One rename applied to `m`, giving `m2`: nothing changes when no
/// artifact has id `old`.
pub open spec fn rekey_step<T: Artifact>(m: Seq<T>, m2: Seq<T>, old: Seq<char>, new: Seq<char>, ctx: ActionContext, tail: Seq<char>) -> bool {
    if has_key(m, old) {
        &&& has_key(m2, new)
        &&& moved(lookup(m, old).unwrap(), lookup(m2, new).unwrap(), old, new, ctx, tail)
        &&& forall|x: T| #[trigger] m2.contains(x) <==> (x == lookup(m2, new).unwrap()
            || (m.contains(x) && x.key() != old && x.key() != new))
    } else {
        m2 == m
    }
}

/// The renames applied in turn through the maps `states`.
pub open spec fn rekey_run<T: Artifact>(states: Seq<Seq<T>>, ren: Seq<(Seq<char>, Seq<char>)>, ctx: ActionContext, tail: Seq<char>) -> bool {
    &&& states.len() == ren.len() + 1
    &&& forall|i: int| 0 <= i < ren.len() ==> rekey_step(#[trigger] states[i], states[i + 1], ren[i].0, ren[i].1, ctx, tail)
}

/// Move each renamed artifact of `map` to its new id, in order.
pub fn rekey<T: Artifact>(map: &mut IdMap<T>, renames: &Vec<(String, String)>, ctx: &ActionContext, tail: &str)
    ensures
        exists|states: Seq<Seq<T>>| #![trigger rekey_run(states, pair_views(renames@), *ctx, tail@)]
            rekey_run(states, pair_views(renames@), *ctx, tail@) && states[0] == old(map).view()
                && states.last() == final(map).view(),
{
    let ghost ren = pair_views(renames@);
    let ghost mut states: Seq<Seq<T>> = seq![map.view()];
    let ghost m0 = map.view();
    let mut i: usize = 0;
    while i < renames.len()
        invariant
            i <= renames@.len(),
            ren == pair_views(renames@),
            states.len() == i + 1,
            states[0] == m0,
            states.last() == map.view(),
            rekey_run(states, ren.take(i as int), *ctx, tail@),
        decreases renames@.len() - i,
    {
        let ghost before = map.view();
        let o = &renames[i].0;
        let nw = &renames[i].1;
        assert(ren[i as int] == (o@, nw@));
        let present = map.contains_key(o.as_str());
        match if present { map.remove(o.as_str()) } else { None } {
            Some(a) => {
                let mut note = string_of(&chars_of("renumbered from "));
                note.append(o.as_str());
                note.append(tail);
                assert(note@ =~= renumber_note(o@, tail@));
                let e = history(note, None, ctx);
                let b = a.renamed(nw.clone(), e);
                let ghost bv = b;
                let ghost mid = map.view();
                map.insert(b);
                proof {
                    assert(bv.history_view().drop_last() =~= a.history_view());
                    assert(lookup(map.view(), nw@) == Some(bv));
                    assert(lookup(before, o@) == Some(a));
                    assert(moved(a, bv, o@, nw@, *ctx, tail@));
                    assert forall|x: T| #[trigger] map.view().contains(x) <==> (x == bv
                        || (before.contains(x) && x.key() != o@ && x.key() != nw@)) by {
                        if map.view().contains(x) && x != bv {
                            assert(mid.contains(x));
                        }
                        if before.contains(x) && x.key() != o@ && x.key() != nw@ {
                            assert(mid.contains(x));
                        }
                    }
                    assert(has_key(map.view(), nw@));
                    assert(rekey_step(before, map.view(), o@, nw@, *ctx, tail@));
                }
            },
            None => {
                assert(rekey_step(before, map.view(), o@, nw@, *ctx, tail@));
            },
        }
        proof {
            let ns = states.push(map.view());
            assert forall|k: int| 0 <= k < i + 1 implies rekey_step(#[trigger] ns[k], ns[k + 1], ren.take(i + 1)[k].0, ren.take(i + 1)[k].1, *ctx, tail@) by {
                if k < i {
                    assert(ns[k] == states[k] && ns[k + 1] == states[k + 1]);
                    assert(ren.take(i + 1)[k] == ren.take(i as int)[k]);
                }
            }
            states = ns;
        }
        i = i + 1;
    }
    assert(ren.take(renames@.len() as int) =~= ren);
}

// ---------------------------------------------------------------------------
// Following the renames in links
// ---------------------------------------------------------------------------

/// `t` after the renames: the last rename of `t` wins; other ids stay.
pub open spec fn mapped(ren: Seq<(Seq<char>, Seq<char>)>, t: Seq<char>) -> Seq<char>
    decreases ren.len(),
{
    if ren.len() == 0 {
        t
    } else if ren.last().0 == t {
        ren.last().1
    } else {
        mapped(ren.drop_last(), t)
    }
}

/// `l2` is `l1` with every target passed through the renames.
pub open spec fn links_rewritten(l1: Seq<Link>, l2: Seq<Link>, ren: Seq<(Seq<char>, Seq<char>)>) -> bool {
    &&& l2.len() == l1.len()
    &&& forall|i: int| 0 <= i < l1.len() ==> (#[trigger] l2[i]).kind == l1[i].kind && l2[i].target@ == mapped(ren, l1[i].target@)
}

/// `b` is `a` with its links passed through the renames.
pub open spec fn relinked_from<T: Artifact>(a: T, b: T, ren: Seq<(Seq<char>, Seq<char>)>) -> bool {
    &&& b.key() == a.key()
    &&& a.same_rest(b)
    &&& b.history_view() == a.history_view()
    &&& links_rewritten(a.links_view(), b.links_view(), ren)
}

/// Every artifact of `m` relinked, in place, giving `m2`.
pub open spec fn relinked_all<T: Artifact>(m: Seq<T>, m2: Seq<T>, ren: Seq<(Seq<char>, Seq<char>)>) -> bool {
    &&& m2.len() == m.len()
    &&& forall|i: int| 0 <= i < m.len() ==> relinked_from(m[i], #[trigger] m2[i], ren)
}

fn renamed_target(renames: &Vec<(String, String)>, t: &str) -> (r: String)
    ensures
        r@ == mapped(pair_views(renames@), t@),
{
    let ghost ren = pair_views(renames@);
    let mut i = renames.len();
    assert(ren.take(i as int) =~= ren);
    while i > 0
        invariant
            i <= renames@.len(),
            ren == pair_views(renames@),
            mapped(ren.take(i as int), t@) == mapped(ren, t@),
        decreases i,
    {
        assert(ren.take(i as int).drop_last() =~= ren.take(i - 1));
        assert(ren.take(i as int).last() == ren[i - 1]);
        if str_eq(renames[i - 1].0.as_str(), t) {
            return renames[i - 1].1.clone();
        }
        i = i - 1;
    }
    string_of(&chars_of(t))
}

fn rewrite_targets(links: &Vec<Link>, renames: &Vec<(String, String)>) -> (r: Vec<Link>)
    ensures
        links_rewritten(links@, r@, pair_views(renames@)),
{
    let mut out: Vec<Link> = Vec::new();
    let mut i: usize = 0;
    while i < links.len()
        invariant
            i <= links@.len(),
            out@.len() == i,
            forall|k: int| 0 <= k < i ==> (#[trigger] out@[k]).kind == links@[k].kind
                && out@[k].target@ == mapped(pair_views(renames@), links@[k].target@),
        decreases links@.len() - i,
    {
        let l = &links[i];
        out.push(Link { kind: l.kind, target: renamed_target(renames, l.target.as_str()) });
        i = i + 1;
    }
    out
}

/// Pass every link target of every artifact of `map` through the renames.
pub fn relink_all<T: Artifact>(map: &mut IdMap<T>, renames: &Vec<(String, String)>)
    ensures
        relinked_all(old(map).view(), final(map).view(), pair_views(renames@)),
{
    let ghost ren = pair_views(renames@);
    let mut taken: IdMap<T> = IdMap::new();
    std::mem::swap(map, &mut taken);
    let mut v = taken.into_entries();
    let ghost orig = v@;
    let mut out: Vec<T> = Vec::new();
    while v.len() > 0
        invariant
            ren == pair_views(renames@),
            keys_sorted(orig),
            out@.len() + v@.len() == orig.len(),
            v@ == orig.skip(out@.len() as int),
            forall|k: int| 0 <= k < out@.len() ==> relinked_from(orig[k], #[trigger] out@[k], ren),
        decreases v@.len(),
    {
        let ghost k = out@.len() as int;
        let a = v.remove(0);
        assert(a == orig[k]);
        let links = rewrite_targets(a.links_ref(), renames);
        let b = a.relinked(links);
        out.push(b);
        assert(v@ =~= orig.skip(out@.len() as int));
    }
    assert forall|i: int, j: int| 0 <= i < j < out@.len() implies crate::text::seq_lt(#[trigger] out@[i].key(), #[trigger] out@[j].key()) by {
        assert(relinked_from(orig[i], out@[i], ren));
        assert(relinked_from(orig[j], out@[j], ren));
    }
    *map = IdMap::from_sorted(out);
}

// ---------------------------------------------------------------------------
// Renumbering a project
// ---------------------------------------------------------------------------

/// The first number a family renumbers to: one past the highest number
/// either side has used.
pub open spec fn next_number<T: Keyed>(cur: Seq<T>, base: Seq<T>, prefix: Seq<char>) -> nat {
    let a = max_prefixed(cur, prefix);
    let b = max_prefixed(base, prefix);
    (if a >= b { a } else { b }) + 1
}

/// The renames of one family.
pub open spec fn family_plan<T: Artifact>(cur: Seq<T>, base: Seq<T>, prefix: Seq<char>) -> Seq<(Seq<char>, Seq<char>)> {
    plan_spec(cur, base, next_number(cur, base, prefix), prefix)
}

/// The family's numbers stay within the counter's range.
pub open spec fn family_fits<T: Artifact>(cur: Seq<T>, base: Seq<T>, prefix: Seq<char>) -> bool {
    next_number(cur, base, prefix) + family_plan(cur, base, prefix).len() <= u32::MAX
}

/// Every family's numbers stay within the counters' range.
pub open spec fn renumber_fits(cur: Project, base: Project) -> bool {
    &&& family_fits(cur.requirements.view(), base.requirements.view(), "REQ"@)
    &&& family_fits(cur.hazards.view(), base.hazards.view(), "HAZ"@)
    &&& family_fits(cur.safety_functions.view(), base.safety_functions.view(), "SF"@)
    &&& family_fits(cur.safety_requirements.view(), base.safety_requirements.view(), "SR"@)
}

/// All planned renames: requirements, hazards, safety functions, then
/// safety requirements.
pub open spec fn all_plans(cur: Project, base: Project) -> Seq<(Seq<char>, Seq<char>)> {
    family_plan(cur.requirements.view(), base.requirements.view(), "REQ"@)
        + family_plan(cur.hazards.view(), base.hazards.view(), "HAZ"@)
        + family_plan(cur.safety_functions.view(), base.safety_functions.view(), "SF"@)
        + family_plan(cur.safety_requirements.view(), base.safety_requirements.view(), "SR"@)
}

/// A family of `m` renumbered into `m2`: its own renames applied in turn,
/// then every link passed through all the renames.
pub open spec fn family_renumbered<T: Artifact>(m: Seq<T>, m2: Seq<T>, fam: Seq<(Seq<char>, Seq<char>)>,
    all: Seq<(Seq<char>, Seq<char>)>, ctx: ActionContext, tail: Seq<char>) -> bool {
    exists|states: Seq<Seq<T>>| #![trigger rekey_run(states, fam, ctx, tail)]
        rekey_run(states, fam, ctx, tail) && states[0] == m && relinked_all(states.last(), m2, all)
}

/// `p2` is `p` with every family renumbered against `base`.
pub open spec fn renumbered(p: Project, p2: Project, base: Project, ctx: ActionContext) -> bool {
    let all = all_plans(p, base);
    &&& p2 == Project {
        requirements: p2.requirements,
        hazards: p2.hazards,
        safety_functions: p2.safety_functions,
        safety_requirements: p2.safety_requirements,
        ..p
    }
    &&& family_renumbered(p.requirements.view(), p2.requirements.view(),
        family_plan(p.requirements.view(), base.requirements.view(), "REQ"@), all, ctx, BASE_MERGE_NOTE@)
    &&& family_renumbered(p.hazards.view(), p2.hazards.view(),
        family_plan(p.hazards.view(), base.hazards.view(), "HAZ"@), all, ctx, BASE_MERGE_NOTE@)
    &&& family_renumbered(p.safety_functions.view(), p2.safety_functions.view(),
        family_plan(p.safety_functions.view(), base.safety_functions.view(), "SF"@), all, ctx, BASE_MERGE_NOTE@)
    &&& family_renumbered(p.safety_requirements.view(), p2.safety_requirements.view(),
        family_plan(p.safety_requirements.view(), base.safety_requirements.view(), "SR"@), all, ctx, BASE_MERGE_NOTE@)
}

fn first_number<T: Keyed>(cur: &IdMap<T>, base: &IdMap<T>, prefix: &str) -> (n: u64)
    ensures
        n == next_number(cur.view(), base.view(), prefix@),
{
    let a = max_number(cur, prefix);
    let b = max_number(base, prefix);
    if a >= b { a + 1 } else { b + 1 }
}

fn family<T: Artifact>(cur: &IdMap<T>, base: &IdMap<T>, prefix: &str) -> (r: Vec<(String, String)>)
    requires
        family_fits(cur.view(), base.view(), prefix@),
    ensures
        pair_views(r@) == family_plan(cur.view(), base.view(), prefix@),
{
    let mut next = first_number(cur, base, prefix);
    plan_renames(cur, base, &mut next, prefix)
}

proof fn lemma_pair_views_add(a: Seq<(String, String)>, b: Seq<(String, String)>)
    ensures
        pair_views(a + b) == pair_views(a) + pair_views(b),
{
    assert(pair_views(a + b) =~= pair_views(a) + pair_views(b));
}

/// Renumber `current`'s ids that collide with `base` (`req renumber`):
/// gives every planned rename; unless `dry_run`, each family's colliding
/// artifacts move to their new ids and every link follows the renames.
/// Nothing changes when no id collides.
pub fn renumber(current: &mut Project, base: &Project, dry_run: bool, ctx: &ActionContext) -> (r: Vec<(String, String)>)
    requires
        renumber_fits(*old(current), *base),
    ensures
        pair_views(r@) == all_plans(*old(current), *base),
        dry_run || r@.len() == 0 ==> *final(current) == *old(current),
        !dry_run && r@.len() > 0 ==> renumbered(*old(current), *final(current), *base, *ctx),
{
    let ghost p0 = *current;
    let mut rq = family(&current.requirements, &base.requirements, "REQ");
    let mut hz = family(&current.hazards, &base.hazards, "HAZ");
    let mut sf = family(&current.safety_functions, &base.safety_functions, "SF");
    let mut sr = family(&current.safety_requirements, &base.safety_requirements, "SR");
    let ghost (vq, vh, vf, vr) = (rq@, hz@, sf@, sr@);
    proof {
        lemma_pair_views_add(vq, vh);
        lemma_pair_views_add(vq + vh, vf);
        lemma_pair_views_add(vq + vh + vf, vr);
    }
    let quiet = dry_run || (rq.len() == 0 && hz.len() == 0 && sf.len() == 0 && sr.len() == 0);
    if !quiet {
        rekey(&mut current.requirements, &rq, ctx, BASE_MERGE_NOTE);
        rekey(&mut current.hazards, &hz, ctx, BASE_MERGE_NOTE);
        rekey(&mut current.safety_functions, &sf, ctx, BASE_MERGE_NOTE);
        rekey(&mut current.safety_requirements, &sr, ctx, BASE_MERGE_NOTE);
    }
    let ghost mid = *current;
    let mut all: Vec<(String, String)> = Vec::new();
    all.append(&mut rq);
    all.append(&mut hz);
    all.append(&mut sf);
    all.append(&mut sr);
    assert(all@ =~= vq + vh + vf + vr);
    if !quiet {
        relink_all(&mut current.requirements, &all);
        relink_all(&mut current.hazards, &all);
        relink_all(&mut current.safety_functions, &all);
        relink_all(&mut current.safety_requirements, &all);
    }
    all
}

// ---------------------------------------------------------------------------
// What renumbering promises
// ---------------------------------------------------------------------------

proof fn lemma_family_id_number(prefix: Seq<char>, n: nat)
    requires
        n <= u32::MAX,
    ensures
        prefixed_number_of(prefix, family_id(prefix, n)) == Some(n),
{
    lemma_dec_seq_digits(n);
    lemma_pad_zeros_value(dec_seq(n), 4);
    let want = prefix + "-"@;
    let id = family_id(prefix, n);
    assert(id =~= want + pad4(n));
    assert(id.subrange(0, want.len() as int) =~= want);
    assert(id.subrange(want.len() as int, id.len() as int) =~= pad4(n));
    assert(pad4(n).len() > 0);
    assert(pad4(n)[0] != '+');
}

proof fn lemma_max_prefixed_each<T: Keyed>(s: Seq<T>, prefix: Seq<char>, i: int)
    requires
        0 <= i < s.len(),
    ensures
        match prefixed_number_of(prefix, s[i].key()) {
            Some(k) => k <= max_prefixed(s, prefix),
            None => true,
        },
    decreases s.len(),
{
    if i < s.len() - 1 {
        lemma_max_prefixed_each(s.drop_last(), prefix, i);
        assert(s.drop_last()[i] == s[i]);
    }
}

proof fn lemma_plan_shape<T: Artifact>(cur: Seq<T>, base: Seq<T>, next: nat, prefix: Seq<char>)
    ensures
        forall|k: int| 0 <= k < plan_spec(cur, base, next, prefix).len() ==> {
            let p = #[trigger] plan_spec(cur, base, next, prefix)[k];
            &&& p.1 == family_id(prefix, (next + k) as nat)
            &&& exists|j: int| 0 <= j < cur.len() && cur[j].key() == p.0 && collides(#[trigger] cur[j], base)
        },
    decreases cur.len(),
{
    if cur.len() > 0 {
        let d = cur.drop_last();
        lemma_plan_shape(d, base, next, prefix);
        let rest = plan_spec(d, base, next, prefix);
        let all = plan_spec(cur, base, next, prefix);
        let last = cur.len() - 1;
        assert(cur.last() == cur[last]);
        if collides(cur[last], base) {
            assert(all == rest.push((cur[last].key(), family_id(prefix, next + rest.len()))));
        } else {
            assert(all == rest);
        }
        assert forall|k: int| 0 <= k < all.len() implies {
            let p = #[trigger] all[k];
            &&& p.1 == family_id(prefix, (next + k) as nat)
            &&& exists|j: int| 0 <= j < cur.len() && cur[j].key() == p.0 && collides(#[trigger] cur[j], base)
        } by {
            if k < rest.len() {
                assert(all[k] == rest[k]);
                let p = rest[k];
                assert(exists|j: int| 0 <= j < d.len() && d[j].key() == p.0 && collides(#[trigger] d[j], base));
                let j = choose|j: int| 0 <= j < d.len() && d[j].key() == p.0 && collides(#[trigger] d[j], base);
                assert(cur[j] == d[j]);
            } else {
                assert(collides(cur[last], base));
            }
        }
    }
}

/// Renumbering is a merge repair that cannot itself collide: every id it
/// renames is held on both sides by different artifacts, and every new id
/// is held by no artifact of the family on either side.
pub proof fn lemma_renames_fresh<T: Artifact>(cur: Seq<T>, base: Seq<T>, prefix: Seq<char>)
    requires
        family_fits(cur, base, prefix),
    ensures
        forall|k: int| 0 <= k < family_plan(cur, base, prefix).len() ==> {
            let p = #[trigger] family_plan(cur, base, prefix)[k];
            &&& has_key(cur, p.0) && has_key(base, p.0)
            &&& !has_key(cur, p.1) && !has_key(base, p.1)
        },
{
    let next = next_number(cur, base, prefix);
    let plan = family_plan(cur, base, prefix);
    lemma_plan_shape(cur, base, next, prefix);
    assert forall|k: int| 0 <= k < plan.len() implies {
        let p = #[trigger] plan[k];
        &&& has_key(cur, p.0) && has_key(base, p.0)
        &&& !has_key(cur, p.1) && !has_key(base, p.1)
    } by {
        let p = plan[k];
        let n = (next + k) as nat;
        lemma_family_id_number(prefix, n);
        let j = choose|j: int| 0 <= j < cur.len() && cur[j].key() == p.0 && collides(#[trigger] cur[j], base);
        assert(has_key(cur, p.0));
        if has_key(cur, p.1) {
            let x = choose|x: int| 0 <= x < cur.len() && #[trigger] cur[x].key() == p.1;
            lemma_max_prefixed_each(cur, prefix, x);
        }
        if has_key(base, p.1) {
            let x = choose|x: int| 0 <= x < base.len() && #[trigger] base[x].key() == p.1;
            lemma_max_prefixed_each(base, prefix, x);
        }
    }
}


// ---------------------------------------------------------------------------
// Ids both sides of a merge added
// ---------------------------------------------------------------------------

/// `a` (on their side) took an id that was not held at the fork point
/// `fork` and that our side gave to a different artifact.
pub open spec fn added_collision<T: Artifact>(a: T, ours: Seq<T>, fork: Seq<T>) -> bool {
    !has_key(fork, a.key()) && collides(a, ours)
}

/// The renames of the colliding additions of `cur` (their side), in id
/// order, taking the numbers from `next` on.
pub open spec fn added_plan_spec<T: Artifact>(cur: Seq<T>, ours: Seq<T>, fork: Seq<T>, next: nat, prefix: Seq<char>)
    -> Seq<(Seq<char>, Seq<char>)>
    decreases cur.len(),
{
    if cur.len() == 0 {
        Seq::empty()
    } else {
        let rest = added_plan_spec(cur.drop_last(), ours, fork, next, prefix);
        if added_collision(cur.last(), ours, fork) {
            rest.push((cur.last().key(), family_id(prefix, next + rest.len())))
        } else {
            rest
        }
    }
}

proof fn lemma_added_plan_prefix<T: Artifact>(cur: Seq<T>, ours: Seq<T>, fork: Seq<T>, next: nat, prefix: Seq<char>, i: int)
    requires
        0 <= i <= cur.len(),
    ensures
        added_plan_spec(cur.take(i), ours, fork, next, prefix).len() <= added_plan_spec(cur, ours, fork, next, prefix).len(),
    decreases cur.len() - i,
{
    if i < cur.len() {
        lemma_added_plan_prefix(cur, ours, fork, next, prefix, i + 1);
        assert(cur.take(i + 1).drop_last() =~= cur.take(i));
    } else {
        assert(cur.take(i) =~= cur);
    }
}

fn plan_added<T: Artifact>(theirs: &IdMap<T>, ours: &IdMap<T>, fork: &IdMap<T>, next: u64, prefix: &str)
    -> (r: Vec<(String, String)>)
    requires
        next + added_plan_spec(theirs.view(), ours.view(), fork.view(), next as nat, prefix@).len() <= u32::MAX,
    ensures
        pair_views(r@) == added_plan_spec(theirs.view(), ours.view(), fork.view(), next as nat, prefix@),
{
    let n = theirs.len();
    let ghost s = theirs.view();
    let ghost os = ours.view();
    let ghost fs = fork.view();
    let pv = chars_of(prefix);
    let dash = chars_of("-");
    let want = concat_chars(&pv, &dash);
    let mut out: Vec<(String, String)> = Vec::new();
    let mut k: u64 = next;
    let mut i: usize = 0;
    while i < n
        invariant
            n == s.len(),
            s == theirs.view(),
            os == ours.view(),
            fs == fork.view(),
            want@ == prefix@ + "-"@,
            i <= n,
            pair_views(out@) == added_plan_spec(s.take(i as int), os, fs, next as nat, prefix@),
            k == next + out@.len(),
            next + added_plan_spec(s, os, fs, next as nat, prefix@).len() <= u32::MAX,
        decreases n - i,
    {
        let a = theirs.at(i);
        proof {
            assert(s.take(i + 1).drop_last() =~= s.take(i as int));
            assert(s.take(i + 1).last() == s[i as int]);
            lemma_added_plan_prefix(s, os, fs, next as nat, prefix@, i + 1);
        }
        let hit = !fork.contains_key(a.key_str()) && match ours.get(a.key_str()) {
            Some(b) => !str_eq(b.created_str(), a.created_str()) || !str_eq(b.title_str(), a.title_str()),
            None => false,
        };
        if hit {
            let d = dec_padded(k, 4);
            let id = string_of(&concat_chars(&want, &d));
            let ghost pre = pair_views(out@);
            out.push((string_of(&chars_of(a.key_str())), id));
            assert(pair_views(out@) =~= pre.push((s[i as int].key(), family_id(prefix@, (next + pre.len()) as nat))));
            k = k + 1;
        }
        i = i + 1;
    }
    assert(s.take(n as int) =~= s);
    out
}

/// One past the largest number of the family on any of the three sides.
pub open spec fn next_of_three<T: Keyed>(fork: Seq<T>, ours: Seq<T>, theirs: Seq<T>, prefix: Seq<char>) -> nat {
    let a = max_prefixed(fork, prefix);
    let b = max_prefixed(ours, prefix);
    let c = max_prefixed(theirs, prefix);
    let m = if a >= b { a } else { b };
    (if m >= c { m } else { c }) + 1
}

/// The renames of one family's colliding additions on their side.
pub open spec fn added_family_plan<T: Artifact>(fork: Seq<T>, ours: Seq<T>, theirs: Seq<T>, prefix: Seq<char>)
    -> Seq<(Seq<char>, Seq<char>)> {
    added_plan_spec(theirs, ours, fork, next_of_three(fork, ours, theirs, prefix), prefix)
}

pub open spec fn added_family_fits<T: Artifact>(fork: Seq<T>, ours: Seq<T>, theirs: Seq<T>, prefix: Seq<char>) -> bool {
    next_of_three(fork, ours, theirs, prefix) + added_family_plan(fork, ours, theirs, prefix).len() <= u32::MAX
}

/// Every family's new numbers stay within the counters' range.
pub open spec fn deconflict_fits(base: Project, ours: Project, theirs: Project) -> bool {
    &&& added_family_fits(base.requirements.view(), ours.requirements.view(), theirs.requirements.view(), "REQ"@)
    &&& added_family_fits(base.hazards.view(), ours.hazards.view(), theirs.hazards.view(), "HAZ"@)
    &&& added_family_fits(base.safety_functions.view(), ours.safety_functions.view(), theirs.safety_functions.view(), "SF"@)
    &&& added_family_fits(base.safety_requirements.view(), ours.safety_requirements.view(),
        theirs.safety_requirements.view(), "SR"@)
}

/// All renames of colliding additions: requirements, hazards, safety
/// functions, then safety requirements.
pub open spec fn all_added_plans(base: Project, ours: Project, theirs: Project) -> Seq<(Seq<char>, Seq<char>)> {
    added_family_plan(base.requirements.view(), ours.requirements.view(), theirs.requirements.view(), "REQ"@)
        + added_family_plan(base.hazards.view(), ours.hazards.view(), theirs.hazards.view(), "HAZ"@)
        + added_family_plan(base.safety_functions.view(), ours.safety_functions.view(), theirs.safety_functions.view(), "SF"@)
        + added_family_plan(base.safety_requirements.view(), ours.safety_requirements.view(),
            theirs.safety_requirements.view(), "SR"@)
}

/// `t2` is their side `t` with every colliding addition moved to its new
/// id (the move noted in its history) and every link following the moves;
/// everything else is kept.
pub open spec fn deconflicted(t: Project, t2: Project, base: Project, ours: Project, ctx: ActionContext) -> bool {
    let all = all_added_plans(base, ours, t);
    &&& t2 == Project {
        requirements: t2.requirements,
        hazards: t2.hazards,
        safety_functions: t2.safety_functions,
        safety_requirements: t2.safety_requirements,
        ..t
    }
    &&& family_renumbered(t.requirements.view(), t2.requirements.view(),
        added_family_plan(base.requirements.view(), ours.requirements.view(), t.requirements.view(), "REQ"@), all, ctx,
        COLLISION_NOTE@)
    &&& family_renumbered(t.hazards.view(), t2.hazards.view(),
        added_family_plan(base.hazards.view(), ours.hazards.view(), t.hazards.view(), "HAZ"@), all, ctx, COLLISION_NOTE@)
    &&& family_renumbered(t.safety_functions.view(), t2.safety_functions.view(),
        added_family_plan(base.safety_functions.view(), ours.safety_functions.view(), t.safety_functions.view(), "SF"@),
        all, ctx, COLLISION_NOTE@)
    &&& family_renumbered(t.safety_requirements.view(), t2.safety_requirements.view(),
        added_family_plan(base.safety_requirements.view(), ours.safety_requirements.view(),
            t.safety_requirements.view(), "SR"@), all, ctx, COLLISION_NOTE@)
}

fn first_of_three<T: Keyed>(fork: &IdMap<T>, ours: &IdMap<T>, theirs: &IdMap<T>, prefix: &str) -> (n: u64)
    ensures
        n == next_of_three(fork.view(), ours.view(), theirs.view(), prefix@),
{
    let a = max_number(fork, prefix);
    let b = max_number(ours, prefix);
    let c = max_number(theirs, prefix);
    let m = if a >= b { a } else { b };
    (if m >= c { m } else { c }) + 1
}

fn added_family<T: Artifact>(fork: &IdMap<T>, ours: &IdMap<T>, theirs: &IdMap<T>, prefix: &str) -> (r: Vec<(String, String)>)
    requires
        added_family_fits(fork.view(), ours.view(), theirs.view(), prefix@),
    ensures
        pair_views(r@) == added_family_plan(fork.view(), ours.view(), theirs.view(), prefix@),
{
    let next = first_of_three(fork, ours, theirs, prefix);
    plan_added(theirs, ours, fork, next, prefix)
}

/// Before a three-way merge, renumber every artifact on their side whose id
/// neither side had at the fork point `base` but our side gave to a
/// different artifact (both sides created one at the same automatic id):
/// each moves, in id order, to the next free number of its family above all
/// three sides, its history notes the move, and every link follows. Both
/// artifacts are kept. Gives how many were renumbered; their side is
/// unchanged when none collides.
pub fn deconflict_added_ids(base: &Project, ours: &Project, theirs: &mut Project, ctx: &ActionContext) -> (n: usize)
    requires
        deconflict_fits(*base, *ours, *old(theirs)),
    ensures
        n == all_added_plans(*base, *ours, *old(theirs)).len(),
        n == 0 ==> *final(theirs) == *old(theirs),
        n > 0 ==> deconflicted(*old(theirs), *final(theirs), *base, *ours, *ctx),
{
    let mut rq = added_family(&base.requirements, &ours.requirements, &theirs.requirements, "REQ");
    let mut hz = added_family(&base.hazards, &ours.hazards, &theirs.hazards, "HAZ");
    let mut sf = added_family(&base.safety_functions, &ours.safety_functions, &theirs.safety_functions, "SF");
    let mut sr = added_family(&base.safety_requirements, &ours.safety_requirements, &theirs.safety_requirements, "SR");
    let ghost (vq, vh, vf, vr) = (rq@, hz@, sf@, sr@);
    proof {
        lemma_pair_views_add(vq, vh);
        lemma_pair_views_add(vq + vh, vf);
        lemma_pair_views_add(vq + vh + vf, vr);
    }
    let quiet = rq.len() == 0 && hz.len() == 0 && sf.len() == 0 && sr.len() == 0;
    if !quiet {
        rekey(&mut theirs.requirements, &rq, ctx, COLLISION_NOTE);
        rekey(&mut theirs.hazards, &hz, ctx, COLLISION_NOTE);
        rekey(&mut theirs.safety_functions, &sf, ctx, COLLISION_NOTE);
        rekey(&mut theirs.safety_requirements, &sr, ctx, COLLISION_NOTE);
    }
    let mut all: Vec<(String, String)> = Vec::new();
    all.append(&mut rq);
    all.append(&mut hz);
    all.append(&mut sf);
    all.append(&mut sr);
    assert(all@ =~= vq + vh + vf + vr);
    if !quiet {
        relink_all(&mut theirs.requirements, &all);
        relink_all(&mut theirs.hazards, &all);
        relink_all(&mut theirs.safety_functions, &all);
        relink_all(&mut theirs.safety_requirements, &all);
    }
    all.len()
}


proof fn lemma_added_plan_len<T: Artifact>(cur: Seq<T>, ours: Seq<T>, fork: Seq<T>, next: nat, prefix: Seq<char>)
    ensures
        added_plan_spec(cur, ours, fork, next, prefix).len() <= cur.len(),
    decreases cur.len(),
{
    if cur.len() > 0 {
        lemma_added_plan_len(cur.drop_last(), ours, fork, next, prefix);
    }
}

fn family_room<T: Artifact>(fork: &IdMap<T>, ours: &IdMap<T>, theirs: &IdMap<T>, prefix: &str) -> (b: bool)
    ensures
        b ==> added_family_fits(fork.view(), ours.view(), theirs.view(), prefix@),
{
    let next = first_of_three(fork, ours, theirs, prefix);
    proof {
        lemma_added_plan_len(theirs.view(), ours.view(), fork.view(), next as nat, prefix@);
    }
    let n = theirs.len();
    next <= 0xffff_ffff && (n as u64) <= 0xffff_ffff - next
}

/// Whether every family has room for renumbering all of its additions on
/// their side (true when the numbers cannot run out).
pub fn deconflict_room(base: &Project, ours: &Project, theirs: &Project) -> (b: bool)
    ensures
        b ==> deconflict_fits(*base, *ours, *theirs),
{
    family_room(&base.requirements, &ours.requirements, &theirs.requirements, "REQ")
        && family_room(&base.hazards, &ours.hazards, &theirs.hazards, "HAZ")
        && family_room(&base.safety_functions, &ours.safety_functions, &theirs.safety_functions, "SF")
        && family_room(&base.safety_requirements, &ours.safety_requirements, &theirs.safety_requirements, "SR")
}


proof fn lemma_added_plan_shape<T: Artifact>(cur: Seq<T>, ours: Seq<T>, fork: Seq<T>, next: nat, prefix: Seq<char>)
    ensures
        forall|k: int| 0 <= k < added_plan_spec(cur, ours, fork, next, prefix).len() ==> {
            let p = #[trigger] added_plan_spec(cur, ours, fork, next, prefix)[k];
            &&& p.1 == family_id(prefix, (next + k) as nat)
            &&& exists|j: int| 0 <= j < cur.len() && cur[j].key() == p.0 && added_collision(#[trigger] cur[j], ours, fork)
        },
    decreases cur.len(),
{
    if cur.len() > 0 {
        let d = cur.drop_last();
        lemma_added_plan_shape(d, ours, fork, next, prefix);
        let rest = added_plan_spec(d, ours, fork, next, prefix);
        let all = added_plan_spec(cur, ours, fork, next, prefix);
        let last = cur.len() - 1;
        assert(cur.last() == cur[last]);
        if added_collision(cur[last], ours, fork) {
            assert(all == rest.push((cur[last].key(), family_id(prefix, next + rest.len()))));
        } else {
            assert(all == rest);
        }
        assert forall|k: int| 0 <= k < all.len() implies {
            let p = #[trigger] all[k];
            &&& p.1 == family_id(prefix, (next + k) as nat)
            &&& exists|j: int| 0 <= j < cur.len() && cur[j].key() == p.0 && added_collision(#[trigger] cur[j], ours, fork)
        } by {
            if k < rest.len() {
                assert(all[k] == rest[k]);
                let p = rest[k];
                assert(exists|j: int| 0 <= j < d.len() && d[j].key() == p.0 && added_collision(#[trigger] d[j], ours, fork));
                let j = choose|j: int| 0 <= j < d.len() && d[j].key() == p.0 && added_collision(#[trigger] d[j], ours, fork);
                assert(cur[j] == d[j]);
            } else {
                assert(added_collision(cur[last], ours, fork));
            }
        }
    }
}

/// Renumbering colliding additions cannot itself collide: every id it moves
/// was added on both sides (absent at the fork), and every new id is held on
/// none of the three sides.
pub proof fn lemma_added_renames_fresh<T: Artifact>(fork: Seq<T>, ours: Seq<T>, theirs: Seq<T>, prefix: Seq<char>)
    requires
        added_family_fits(fork, ours, theirs, prefix),
    ensures
        forall|k: int| 0 <= k < added_family_plan(fork, ours, theirs, prefix).len() ==> {
            let p = #[trigger] added_family_plan(fork, ours, theirs, prefix)[k];
            &&& has_key(theirs, p.0) && has_key(ours, p.0) && !has_key(fork, p.0)
            &&& !has_key(theirs, p.1) && !has_key(ours, p.1) && !has_key(fork, p.1)
        },
{
    let next = next_of_three(fork, ours, theirs, prefix);
    let plan = added_family_plan(fork, ours, theirs, prefix);
    lemma_added_plan_shape(theirs, ours, fork, next, prefix);
    assert forall|k: int| 0 <= k < plan.len() implies {
        let p = #[trigger] plan[k];
        &&& has_key(theirs, p.0) && has_key(ours, p.0) && !has_key(fork, p.0)
        &&& !has_key(theirs, p.1) && !has_key(ours, p.1) && !has_key(fork, p.1)
    } by {
        let p = plan[k];
        let n = (next + k) as nat;
        lemma_family_id_number(prefix, n);
        let j = choose|j: int| 0 <= j < theirs.len() && theirs[j].key() == p.0 && added_collision(#[trigger] theirs[j], ours, fork);
        assert(has_key(theirs, p.0));
        if has_key(theirs, p.1) {
            let x = choose|x: int| 0 <= x < theirs.len() && #[trigger] theirs[x].key() == p.1;
            lemma_max_prefixed_each(theirs, prefix, x);
        }
        if has_key(ours, p.1) {
            let x = choose|x: int| 0 <= x < ours.len() && #[trigger] ours[x].key() == p.1;
            lemma_max_prefixed_each(ours, prefix, x);
        }
        if has_key(fork, p.1) {
            let x = choose|x: int| 0 <= x < fork.len() && #[trigger] fork[x].key() == p.1;
            lemma_max_prefixed_each(fork, prefix, x);
        }
    }
}

} // verus!
