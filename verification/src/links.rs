//! Links between requirements and the cycle rule: an asymmetric link
//! (parent, depends-on, refines, verifies) may not close a cycle of links
//! of its kind.
use vstd::prelude::*;

use crate::idmap::{has_key, lookup, IdMap, Keyed};
use crate::errors::ReqError;
use crate::ids::{normalize_id_spec, resolve_id};
use crate::model::{entry_records, history, ActionContext, HistoryEntry, Link, LinkKind, Project, Requirement};
use crate::text::{str_eq, views};

verus! {

/// `x` has a link of `kind` to `y`.
pub open spec fn edge(reqs: Seq<Requirement>, kind: LinkKind, x: Seq<char>, y: Seq<char>) -> bool {
    has_key(reqs, x) && exists|i: int| 0 <= i < lookup(reqs, x).unwrap().links@.len()
        && (#[trigger] lookup(reqs, x).unwrap().links@[i]).kind == kind
        && lookup(reqs, x).unwrap().links@[i].target@ == y
}

/// Consecutive entries of `q` are linked by `kind`.
pub open spec fn chain(reqs: Seq<Requirement>, kind: LinkKind, q: Seq<Seq<char>>) -> bool {
    forall|i: int| 0 <= i < q.len() - 1 ==> edge(reqs, kind, #[trigger] q[i], q[i + 1])
}

/// `q` is a chain of `kind` links from `a` to `b`.
pub open spec fn path_from_to(reqs: Seq<Requirement>, kind: LinkKind, q: Seq<Seq<char>>, a: Seq<char>, b: Seq<char>) -> bool {
    q.len() >= 1 && q[0] == a && q.last() == b && chain(reqs, kind, q)
}

/// `b` can be reached from `a` along links of `kind` (in zero steps too).
pub open spec fn reachable(reqs: Seq<Requirement>, kind: LinkKind, a: Seq<char>, b: Seq<char>) -> bool {
    exists|q: Seq<Seq<char>>| #[trigger] path_from_to(reqs, kind, q, a, b)
}

/// Some entry of the stack stands on node `y`.
pub open spec fn on_stack(stack: Seq<(String, Vec<String>)>, y: Seq<char>) -> bool {
    exists|i: int| 0 <= i < stack.len() && (#[trigger] stack[i]).0@ == y
}

/// Every successor of a visited node is visited or waiting on the stack.
pub open spec fn closed(reqs: Seq<Requirement>, kind: LinkKind, visited: Set<Seq<char>>, stack: Seq<(String, Vec<String>)>) -> bool {
    forall|v: Seq<char>, y: Seq<char>| #[trigger] visited.contains(v) && #[trigger] edge(reqs, kind, v, y)
        ==> visited.contains(y) || on_stack(stack, y)
}

/// In a set closed under `kind` links, every chain starting inside stays inside.
proof fn lemma_closed_chain(reqs: Seq<Requirement>, kind: LinkKind, visited: Set<Seq<char>>, q: Seq<Seq<char>>, i: int)
    requires
        closed(reqs, kind, visited, Seq::empty()),
        chain(reqs, kind, q),
        q.len() >= 1,
        visited.contains(q[0]),
        0 <= i < q.len(),
    ensures
        visited.contains(q[i]),
    decreases i,
{
    if i > 0 {
        lemma_closed_chain(reqs, kind, visited, q, i - 1);
        assert(edge(reqs, kind, q[i - 1], q[i]));
        assert(!on_stack(Seq::<(String, Vec<String>)>::empty(), q[i]));
    }
}

/// The keys of a list of requirements.
pub open spec fn key_set(reqs: Seq<Requirement>) -> Set<Seq<char>> {
    reqs.map_values(|r: Requirement| r.key()).to_set()
}

proof fn lemma_intersect_bound(vs: Set<Seq<char>>, ks: Set<Seq<char>>)
    requires
        ks.finite(),
    ensures
        vs.intersect(ks).finite(),
        vs.intersect(ks).len() <= ks.len(),
{
    vstd::set_lib::lemma_len_subset(vs.intersect(ks), ks);
}

proof fn lemma_insert_key(vs: Set<Seq<char>>, ks: Set<Seq<char>>, x: Seq<char>, reqs: Seq<Requirement>)
    requires
        ks == key_set(reqs),
        ks.finite(),
        !vs.contains(x),
        has_key(reqs, x),
    ensures
        vs.insert(x).intersect(ks).len() == vs.intersect(ks).len() + 1,
{
    let i = choose|i: int| 0 <= i < reqs.len() && #[trigger] reqs[i].key() == x;
    assert(reqs.map_values(|r: Requirement| r.key())[i] == x);
    assert(ks.contains(x));
    lemma_intersect_bound(vs, ks);
    assert(vs.insert(x).intersect(ks) =~= vs.intersect(ks).insert(x));
}

proof fn lemma_insert_non_key(vs: Set<Seq<char>>, ks: Set<Seq<char>>, x: Seq<char>)
    requires
        !ks.contains(x),
    ensures
        vs.insert(x).intersect(ks) == vs.intersect(ks),
{
    assert(vs.insert(x).intersect(ks) =~= vs.intersect(ks));
}

/// The links of `kind` from `node`, pushed onto the search stack, each with
/// its path extended.
fn push_successors(stack: &mut Vec<(String, Vec<String>)>, reqs: &IdMap<Requirement>, node: &str, r: &Requirement,
    kind: LinkKind, path: &Vec<String>)
    requires
        lookup(reqs.view(), node@) == Some(*r),
        has_key(reqs.view(), node@),
    ensures
        final(stack)@.len() >= old(stack)@.len(),
        final(stack)@.subrange(0, old(stack)@.len() as int) == old(stack)@,
        forall|y: Seq<char>| #[trigger] edge(reqs.view(), kind, node@, y) ==> on_stack(final(stack)@, y),
        forall|j: int| old(stack)@.len() <= j < final(stack)@.len() ==>
            views((#[trigger] final(stack)@[j]).1@) == views(path@).push(final(stack)@[j].0@)
            && edge(reqs.view(), kind, node@, final(stack)@[j].0@),
{
    let ghost s0 = stack@;
    let ghost rv = reqs.view();
    let mut i: usize = 0;
    while i < r.links.len()
        invariant
            s0 == old(stack)@,
            rv == reqs.view(),
            lookup(rv, node@) == Some(*r),
            has_key(rv, node@),
            i <= r.links@.len(),
            stack@.len() >= s0.len(),
            stack@.subrange(0, s0.len() as int) == s0,
            forall|k: int| 0 <= k < i && (#[trigger] r.links@[k]).kind == kind ==> on_stack(stack@, r.links@[k].target@),
            forall|j: int| s0.len() <= j < stack@.len() ==>
                views((#[trigger] stack@[j]).1@) == views(path@).push(stack@[j].0@)
                && edge(rv, kind, node@, stack@[j].0@),
        decreases r.links@.len() - i,
    {
        let l = &r.links[i];
        if l.kind == kind {
            let mut next_path = crate::text::clone_strings(path);
            next_path.push(l.target.clone());
            let ghost before = stack@;
            stack.push((l.target.clone(), next_path));
            proof {
                assert(stack@.subrange(0, s0.len() as int) =~= before.subrange(0, s0.len() as int));
                assert(views(next_path@) =~= views(path@).push(l.target@));
                assert(edge(rv, kind, node@, l.target@)) by {
                    assert(lookup(rv, node@).unwrap().links@[i as int] == *l);
                }
                assert forall|k: int| 0 <= k < i + 1 && (#[trigger] r.links@[k]).kind == kind implies on_stack(stack@, r.links@[k].target@) by {
                    if k < i {
                        let w = choose|w: int| 0 <= w < before.len() && (#[trigger] before[w]).0@ == r.links@[k].target@;
                        assert(stack@[w] == before[w]);
                    } else {
                        assert(stack@[before.len() as int].0@ == r.links@[k].target@);
                    }
                }
                assert forall|j: int| s0.len() <= j < stack@.len() implies
                    views((#[trigger] stack@[j]).1@) == views(path@).push(stack@[j].0@)
                    && edge(rv, kind, node@, stack@[j].0@) by {
                    if j < before.len() {
                        assert(stack@[j] == before[j]);
                    }
                }
            }
        }
        i = i + 1;
    }
    proof {
        assert forall|y: Seq<char>| #[trigger] edge(rv, kind, node@, y) implies on_stack(stack@, y) by {
            let k = choose|k: int| 0 <= k < lookup(rv, node@).unwrap().links@.len()
                && (#[trigger] lookup(rv, node@).unwrap().links@[k]).kind == kind
                && lookup(rv, node@).unwrap().links@[k].target@ == y;
            assert(r.links@[k].kind == kind);
        }
    }
}

/// Every stack entry holds a path from `target` to its node.
pub open spec fn paths_ok(reqs: Seq<Requirement>, kind: LinkKind, target: Seq<char>, st: Seq<(String, Vec<String>)>) -> bool {
    forall|i: int| 0 <= i < st.len() ==> path_from_to(reqs, kind, views((#[trigger] st[i]).1@), target, st[i].0@)
}

/// The search state: no visited `from`, the start visited or waiting,
/// visited nodes closed over the stack, and every entry a path.
pub open spec fn search_ok(reqs: Seq<Requirement>, kind: LinkKind, target: Seq<char>, vs: Set<Seq<char>>,
    st: Seq<(String, Vec<String>)>) -> bool {
    &&& vs.contains(target) || on_stack(st, target)
    &&& closed(reqs, kind, vs, st)
    &&& paths_ok(reqs, kind, target, st)
}

/// Popping an entry whose node is already visited keeps the search state.
proof fn lemma_skip_visited(reqs: Seq<Requirement>, kind: LinkKind, target: Seq<char>, vs: Set<Seq<char>>,
    st: Seq<(String, Vec<String>)>)
    requires
        st.len() > 0,
        vs.contains(st.last().0@),
        search_ok(reqs, kind, target, vs, st),
    ensures
        search_ok(reqs, kind, target, vs, st.drop_last()),
{
    let s1 = st.drop_last();
    assert forall|v: Seq<char>, y: Seq<char>| #[trigger] vs.contains(v) && #[trigger] edge(reqs, kind, v, y)
        implies vs.contains(y) || on_stack(s1, y) by {
        if !vs.contains(y) {
            let w = choose|w: int| 0 <= w < st.len() && (#[trigger] st[w]).0@ == y;
            assert(w < st.len() - 1);
            assert(s1[w] == st[w]);
        }
    }
    if !vs.contains(target) {
        let w = choose|w: int| 0 <= w < st.len() && (#[trigger] st[w]).0@ == target;
        assert(s1[w] == st[w]);
    }
    assert forall|i: int| 0 <= i < s1.len() implies path_from_to(reqs, kind, views((#[trigger] s1[i]).1@), target, s1[i].0@) by {
        assert(s1[i] == st[i]);
    }
}

/// Visiting a new node and pushing its successors keeps the search state.
proof fn lemma_expand(reqs: Seq<Requirement>, kind: LinkKind, target: Seq<char>, vs: Set<Seq<char>>,
    st0: Seq<(String, Vec<String>)>, st2: Seq<(String, Vec<String>)>)
    requires
        st0.len() > 0,
        search_ok(reqs, kind, target, vs, st0),
        st2.len() >= st0.len() - 1,
        st2.subrange(0, st0.len() - 1) == st0.drop_last(),
        forall|y: Seq<char>| #[trigger] edge(reqs, kind, st0.last().0@, y) ==> on_stack(st2, y),
        forall|j: int| st0.len() - 1 <= j < st2.len() ==>
            views((#[trigger] st2[j]).1@) == views(st0.last().1@).push(st2[j].0@)
            && edge(reqs, kind, st0.last().0@, st2[j].0@),
    ensures
        search_ok(reqs, kind, target, vs.insert(st0.last().0@), st2),
{
    let node = st0.last().0@;
    let pv = views(st0.last().1@);
    let n1 = st0.len() - 1;
    let vs1 = vs.insert(node);
    assert forall|w: int| 0 <= w < n1 implies #[trigger] st2[w] == st0[w] by {
        assert(st2.subrange(0, n1)[w] == st0.drop_last()[w]);
    }
    assert forall|v: Seq<char>, y: Seq<char>| #[trigger] vs1.contains(v) && #[trigger] edge(reqs, kind, v, y)
        implies vs1.contains(y) || on_stack(st2, y) by {
        if v == node {
        } else if !vs1.contains(y) {
            assert(vs.contains(v));
            let w = choose|w: int| 0 <= w < st0.len() && (#[trigger] st0[w]).0@ == y;
            if w < n1 {
                assert(st2[w] == st0[w]);
            }
        }
    }
    if !vs1.contains(target) {
        let w = choose|w: int| 0 <= w < st0.len() && (#[trigger] st0[w]).0@ == target;
        if w < n1 {
            assert(st2[w] == st0[w]);
        }
    }
    assert(path_from_to(reqs, kind, pv, target, node));
    assert forall|i: int| 0 <= i < st2.len() implies path_from_to(reqs, kind, views((#[trigger] st2[i]).1@), target, st2[i].0@) by {
        if i < n1 {
            assert(st2[i] == st0[i]);
        } else {
            let e = st2[i];
            let q = views(e.1@);
            assert(q =~= pv.push(e.0@));
            assert forall|j: int| 0 <= j < q.len() - 1 implies edge(reqs, kind, #[trigger] q[j], q[j + 1]) by {
                if j < pv.len() - 1 {
                    assert(q[j] == pv[j] && q[j + 1] == pv[j + 1]);
                } else {
                    assert(q[j] == node);
                }
            }
        }
    }
}

/// At the end of the search the visited set is closed and holds the start,
/// so it holds everything reachable from there.
proof fn lemma_exhausted(reqs: Seq<Requirement>, kind: LinkKind, target: Seq<char>, vs: Set<Seq<char>>, b: Seq<char>)
    requires
        search_ok(reqs, kind, target, vs, Seq::empty()),
        reachable(reqs, kind, target, b),
    ensures
        vs.contains(b),
{
    let q = choose|q: Seq<Seq<char>>| #[trigger] path_from_to(reqs, kind, q, target, b);
    if !vs.contains(target) {
        assert(!on_stack(Seq::<(String, Vec<String>)>::empty(), target));
    }
    lemma_closed_chain(reqs, kind, vs, q, q.len() - 1);
}

/// Search forward from `target` along every link of `kind` for `from`.
/// When found, the path from `target` to `from` is returned: linking
/// `from` to `target` would close a cycle along it. `None` exactly when
/// `from` cannot be reached from `target`.
#[verifier::spinoff_prover]
pub fn cycle_path(reqs: &IdMap<Requirement>, from: &str, target: &str, kind: LinkKind) -> (r: Option<Vec<String>>)
    ensures
        match r {
            Some(p) => path_from_to(reqs.view(), kind, views(p@), target@, from@),
            None => !reachable(reqs.view(), kind, target@, from@),
        },
{
    let ghost rv = reqs.view();
    let ghost ks = key_set(rv);
    let kn = reqs.len();
    proof {
        rv.map_values(|r: Requirement| r.key()).lemma_cardinality_of_set();
    }
    let mut first_path: Vec<String> = Vec::new();
    first_path.push(crate::text::string_of(&crate::text::chars_of(target)));
    let mut stack: Vec<(String, Vec<String>)> = Vec::new();
    stack.push((crate::text::string_of(&crate::text::chars_of(target)), first_path));
    let mut visited: Vec<String> = Vec::new();
    proof {
        assert(views(stack@[0].1@) =~= seq![target@]);
        assert(on_stack(stack@, target@)) by {
            assert(stack@[0].0@ == target@);
        }
        assert(paths_ok(rv, kind, target@, stack@)) by {
            assert forall|i: int| 0 <= i < stack@.len() implies path_from_to(rv, kind, views((#[trigger] stack@[i]).1@), target@, stack@[i].0@) by {
                assert(i == 0);
            }
        }
        assert(views(visited@).to_set() =~= Set::<Seq<char>>::empty());
    }
    while stack.len() > 0
        invariant
            rv == reqs.view(),
            ks == key_set(rv),
            kn == rv.len(),
            ks.finite(),
            ks.len() <= kn,
            views(visited@).no_duplicates(),
            !views(visited@).to_set().contains(from@),
            search_ok(rv, kind, target@, views(visited@).to_set(), stack@),
        decreases kn - views(visited@).to_set().intersect(ks).len(), stack@.len(),
    {
        let ghost vs0 = views(visited@).to_set();
        let ghost st0 = stack@;
        let (node, path) = stack.pop().unwrap();
        assert(stack@ =~= st0.drop_last());
        assert(st0.last() == (node, path));
        if str_eq(node.as_str(), from) {
            assert(path_from_to(rv, kind, views(st0[st0.len() - 1].1@), target@, st0[st0.len() - 1].0@));
            return Some(path);
        }
        proof {
            lemma_intersect_bound(vs0, ks);
        }
        if crate::text::contains_str(&visited, node.as_str()) {
            proof {
                lemma_skip_visited(rv, kind, target@, vs0, st0);
            }
            continue;
        }
        let ghost node_v = node@;
        let ghost vis0 = views(visited@);
        visited.push(crate::text::string_of(&crate::text::chars_of(node.as_str())));
        proof {
            assert(views(visited@) =~= vis0.push(node_v));
            assert forall|y: Seq<char>| #[trigger] views(visited@).to_set().contains(y) == vs0.insert(node_v).contains(y) by {
                if views(visited@).to_set().contains(y) {
                    let k = choose|k: int| 0 <= k < views(visited@).len() && views(visited@)[k] == y;
                    if k < vis0.len() {
                        assert(vis0[k] == y);
                    }
                }
                if vs0.contains(y) {
                    let k = choose|k: int| 0 <= k < vis0.len() && vis0[k] == y;
                    assert(views(visited@)[k] == y);
                }
                if y == node_v {
                    assert(views(visited@)[vis0.len() as int] == y);
                }
            }
            assert(views(visited@).to_set() =~= vs0.insert(node_v));
            assert(views(visited@).no_duplicates()) by {
                assert forall|a: int, b: int| 0 <= a < b < views(visited@).len() implies views(visited@)[a] != views(visited@)[b] by {
                    if b == views(visited@).len() - 1 {
                        assert(vs0.contains(views(visited@)[a]));
                    }
                }
            }
        }
        match reqs.get(node.as_str()) {
            Some(r) => {
                push_successors(&mut stack, reqs, node.as_str(), r, kind, &path);
                proof {
                    lemma_insert_key(vs0, ks, node_v, rv);
                }
            },
            None => {
                proof {
                    lemma_insert_non_key(vs0, ks, node_v);
                    assert(stack@.subrange(0, st0.len() - 1) =~= st0.drop_last());
                    assert forall|y: Seq<char>| #[trigger] edge(rv, kind, node_v, y) implies on_stack(stack@, y) by {
                    }
                }
            },
        }
        proof {
            lemma_expand(rv, kind, target@, vs0, st0, stack@);
            lemma_intersect_bound(vs0.insert(node_v), ks);
        }
    }
    proof {
        if reachable(rv, kind, target@, from@) {
            assert(stack@ =~= Seq::<(String, Vec<String>)>::empty());
            lemma_exhausted(rv, kind, target@, views(visited@).to_set(), from@);
        }
    }
    None
}


/// Whether linking `from` to `target` by `kind` would close a cycle:
/// `from` can be reached from `target` along links of `kind`, following
/// every such link of each requirement (the check `req link` makes).
pub fn creates_cycle(reqs: &IdMap<Requirement>, from: &str, target: &str, kind: LinkKind) -> (b: bool)
    ensures
        b == reachable(reqs.view(), kind, target@, from@),
{
    match cycle_path(reqs, from, target, kind) {
        Some(p) => {
            assert(path_from_to(reqs.view(), kind, views(p@), target@, from@));
            true
        },
        None => false,
    }
}


// ---------------------------------------------------------------------------
// The cycle rule preserved
// ---------------------------------------------------------------------------

/// No chain of one or more `kind` links leads from a node back to itself.
pub open spec fn acyclic(reqs: Seq<Requirement>, kind: LinkKind) -> bool {
    forall|q: Seq<Seq<char>>| #[trigger] chain(reqs, kind, q) && q.len() >= 2 ==> q[0] != q.last()
}

/// A chain that leads to `b` has a prefix that leads to `b` and meets `b`
/// only at its end.
proof fn lemma_first_arrival(reqs: Seq<Requirement>, kind: LinkKind, q: Seq<Seq<char>>, b: Seq<char>)
    requires
        chain(reqs, kind, q),
        q.len() >= 1,
        q.last() == b,
    ensures
        exists|k: int| 0 <= k < q.len() && q[k] == b && (forall|j: int| 0 <= j < k ==> q[j] != b),
    decreases q.len(),
{
    if exists|k: int| 0 <= k < q.len() - 1 && q[k] == b {
        let p = q.drop_last();
        let k0 = choose|k: int| 0 <= k < q.len() - 1 && q[k] == b;
        let p2 = q.take(k0 + 1);
        assert(chain(reqs, kind, p2)) by {
            assert forall|i: int| 0 <= i < p2.len() - 1 implies edge(reqs, kind, #[trigger] p2[i], p2[i + 1]) by {
                assert(p2[i] == q[i] && p2[i + 1] == q[i + 1]);
            }
        }
        lemma_first_arrival(reqs, kind, p2, b);
        let k = choose|k: int| 0 <= k < p2.len() && p2[k] == b && (forall|j: int| 0 <= j < k ==> p2[j] != b);
        assert(q[k] == b);
        assert forall|j: int| 0 <= j < k implies q[j] != b by {
            assert(p2[j] == q[j]);
        }
    } else {
        assert(q[q.len() - 1] == b);
    }
}

/// Adding the link `from` → `to` to an acyclic graph keeps it acyclic
/// when `from` cannot be reached from `to` beforehand: this is why the
/// cycle check suffices.
pub proof fn lemma_link_keeps_acyclic(old: Seq<Requirement>, new: Seq<Requirement>, kind: LinkKind, from: Seq<char>, to: Seq<char>)
    requires
        acyclic(old, kind),
        !reachable(old, kind, to, from),
        forall|x: Seq<char>, y: Seq<char>| #[trigger] edge(new, kind, x, y) ==> edge(old, kind, x, y) || (x == from && y == to),
    ensures
        acyclic(new, kind),
{
    assert forall|q: Seq<Seq<char>>| #[trigger] chain(new, kind, q) && q.len() >= 2 implies q[0] != q.last() by {
        if q[0] == q.last() {
            if exists|i: int| 0 <= i < q.len() - 1 && #[trigger] q[i] == from && q[i + 1] == to && !edge(old, kind, q[i], q[i + 1]) {
                let i = choose|i: int| 0 <= i < q.len() - 1 && #[trigger] q[i] == from && q[i + 1] == to && !edge(old, kind, q[i], q[i + 1]);
                // The cycle read from `to` round to `from`.
                let r = q.subrange(i + 1, q.len() as int) + q.subrange(1, i + 1);
                assert(r[0] == to);
                assert(r.last() == from);
                assert(chain(new, kind, r)) by {
                    assert forall|j: int| 0 <= j < r.len() - 1 implies edge(new, kind, #[trigger] r[j], r[j + 1]) by {
                        let a = q.len() - 1 - i;
                        if j < a - 1 {
                            assert(r[j] == q[i + 1 + j] && r[j + 1] == q[i + 2 + j]);
                        } else if j == a - 1 {
                            assert(r[j] == q[q.len() - 1]);
                            assert(r[j + 1] == q[1]);
                            assert(edge(new, kind, q[0], q[1]));
                        } else {
                            assert(r[j] == q[1 + j - a] && r[j + 1] == q[2 + j - a]);
                        }
                    }
                }
                lemma_first_arrival(new, kind, r, from);
                let k = choose|k: int| 0 <= k < r.len() && r[k] == from && (forall|j: int| 0 <= j < k ==> r[j] != from);
                let p = r.take(k + 1);
                assert(chain(old, kind, p)) by {
                    assert forall|j: int| 0 <= j < p.len() - 1 implies edge(old, kind, #[trigger] p[j], p[j + 1]) by {
                        assert(p[j] == r[j] && p[j + 1] == r[j + 1]);
                        assert(r[j] != from);
                    }
                }
                assert(path_from_to(old, kind, p, to, from));
            } else {
                assert(chain(old, kind, q)) by {
                    assert forall|j: int| 0 <= j < q.len() - 1 implies edge(old, kind, #[trigger] q[j], q[j + 1]) by {
                        assert(edge(new, kind, q[j], q[j + 1]));
                    }
                }
            }
        }
    }
}


// ---------------------------------------------------------------------------
// `req link`
// ---------------------------------------------------------------------------

/// The kinds the cycle rule applies to (`conflicts` is symmetric).
pub open spec fn cycle_checked(k: LinkKind) -> bool {
    k == LinkKind::Parent || k == LinkKind::DependsOn || k == LinkKind::Refines || k == LinkKind::Verifies
}

/// A link of `kind` to `to` is among `ls`.
pub open spec fn has_link(ls: Seq<Link>, kind: LinkKind, to: Seq<char>) -> bool {
    exists|i: int| 0 <= i < ls.len() && (#[trigger] ls[i]).kind == kind && ls[i].target@ == to
}

/// `ls` without its links of `kind` to `to`, in order.
pub open spec fn without_link(ls: Seq<Link>, kind: LinkKind, to: Seq<char>) -> Seq<Link>
    decreases ls.len(),
{
    if ls.len() == 0 {
        ls
    } else {
        let rest = without_link(ls.drop_last(), kind, to);
        if ls.last().kind == kind && ls.last().target@ == to { rest } else { rest.push(ls.last()) }
    }
}

/// The requirement a typed id names, when it exists.
pub open spec fn resolved(p: Project, raw: Seq<char>) -> Option<Seq<char>> {
    if has_key(p.requirements.view(), normalize_id_spec(raw)) { Some(normalize_id_spec(raw)) } else { None }
}

/// `new` is `old` with requirement `id`'s links set to `links`, one history
/// entry appended and its time stamp, and the project's, set to `now`.
pub open spec fn links_step(old: Project, new: Project, id: Seq<char>, links: Seq<Link>, now: String) -> bool {
    let o = lookup(old.requirements.view(), id).unwrap();
    let n = lookup(new.requirements.view(), id).unwrap();
    &&& has_key(old.requirements.view(), id)
    &&& has_key(new.requirements.view(), id)
    &&& crate::idmap::replaced(old.requirements.view(), new.requirements.view(), n)
    &&& n == Requirement { links: n.links, history: n.history, updated: n.updated, ..o }
    &&& n.links@ == links
    &&& n.history@.len() == o.history@.len() + 1
    &&& n.history@.drop_last() == o.history@
    &&& n.updated == now
    &&& new.updated == now
    &&& new.name == old.name && new.hazards == old.hazards && new.safety_functions == old.safety_functions
    &&& new.safety_requirements == old.safety_requirements && new.calibration == old.calibration
    &&& new.calibration_label == old.calibration_label
}

/// The newest history entry of requirement `id`.
pub open spec fn newest_entry(p: Project, id: Seq<char>) -> HistoryEntry {
    lookup(p.requirements.view(), id).unwrap().history@.last()
}

fn set_links(project: &mut Project, id: &str, links: Vec<Link>, e: HistoryEntry)
    requires
        has_key(old(project).requirements.view(), id@),
    ensures
        links_step(*old(project), *final(project), id@, links@, e.at),
        newest_entry(*final(project), id@) == e,
{
    let stamp = e.at.clone();
    let stamp2 = e.at.clone();
    let mut r = project.requirements.remove(id).unwrap();
    let ghost o = r;
    r.links = links;
    r.history.push(e);
    r.updated = stamp;
    assert(r.history@.drop_last() =~= o.history@);
    let ghost mid = project.requirements.view();
    project.requirements.insert(r);
    proof {
        assert(!has_key(mid, id@));
    }
    project.updated = stamp2;
}

pub(crate) fn drop_link(ls: &Vec<Link>, kind: LinkKind, to: &str) -> (r: Vec<Link>)
    ensures
        r@ == without_link(ls@, kind, to@),
{
    let mut out: Vec<Link> = Vec::new();
    let mut i: usize = 0;
    while i < ls.len()
        invariant
            i <= ls@.len(),
            out@ == without_link(ls@.take(i as int), kind, to@),
        decreases ls@.len() - i,
    {
        assert(ls@.take(i + 1).drop_last() =~= ls@.take(i as int));
        assert(ls@.take(i + 1).last() == ls@[i as int]);
        let l = &ls[i];
        if !(l.kind == kind && str_eq(l.target.as_str(), to)) {
            out.push(Link { kind: l.kind, target: l.target.clone() });
        }
        i = i + 1;
    }
    assert(ls@.take(ls@.len() as int) =~= ls@);
    out
}

pub(crate) fn link_present(ls: &Vec<Link>, kind: LinkKind, to: &str) -> (b: bool)
    ensures
        b == has_link(ls@, kind, to@),
{
    let mut i: usize = 0;
    while i < ls.len()
        invariant
            i <= ls@.len(),
            forall|j: int| 0 <= j < i ==> !((#[trigger] ls@[j]).kind == kind && ls@[j].target@ == to@),
        decreases ls@.len() - i,
    {
        if ls[i].kind == kind && str_eq(ls[i].target.as_str(), to) {
            return true;
        }
        i = i + 1;
    }
    false
}

pub(crate) proof fn lemma_without_len(ls: Seq<Link>, kind: LinkKind, to: Seq<char>)
    ensures
        without_link(ls, kind, to).len() <= ls.len(),
        without_link(ls, kind, to).len() == ls.len() <==> !has_link(ls, kind, to),
    decreases ls.len(),
{
    if ls.len() > 0 {
        lemma_without_len(ls.drop_last(), kind, to);
        if has_link(ls.drop_last(), kind, to) {
            let i = choose|i: int| 0 <= i < ls.drop_last().len() && (#[trigger] ls.drop_last()[i]).kind == kind
                && ls.drop_last()[i].target@ == to;
            assert(ls[i] == ls.drop_last()[i]);
        }
        if has_link(ls, kind, to) && !(ls.last().kind == kind && ls.last().target@ == to) {
            let i = choose|i: int| 0 <= i < ls.len() && (#[trigger] ls[i]).kind == kind && ls[i].target@ == to;
            assert(ls.drop_last()[i] == ls[i]);
        }
    }
}

/// Add (or with `remove`, take away) the link of `kind` from one
/// requirement to another. Both ids must exist, a requirement cannot link
/// to itself, an asymmetric link may not close a cycle (the error names
/// it), a link can be added only once and removed only if present.
pub fn op_link(project: &mut Project, from_raw: &str, to_raw: &str, kind: LinkKind, remove: bool, ctx: &ActionContext)
    -> (r: Result<(), ReqError>)
    ensures
        r is Err ==> *final(project) == *old(project),
        match (resolved(*old(project), from_raw@), resolved(*old(project), to_raw@)) {
            (Some(from), Some(to)) => {
                let ls = lookup(old(project).requirements.view(), from).unwrap().links@;
                if from == to {
                    match r {
                        Err(ReqError::SelfLink { id }) => id@ == from,
                        _ => false,
                    }
                } else if cycle_checked(kind) && !remove && reachable(old(project).requirements.view(), kind, to, from) {
                    match r {
                        Err(ReqError::Cycle { from: f, to: t, kind: k, path }) => f@ == from && t@ == to && k == kind
                            && path_from_to(old(project).requirements.view(), kind, views(path@), to, from),
                        _ => false,
                    }
                } else if remove && !has_link(ls, kind, to) {
                    r == Err::<(), ReqError>(ReqError::NoSuchLink)
                } else if !remove && has_link(ls, kind, to) {
                    r == Err::<(), ReqError>(ReqError::DuplicateLink)
                } else {
                    &&& r is Ok
                    &&& links_step(*old(project), *final(project), from,
                        if remove { without_link(ls, kind, to) } else { ls.push(lookup(final(project).requirements.view(), from).unwrap().links@.last()) },
                        ctx.now)
                    &&& !remove ==> lookup(final(project).requirements.view(), from).unwrap().links@.last().kind == kind
                        && lookup(final(project).requirements.view(), from).unwrap().links@.last().target@ == to
                    &&& entry_records(newest_entry(*final(project), from), *ctx,
                        (if remove { "removed "@ } else { "added "@ }) + kind.name() + " link to "@ + to, None)
                }
            },
            _ => r is Err,
        },
{
    let from = resolve_id(project, from_raw)?;
    let to = resolve_id(project, to_raw)?;
    if str_eq(from.as_str(), to.as_str()) {
        return Err(ReqError::SelfLink { id: from });
    }
    let checked = matches!(kind, LinkKind::Parent | LinkKind::DependsOn | LinkKind::Refines | LinkKind::Verifies);
    if checked && !remove {
        match cycle_path(&project.requirements, from.as_str(), to.as_str(), kind) {
            Some(path) => return Err(ReqError::Cycle { from, to, kind, path }),
            None => {},
        }
    }
    let r = project.requirements.get(from.as_str()).unwrap();
    let links = if remove {
        let kept = drop_link(&r.links, kind, to.as_str());
        proof {
            lemma_without_len(r.links@, kind, to@);
        }
        if kept.len() == r.links.len() {
            return Err(ReqError::NoSuchLink);
        }
        kept
    } else {
        if link_present(&r.links, kind, to.as_str()) {
            return Err(ReqError::DuplicateLink);
        }
        let mut ls = clone_links(&r.links);
        ls.push(Link { kind, target: to.clone() });
        ls
    };
    let mut action = crate::text::string_of(&crate::text::chars_of(if remove { "removed " } else { "added " }));
    action.append(kind.as_str());
    action.append(" link to ");
    action.append(to.as_str());
    let e = history(action, None, ctx);
    set_links(project, from.as_str(), links, e);
    Ok(())
}

pub(crate) fn clone_links(ls: &Vec<Link>) -> (r: Vec<Link>)
    ensures
        r@ == ls@,
{
    let mut out: Vec<Link> = Vec::new();
    let mut i: usize = 0;
    while i < ls.len()
        invariant
            i <= ls@.len(),
            out@ == ls@.take(i as int),
        decreases ls@.len() - i,
    {
        out.push(Link { kind: ls[i].kind, target: ls[i].target.clone() });
        assert(out@ =~= ls@.take(i + 1));
        i = i + 1;
    }
    assert(ls@.take(ls@.len() as int) =~= ls@);
    out
}


/// After `req link` adds a link of `kind` from `from` to `to`, the links of
/// that kind are the earlier ones plus the new one.
pub proof fn lemma_added_link_edges(old: Project, new: Project, from: Seq<char>, to: Seq<char>, kind: LinkKind, now: String)
    requires
        links_step(old, new, from,
            lookup(old.requirements.view(), from).unwrap().links@.push(lookup(new.requirements.view(), from).unwrap().links@.last()),
            now),
        lookup(new.requirements.view(), from).unwrap().links@.last().kind == kind,
        lookup(new.requirements.view(), from).unwrap().links@.last().target@ == to,
        crate::idmap::keys_sorted(old.requirements.view()),
        crate::idmap::keys_sorted(new.requirements.view()),
    ensures
        forall|x: Seq<char>, y: Seq<char>| #[trigger] edge(new.requirements.view(), kind, x, y)
            ==> edge(old.requirements.view(), kind, x, y) || (x == from && y == to),
{
    let ov = old.requirements.view();
    let nv = new.requirements.view();
    let n = lookup(nv, from).unwrap();
    assert forall|x: Seq<char>, y: Seq<char>| #[trigger] edge(nv, kind, x, y) implies edge(ov, kind, x, y) || (x == from && y == to) by {
        if x != from {
            crate::idmap::lemma_replaced_lookup(ov, nv, n, x);
        } else {
            let ls = lookup(ov, from).unwrap().links@;
            let i = choose|i: int| 0 <= i < lookup(nv, x).unwrap().links@.len()
                && (#[trigger] lookup(nv, x).unwrap().links@[i]).kind == kind && lookup(nv, x).unwrap().links@[i].target@ == y;
            if i < ls.len() {
                assert(lookup(nv, x).unwrap().links@[i] == ls[i]);
            }
        }
    }
}

} // verus!
