//! Ordered sets of strings and of string pairs, kept as sorted vectors
//! without repeats: they iterate in the order a `BTreeSet` would.
use vstd::prelude::*;

use crate::text::{chars_lt, chars_of, lemma_lt_asymmetric, lemma_lt_irreflexive, lemma_lt_total, lemma_lt_transitive, seq_lt, str_eq, views};

verus! {

/// Strictly increasing: sorted and without repeats.
pub open spec fn strictly_sorted(s: Seq<Seq<char>>) -> bool {
    forall|i: int, j: int| 0 <= i < j < s.len() ==> seq_lt(#[trigger] s[i], #[trigger] s[j])
}

/// Insert `x` into the sorted set `v`.
pub fn set_insert(v: &mut Vec<String>, x: String)
    requires
        strictly_sorted(views(old(v)@)),
    ensures
        strictly_sorted(views(final(v)@)),
        views(final(v)@).to_set() == views(old(v)@).to_set().insert(x@),
{
    let ghost o = views(v@);
    let xv = chars_of(x.as_str());
    let mut i: usize = 0;
    while i < v.len() && chars_lt(&chars_of(v[i].as_str()), &xv)
        invariant
            i <= v@.len(),
            o == views(v@),
            strictly_sorted(o),
            xv@ == x@,
            forall|j: int| 0 <= j < i ==> seq_lt(#[trigger] o[j], x@),
        decreases v@.len() - i,
    {
        i = i + 1;
    }
    if i < v.len() && str_eq(v[i].as_str(), x.as_str()) {
        assert(o[i as int] == x@);
        assert(o.to_set().insert(x@) =~= o.to_set());
        return;
    }
    proof {
        if i < o.len() {
            assert(!seq_lt(o[i as int], x@));
            assert(o[i as int] != x@);
            lemma_lt_total(o[i as int], x@);
            assert(seq_lt(x@, o[i as int]));
        }
    }
    v.insert(i, x);
    proof {
        let n = views(v@);
        assert(n =~= o.insert(i as int, x@));
        assert forall|a: int, b: int| 0 <= a < b < n.len() implies seq_lt(#[trigger] n[a], #[trigger] n[b]) by {
            if b < i {
            } else if a < i && b == i {
            } else if a < i && b > i {
                assert(seq_lt(o[a], x@));
                if i < o.len() {
                    assert(o[a] == n[a]);
                    assert(n[b] == o[b - 1]);
                }
            } else if a == i {
                assert(seq_lt(x@, o[i as int]));
                if b - 1 > i {
                    lemma_lt_transitive(x@, o[i as int], o[b - 1]);
                }
            } else {
                assert(n[a] == o[a - 1] && n[b] == o[b - 1]);
            }
        }
        assert forall|y: Seq<char>| #[trigger] n.to_set().contains(y) == o.to_set().insert(x@).contains(y) by {
            if n.to_set().contains(y) {
                let k = choose|k: int| 0 <= k < n.len() && n[k] == y;
                if k < i {
                    assert(o[k] == y);
                } else if k > i {
                    assert(o[k - 1] == y);
                }
            }
            if o.to_set().contains(y) {
                let k = choose|k: int| 0 <= k < o.len() && o[k] == y;
                if k < i {
                    assert(n[k] == y);
                } else {
                    assert(n[k + 1] == y);
                }
            }
            if y == x@ {
                assert(n[i as int] == y);
            }
        }
        assert(n.to_set() =~= o.to_set().insert(x@));
    }
}

/// Lexicographic order on pairs of strings, first by the first.
pub open spec fn pair_lt(a: (Seq<char>, Seq<char>), b: (Seq<char>, Seq<char>)) -> bool {
    seq_lt(a.0, b.0) || (a.0 == b.0 && seq_lt(a.1, b.1))
}

pub open spec fn pair_view(p: (String, String)) -> (Seq<char>, Seq<char>) {
    (p.0@, p.1@)
}

pub open spec fn pair_views(v: Seq<(String, String)>) -> Seq<(Seq<char>, Seq<char>)> {
    v.map_values(|p: (String, String)| pair_view(p))
}

pub open spec fn pairs_sorted(s: Seq<(Seq<char>, Seq<char>)>) -> bool {
    forall|i: int, j: int| 0 <= i < j < s.len() ==> pair_lt(#[trigger] s[i], #[trigger] s[j])
}

proof fn lemma_pair_lt_transitive(a: (Seq<char>, Seq<char>), b: (Seq<char>, Seq<char>), c: (Seq<char>, Seq<char>))
    requires
        pair_lt(a, b),
        pair_lt(b, c),
    ensures
        pair_lt(a, c),
{
    if seq_lt(a.0, b.0) && seq_lt(b.0, c.0) {
        lemma_lt_transitive(a.0, b.0, c.0);
    } else if seq_lt(a.1, b.1) && seq_lt(b.1, c.1) {
        lemma_lt_transitive(a.1, b.1, c.1);
    }
}

proof fn lemma_pair_lt_total(a: (Seq<char>, Seq<char>), b: (Seq<char>, Seq<char>))
    requires
        a != b,
    ensures
        pair_lt(a, b) || pair_lt(b, a),
{
    if a.0 != b.0 {
        lemma_lt_total(a.0, b.0);
    } else {
        lemma_lt_total(a.1, b.1);
    }
}

fn pair_less(a: &(String, String), b0: &Vec<char>, b1: &Vec<char>) -> (r: bool)
    ensures
        r == pair_lt(pair_view(*a), (b0@, b1@)),
{
    let a0 = chars_of(a.0.as_str());
    let a1 = chars_of(a.1.as_str());
    if chars_lt(&a0, b0) {
        return true;
    }
    if chars_lt(&a0, b0) == false && crate::text::chars_eq(&a0, b0) {
        chars_lt(&a1, b1)
    } else {
        false
    }
}

/// Insert the pair `x` into the sorted set `v`.
pub fn pair_set_insert(v: &mut Vec<(String, String)>, x: (String, String))
    requires
        pairs_sorted(pair_views(old(v)@)),
    ensures
        pairs_sorted(pair_views(final(v)@)),
        pair_views(final(v)@).to_set() == pair_views(old(v)@).to_set().insert(pair_view(x)),
{
    let ghost o = pair_views(v@);
    let ghost xv = pair_view(x);
    let x0 = chars_of(x.0.as_str());
    let x1 = chars_of(x.1.as_str());
    let mut i: usize = 0;
    while i < v.len() && pair_less(&v[i], &x0, &x1)
        invariant
            i <= v@.len(),
            o == pair_views(v@),
            pairs_sorted(o),
            xv == (x0@, x1@),
            forall|j: int| 0 <= j < i ==> pair_lt(#[trigger] o[j], xv),
        decreases v@.len() - i,
    {
        i = i + 1;
    }
    if i < v.len() && str_eq(v[i].0.as_str(), x.0.as_str()) && str_eq(v[i].1.as_str(), x.1.as_str()) {
        assert(o[i as int] == xv);
        assert(o.to_set().insert(xv) =~= o.to_set());
        return;
    }
    proof {
        if i < o.len() {
            assert(!pair_lt(o[i as int], xv));
            assert(o[i as int] != xv);
            lemma_pair_lt_total(o[i as int], xv);
        }
    }
    v.insert(i, x);
    proof {
        let n = pair_views(v@);
        assert(n =~= o.insert(i as int, xv));
        assert forall|a: int, b: int| 0 <= a < b < n.len() implies pair_lt(#[trigger] n[a], #[trigger] n[b]) by {
            if b < i {
            } else if a < i && b == i {
            } else if a < i && b > i {
                assert(pair_lt(o[a], xv));
                assert(n[b] == o[b - 1]);
                lemma_pair_lt_transitive(o[a], xv, o[i as int]);
                if b - 1 > i {
                    lemma_pair_lt_transitive(o[a], o[i as int], o[b - 1]);
                }
            } else if a == i {
                if b - 1 > i {
                    lemma_pair_lt_transitive(xv, o[i as int], o[b - 1]);
                }
            } else {
                assert(n[a] == o[a - 1] && n[b] == o[b - 1]);
            }
        }
        assert forall|y: (Seq<char>, Seq<char>)| #[trigger] n.to_set().contains(y) == o.to_set().insert(xv).contains(y) by {
            if n.to_set().contains(y) {
                let k = choose|k: int| 0 <= k < n.len() && n[k] == y;
                if k < i {
                    assert(o[k] == y);
                } else if k > i {
                    assert(o[k - 1] == y);
                }
            }
            if o.to_set().contains(y) {
                let k = choose|k: int| 0 <= k < o.len() && o[k] == y;
                if k < i {
                    assert(n[k] == y);
                } else {
                    assert(n[k + 1] == y);
                }
            }
            if y == xv {
                assert(n[i as int] == y);
            }
        }
        assert(n.to_set() =~= o.to_set().insert(xv));
    }
}

} // verus!
