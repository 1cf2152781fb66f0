//! A JSON document as plain values, for the three-way merge of project
//! files.
use vstd::prelude::*;

use crate::text::views;

verus! {

/// A JSON value. Object members keep their order.
pub enum JsonTree {
    Null,
    Bool(bool),
    Num(String),
    Str(String),
    Arr(Vec<JsonTree>),
    Obj(Vec<(String, JsonTree)>),
}

/// A JSON value as a mathematical value.
pub enum JsonView {
    Null,
    Bool(bool),
    Num(Seq<char>),
    Str(Seq<char>),
    Arr(Seq<JsonView>),
    Obj(Seq<(Seq<char>, JsonView)>),
}

/// The value a tree stands for.
pub open spec fn jv(t: JsonTree) -> JsonView
    decreases t,
{
    match t {
        JsonTree::Null => JsonView::Null,
        JsonTree::Bool(b) => JsonView::Bool(b),
        JsonTree::Num(n) => JsonView::Num(n@),
        JsonTree::Str(s) => JsonView::Str(s@),
        JsonTree::Arr(v) => JsonView::Arr(jv_items(v@)),
        JsonTree::Obj(m) => JsonView::Obj(jv_members(m@)),
    }
}

/// The values of a list of trees.
pub open spec fn jv_items(s: Seq<JsonTree>) -> Seq<JsonView>
    decreases s,
{
    if s.len() == 0 {
        Seq::empty()
    } else {
        jv_items(s.drop_last()).push(jv(s.last()))
    }
}

/// The members of an object as values.
pub open spec fn jv_members(s: Seq<(String, JsonTree)>) -> Seq<(Seq<char>, JsonView)>
    decreases s,
{
    if s.len() == 0 {
        Seq::empty()
    } else {
        jv_members(s.drop_last()).push((s.last().0@, jv(s.last().1)))
    }
}

/// The value of an optional tree.
pub open spec fn ov(o: Option<&JsonTree>) -> Option<JsonView> {
    match o {
        Some(t) => Some(jv(*t)),
        None => None,
    }
}

pub proof fn lemma_jv_items(s: Seq<JsonTree>)
    ensures
        jv_items(s).len() == s.len(),
        forall|i: int| 0 <= i < s.len() ==> #[trigger] jv_items(s)[i] == jv(s[i]),
    decreases s.len(),
{
    if s.len() > 0 {
        lemma_jv_items(s.drop_last());
        assert forall|i: int| 0 <= i < s.len() implies #[trigger] jv_items(s)[i] == jv(s[i]) by {
            if i < s.len() - 1 {
                assert(s.drop_last()[i] == s[i]);
            }
        }
    }
}

pub proof fn lemma_jv_members(s: Seq<(String, JsonTree)>)
    ensures
        jv_members(s).len() == s.len(),
        forall|i: int| 0 <= i < s.len() ==> #[trigger] jv_members(s)[i] == (s[i].0@, jv(s[i].1)),
    decreases s.len(),
{
    if s.len() > 0 {
        lemma_jv_members(s.drop_last());
        assert forall|i: int| 0 <= i < s.len() implies #[trigger] jv_members(s)[i] == (s[i].0@, jv(s[i].1)) by {
            if i < s.len() - 1 {
                assert(s.drop_last()[i] == s[i]);
            }
        }
    }
}

/// How many nodes a tree has.
pub open spec fn tsize(t: JsonTree) -> nat
    decreases t,
{
    match t {
        JsonTree::Arr(v) => 1 + items_size(v@),
        JsonTree::Obj(m) => 1 + members_size(m@),
        _ => 1,
    }
}

pub open spec fn items_size(s: Seq<JsonTree>) -> nat
    decreases s,
{
    if s.len() == 0 {
        0
    } else {
        items_size(s.drop_last()) + tsize(s.last())
    }
}

pub open spec fn members_size(s: Seq<(String, JsonTree)>) -> nat
    decreases s,
{
    if s.len() == 0 {
        0
    } else {
        members_size(s.drop_last()) + tsize(s.last().1)
    }
}

pub open spec fn osize(o: Option<&JsonTree>) -> nat {
    match o {
        Some(t) => tsize(*t),
        None => 0,
    }
}

proof fn lemma_items_size(s: Seq<JsonTree>, i: int)
    requires
        0 <= i < s.len(),
    ensures
        tsize(s[i]) <= items_size(s),
    decreases s.len(),
{
    if i < s.len() - 1 {
        lemma_items_size(s.drop_last(), i);
        assert(s.drop_last()[i] == s[i]);
    }
}

proof fn lemma_members_size(s: Seq<(String, JsonTree)>, i: int)
    requires
        0 <= i < s.len(),
    ensures
        tsize(s[i].1) <= members_size(s),
    decreases s.len(),
{
    if i < s.len() - 1 {
        lemma_members_size(s.drop_last(), i);
        assert(s.drop_last()[i] == s[i]);
    }
}

/// Whether two trees stand for the same value.
pub fn tree_eq(a: &JsonTree, b: &JsonTree) -> (r: bool)
    ensures
        r == (jv(*a) == jv(*b)),
    decreases tsize(*a),
{
    match (a, b) {
        (JsonTree::Null, JsonTree::Null) => true,
        (JsonTree::Bool(x), JsonTree::Bool(y)) => *x == *y,
        (JsonTree::Num(x), JsonTree::Num(y)) => crate::text::str_eq(x.as_str(), y.as_str()),
        (JsonTree::Str(x), JsonTree::Str(y)) => crate::text::str_eq(x.as_str(), y.as_str()),
        (JsonTree::Arr(x), JsonTree::Arr(y)) => {
            proof {
                lemma_jv_items(x@);
                lemma_jv_items(y@);
            }
            if x.len() != y.len() {
                assert(jv_items(x@).len() != jv_items(y@).len());
                return false;
            }
            let mut i: usize = 0;
            while i < x.len()
                invariant
                    i <= x@.len(),
                    x@.len() == y@.len(),
                    jv_items(x@).len() == x@.len() && jv_items(y@).len() == y@.len(),
                    forall|k: int| 0 <= k < x@.len() ==> #[trigger] jv_items(x@)[k] == jv(x@[k]),
                    forall|k: int| 0 <= k < y@.len() ==> #[trigger] jv_items(y@)[k] == jv(y@[k]),
                    forall|k: int| 0 <= k < i ==> jv(#[trigger] x@[k]) == jv(y@[k]),
                    *a == JsonTree::Arr(*x) && *b == JsonTree::Arr(*y),
                decreases x@.len() - i,
            {
                proof {
                    lemma_items_size(x@, i as int);
                }
                if !tree_eq(&x[i], &y[i]) {
                    assert(jv_items(x@)[i as int] != jv_items(y@)[i as int]);
                    return false;
                }
                i = i + 1;
            }
            assert(jv_items(x@) =~= jv_items(y@));
            true
        },
        (JsonTree::Obj(x), JsonTree::Obj(y)) => {
            proof {
                lemma_jv_members(x@);
                lemma_jv_members(y@);
            }
            if x.len() != y.len() {
                assert(jv_members(x@).len() != jv_members(y@).len());
                return false;
            }
            let mut i: usize = 0;
            while i < x.len()
                invariant
                    i <= x@.len(),
                    x@.len() == y@.len(),
                    jv_members(x@).len() == x@.len() && jv_members(y@).len() == y@.len(),
                    forall|k: int| 0 <= k < x@.len() ==> #[trigger] jv_members(x@)[k] == (x@[k].0@, jv(x@[k].1)),
                    forall|k: int| 0 <= k < y@.len() ==> #[trigger] jv_members(y@)[k] == (y@[k].0@, jv(y@[k].1)),
                    forall|k: int| 0 <= k < i ==> (#[trigger] x@[k]).0@ == y@[k].0@ && jv(x@[k].1) == jv(y@[k].1),
                    *a == JsonTree::Obj(*x) && *b == JsonTree::Obj(*y),
                decreases x@.len() - i,
            {
                proof {
                    lemma_members_size(x@, i as int);
                }
                if !crate::text::str_eq(x[i].0.as_str(), y[i].0.as_str()) || !tree_eq(&x[i].1, &y[i].1) {
                    assert(jv_members(x@)[i as int] != jv_members(y@)[i as int]);
                    return false;
                }
                i = i + 1;
            }
            assert(jv_members(x@) =~= jv_members(y@));
            true
        },
        _ => false,
    }
}

/// Whether two optional trees stand for the same value.
pub fn opt_eq(a: Option<&JsonTree>, b: Option<&JsonTree>) -> (r: bool)
    ensures
        r == (ov(a) == ov(b)),
{
    match (a, b) {
        (Some(x), Some(y)) => tree_eq(x, y),
        (None, None) => true,
        _ => false,
    }
}

/// A copy of a tree.
pub fn tree_clone(t: &JsonTree) -> (r: JsonTree)
    ensures
        jv(r) == jv(*t),
    decreases tsize(*t),
{
    match t {
        JsonTree::Null => JsonTree::Null,
        JsonTree::Bool(b) => JsonTree::Bool(*b),
        JsonTree::Num(n) => JsonTree::Num(n.clone()),
        JsonTree::Str(x) => JsonTree::Str(x.clone()),
        JsonTree::Arr(v) => {
            let mut out: Vec<JsonTree> = Vec::new();
            let mut i: usize = 0;
            while i < v.len()
                invariant
                    i <= v@.len(),
                    out@.len() == i,
                    forall|k: int| 0 <= k < i ==> jv(#[trigger] out@[k]) == jv(v@[k]),
                    *t == JsonTree::Arr(*v),
                decreases v@.len() - i,
            {
                proof {
                    lemma_items_size(v@, i as int);
                }
                out.push(tree_clone(&v[i]));
                i = i + 1;
            }
            proof {
                lemma_jv_items(v@);
                lemma_jv_items(out@);
                assert(jv_items(out@) =~= jv_items(v@));
            }
            JsonTree::Arr(out)
        },
        JsonTree::Obj(m) => {
            let mut out: Vec<(String, JsonTree)> = Vec::new();
            let mut i: usize = 0;
            while i < m.len()
                invariant
                    i <= m@.len(),
                    out@.len() == i,
                    forall|k: int| 0 <= k < i ==> (#[trigger] out@[k]).0@ == m@[k].0@ && jv(out@[k].1) == jv(m@[k].1),
                    *t == JsonTree::Obj(*m),
                decreases m@.len() - i,
            {
                proof {
                    lemma_members_size(m@, i as int);
                }
                let c = tree_clone(&m[i].1);
                out.push((m[i].0.clone(), c));
                i = i + 1;
            }
            proof {
                lemma_jv_members(m@);
                lemma_jv_members(out@);
                assert(jv_members(out@) =~= jv_members(m@));
            }
            JsonTree::Obj(out)
        },
    }
}

pub fn opt_clone(o: Option<&JsonTree>) -> (r: Option<JsonTree>)
    ensures
        ov(match r { Some(ref x) => Some(x), None => None }) == ov(o),
{
    match o {
        Some(t) => Some(tree_clone(t)),
        None => None,
    }
}

// ---------------------------------------------------------------------------
// Three-way merge
// ---------------------------------------------------------------------------

/// The value of an optional owned tree.
pub open spec fn ovo(o: Option<JsonTree>) -> Option<JsonView> {
    match o {
        Some(t) => Some(jv(t)),
        None => None,
    }
}

/// The tree is present and an object.
pub open spec fn is_obj(o: Option<&JsonTree>) -> bool {
    match o {
        Some(t) => t is Obj,
        None => false,
    }
}

/// Both sides changed the node, and differently.
pub open spec fn divergent(base: Option<&JsonTree>, ours: Option<&JsonTree>, theirs: Option<&JsonTree>) -> bool {
    ov(ours) != ov(theirs) && ov(ours) != ov(base) && ov(theirs) != ov(base)
}

/// How a conflict at `path` is reported.
pub open spec fn describe_spec(path: Seq<char>, ours: Option<JsonView>, theirs: Option<JsonView>) -> Seq<char> {
    (if path.len() == 0 { "<root>"@ } else { path }) + " — "@ + match (ours, theirs) {
        (None, Some(_)) => "deleted on our side, changed on theirs"@,
        (Some(_), None) => "changed on our side, deleted on theirs"@,
        _ => "changed differently on both sides"@,
    }
}

fn describe(path: &str, ours: Option<&JsonTree>, theirs: Option<&JsonTree>) -> (r: String)
    ensures
        r@ == describe_spec(path@, ov(ours), ov(theirs)),
{
    let mut s = if crate::text::chars_of(path).len() == 0 { String::from_str("<root>") } else { String::from_str(path) };
    s.append(" — ");
    let kind = match (ours, theirs) {
        (None, Some(_)) => "deleted on our side, changed on theirs",
        (Some(_), None) => "changed on our side, deleted on theirs",
        _ => "changed differently on both sides",
    };
    s.append(kind);
    s
}

/// Merge one node three ways: `None` is a node absent on that side, and a
/// `None` result is a node deleted in the merge. A node both sides agree
/// on, or that only one side changed, merges without a conflict; two
/// objects that both changed merge member by member; any other divergence
/// is a conflict at `path`, recorded (when `record`) and resolved toward
/// ours (when `prefer_ours`) or theirs, so no side is ever chosen without
/// the conflict being reported.
pub fn merge3(path: &str, base: Option<&JsonTree>, ours: Option<&JsonTree>, theirs: Option<&JsonTree>, prefer_ours: bool,
    record: bool, conflicts: &mut Vec<String>) -> (r: Option<JsonTree>)
    ensures
        final(conflicts)@.len() >= old(conflicts)@.len(),
        final(conflicts)@.take(old(conflicts)@.len() as int) == old(conflicts)@,
        !record ==> final(conflicts)@ == old(conflicts)@,
        ov(ours) == ov(theirs) ==> ovo(r) == ov(ours) && final(conflicts)@ == old(conflicts)@,
        ov(ours) != ov(theirs) && ov(ours) == ov(base) ==> ovo(r) == ov(theirs) && final(conflicts)@ == old(conflicts)@,
        ov(ours) != ov(theirs) && ov(ours) != ov(base) && ov(theirs) == ov(base) ==> ovo(r) == ov(ours)
            && final(conflicts)@ == old(conflicts)@,
        divergent(base, ours, theirs) && !(is_obj(ours) && is_obj(theirs)) ==> {
            &&& ovo(r) == if prefer_ours { ov(ours) } else { ov(theirs) }
            &&& views(final(conflicts)@) == if record {
                views(old(conflicts)@).push(describe_spec(path@, ov(ours), ov(theirs)))
            } else {
                views(old(conflicts)@)
            }
        },
        divergent(base, ours, theirs) && is_obj(ours) && is_obj(theirs) ==> r matches Some(JsonTree::Obj(_)),
    decreases osize(ours) + osize(theirs),
{
    if opt_eq(ours, theirs) {
        return opt_clone(ours);
    }
    if opt_eq(ours, base) {
        return opt_clone(theirs);
    }
    if opt_eq(theirs, base) {
        return opt_clone(ours);
    }
    match (ours, theirs) {
        (Some(JsonTree::Obj(o)), Some(JsonTree::Obj(t))) => {
            let bo = match base {
                Some(JsonTree::Obj(b)) => Some(b),
                _ => None,
            };
            let m = merge_object(path, bo, o, t, prefer_ours, record, conflicts);
            Some(JsonTree::Obj(m))
        },
        _ => {
            if record {
                let d = describe(path, ours, theirs);
                let ghost pre = conflicts@;
                conflicts.push(d);
                assert(views(conflicts@) =~= views(pre).push(d@));
                assert(conflicts@.take(pre.len() as int) =~= pre);
            }
            if prefer_ours {
                opt_clone(ours)
            } else {
                opt_clone(theirs)
            }
        },
    }
}

/// Position of the member named `k`, if any.
fn find_key(m: &Vec<(String, JsonTree)>, k: &str) -> (r: Option<usize>)
    ensures
        match r {
            Some(i) => i < m@.len() && m@[i as int].0@ == k@,
            None => true,
        },
{
    let mut i: usize = 0;
    while i < m.len()
        invariant
            i <= m@.len(),
        decreases m@.len() - i,
    {
        if crate::text::str_eq(m[i].0.as_str(), k) {
            return Some(i);
        }
        i = i + 1;
    }
    None
}

fn member<'a>(m: &'a Vec<(String, JsonTree)>, k: &str) -> (r: Option<&'a JsonTree>)
    ensures
        osize(r) <= members_size(m@),
{
    match find_key(m, k) {
        Some(i) => {
            proof {
                lemma_members_size(m@, i as int);
            }
            Some(&m[i].1)
        },
        None => None,
    }
}

fn opt_member<'a>(m: Option<&'a Vec<(String, JsonTree)>>, k: &str) -> (r: Option<&'a JsonTree>) {
    match m {
        Some(m) => member(m, k),
        None => None,
    }
}

/// A counter's value: a non-negative integer member, else 1.
fn counter_of(m: Option<&Vec<(String, JsonTree)>>, k: &str) -> (n: u64) {
    match opt_member(m, k) {
        Some(JsonTree::Num(s)) => {
            let v = crate::text::chars_of(s.as_str());
            match crate::text::parse_uint(&v, 0xffff_ffff_ffff_ffff) {
                Some(n) => n,
                None => 1,
            }
        },
        _ => 1,
    }
}

/// Counters only grow: the largest of the three.
fn max_counter(base: Option<&Vec<(String, JsonTree)>>, ours: &Vec<(String, JsonTree)>, theirs: &Vec<(String, JsonTree)>,
    k: &str) -> (r: JsonTree)
{
    let a = counter_of(Some(ours), k);
    let b = counter_of(Some(theirs), k);
    let c = counter_of(base, k);
    let m1 = if a >= b { a } else { b };
    let m = if m1 >= c { m1 } else { c };
    JsonTree::Num(crate::text::dec_string(m))
}

fn str_of(t: Option<&JsonTree>) -> &str {
    match t {
        Some(JsonTree::Str(s)) => s.as_str(),
        _ => "",
    }
}

/// The later (`latest`) or earlier of two timestamps; ours on a tie.
fn pick_extreme(ours: &Vec<(String, JsonTree)>, theirs: &Vec<(String, JsonTree)>, k: &str, latest: bool) -> JsonTree {
    let o = member(ours, k);
    let t = member(theirs, k);
    let os = str_of(o);
    let ts = str_of(t);
    let keep_ours = if latest { !crate::text::str_lt(os, ts) } else { !crate::text::str_lt(ts, os) };
    let pick = if keep_ours { o } else { t };
    match pick {
        Some(v) => tree_clone(v),
        None => JsonTree::Null,
    }
}

/// The `at` timestamp of a history entry (empty when it has none).
fn at_of(e: &JsonTree) -> &str {
    match e {
        JsonTree::Obj(m) => str_of(member(m, "at")),
        _ => "",
    }
}

/// Add `e` to the history `out` unless it is there already, after the last
/// entry whose time is not later.
fn add_entry(out: &mut Vec<JsonTree>, e: &JsonTree) {
    let mut j: usize = 0;
    while j < out.len()
        decreases out@.len() - j,
    {
        if tree_eq(&out[j], e) {
            return;
        }
        j = j + 1;
    }
    let c = tree_clone(e);
    let mut pos: usize = out.len();
    while pos > 0 && crate::text::str_lt(at_of(&c), at_of(&out[pos - 1]))
        invariant
            pos <= out@.len(),
        decreases pos,
    {
        pos = pos - 1;
    }
    out.insert(pos, c);
}

/// The union of two appended histories, each entry once, ordered by `at`
/// (entries with equal times keep their order); none when either side is
/// not a list.
fn merge_history(ours: Option<&JsonTree>, theirs: Option<&JsonTree>) -> Option<JsonTree> {
    let (o, t) = match (ours, theirs) {
        (Some(JsonTree::Arr(o)), Some(JsonTree::Arr(t))) => (o, t),
        _ => return None,
    };
    let mut out: Vec<JsonTree> = Vec::new();
    let mut i: usize = 0;
    while i < o.len()
        decreases o@.len() - i,
    {
        add_entry(&mut out, &o[i]);
        i = i + 1;
    }
    let mut i: usize = 0;
    while i < t.len()
        decreases t@.len() - i,
    {
        add_entry(&mut out, &t[i]);
        i = i + 1;
    }
    Some(JsonTree::Arr(out))
}

fn key_in(keys: &Vec<&str>, k: &str) -> bool {
    let mut i: usize = 0;
    while i < keys.len()
        decreases keys@.len() - i,
    {
        if crate::text::str_eq(keys[i], k) {
            return true;
        }
        i = i + 1;
    }
    false
}

/// The counter members of a project, merged by taking the largest.
fn is_counter(k: &str) -> bool {
    let keys: Vec<&str> = vec!["next_id", "next_haz_id", "next_sf_id", "next_sr_id"];
    key_in(&keys, k)
}

/// Every member name of the objects, once each, in name order.
fn all_keys(base: Option<&Vec<(String, JsonTree)>>, ours: &Vec<(String, JsonTree)>, theirs: &Vec<(String, JsonTree)>)
    -> Vec<String>
{
    let mut keys: Vec<String> = Vec::new();
    let mut i: usize = 0;
    while i < ours.len()
        invariant
            crate::sets::strictly_sorted(views(keys@)),
        decreases ours@.len() - i,
    {
        crate::sets::set_insert(&mut keys, ours[i].0.clone());
        i = i + 1;
    }
    let mut i: usize = 0;
    while i < theirs.len()
        invariant
            crate::sets::strictly_sorted(views(keys@)),
        decreases theirs@.len() - i,
    {
        crate::sets::set_insert(&mut keys, theirs[i].0.clone());
        i = i + 1;
    }
    match base {
        Some(b) => {
            let mut i: usize = 0;
            while i < b.len()
                invariant
                    crate::sets::strictly_sorted(views(keys@)),
                decreases b@.len() - i,
            {
                crate::sets::set_insert(&mut keys, b[i].0.clone());
                i = i + 1;
            }
        },
        None => {},
    }
    keys
}

/// Merge two objects that both changed, member by member in name order: the
/// project's id counters take the largest value, `updated` the later and
/// `created` the earlier time, two appended `history` lists their union,
/// and every other member the three-way merge of its values (a member
/// deleted in the merge is left out).
fn merge_object(path: &str, base: Option<&Vec<(String, JsonTree)>>, ours: &Vec<(String, JsonTree)>,
    theirs: &Vec<(String, JsonTree)>, prefer_ours: bool, record: bool, conflicts: &mut Vec<String>)
    -> (r: Vec<(String, JsonTree)>)
    ensures
        final(conflicts)@.len() >= old(conflicts)@.len(),
        final(conflicts)@.take(old(conflicts)@.len() as int) == old(conflicts)@,
        !record ==> final(conflicts)@ == old(conflicts)@,
    decreases members_size(ours@) + members_size(theirs@) + 1,
{
    let ghost c0 = conflicts@;
    let keys = all_keys(base, ours, theirs);
    let at_root = path.len() == 0;
    let mut out: Vec<(String, JsonTree)> = Vec::new();
    let mut i: usize = 0;
    while i < keys.len()
        invariant
            conflicts@.len() >= c0.len(),
            conflicts@.take(c0.len() as int) == c0,
            !record ==> conflicts@ == c0,
        decreases keys@.len() - i,
    {
        let k = keys[i].as_str();
        if at_root && is_counter(k) {
            out.push((keys[i].clone(), max_counter(base, ours, theirs, k)));
        } else if crate::text::str_eq(k, "updated") {
            out.push((keys[i].clone(), pick_extreme(ours, theirs, k, true)));
        } else if crate::text::str_eq(k, "created") {
            out.push((keys[i].clone(), pick_extreme(ours, theirs, k, false)));
        } else {
            let o = member(ours, k);
            let t = member(theirs, k);
            let b = opt_member(base, k);
            let hist = if crate::text::str_eq(k, "history") { merge_history(o, t) } else { None };
            match hist {
                Some(h) => out.push((keys[i].clone(), h)),
                None => {
                    let child = if at_root {
                        String::from_str(k)
                    } else {
                        let mut c = String::from_str(path);
                        c.append("/");
                        c.append(k);
                        c
                    };
                    let ghost before = conflicts@;
                    let merged = merge3(child.as_str(), b, o, t, prefer_ours, record, conflicts);
                    proof {
                        assert(conflicts@.take(before.len() as int) == before);
                        assert(conflicts@.take(c0.len() as int) =~= before.take(c0.len() as int));
                    }
                    match merged {
                        Some(v) => out.push((keys[i].clone(), v)),
                        None => {},
                    }
                },
            }
        }
        i = i + 1;
    }
    out
}

} // verus!
