//! `req diff`: the requirement-level changes between two revisions of the
//! project (loading each revision is the caller's part).
use vstd::prelude::*;

use crate::errors::ReqError;
use crate::idmap::{has_key, lookup};
use crate::ids::{looks_like_req_id, looks_like_req_id_spec};
use crate::model::{HistoryEntry, Project, Requirement};
use crate::text::{chars_of, debug_quoted, debug_str, dec_seq, dec_string, join_seq, str_eq, string_of, trim, trim_seq, views};

verus! {

// ---------------------------------------------------------------------------
// The revision range
// ---------------------------------------------------------------------------

/// `..` stands at position `i` of `s`.
pub open spec fn dots(s: Seq<char>, i: int) -> bool {
    0 <= i && i + 1 < s.len() && s[i] == '.' && s[i + 1] == '.'
}

/// The first position of `..` in `s`.
pub open spec fn dots_at(s: Seq<char>) -> Option<int> {
    if exists|i: int| #[trigger] dots(s, i) {
        Some(choose|i: int| #[trigger] dots(s, i) && forall|j: int| 0 <= j < i ==> !dots(s, j))
    } else {
        None
    }
}

/// The (base, head) a diff spec names: `BASE..HEAD`, `BASE..` or a single
/// `BASE`, trimmed; an empty head means HEAD.
pub open spec fn range_spec(spec: Seq<char>) -> (Seq<char>, Seq<char>) {
    match dots_at(spec) {
        Some(i) => (trim_seq(spec.take(i)), trim_seq(spec.skip(i + 2))),
        None => (trim_seq(spec), Seq::empty()),
    }
}

/// Why a diff spec is refused.
pub open spec fn range_error(spec: Seq<char>) -> Option<bool> {
    let (b, h) = range_spec(spec);
    if b.len() == 0 {
        Some(false)
    } else if looks_like_req_id_spec(b) || looks_like_req_id_spec(h) {
        Some(true)
    } else {
        None
    }
}

fn find_dots(v: &Vec<char>) -> (r: Option<usize>)
    ensures
        match r {
            Some(i) => dots_at(v@) == Some(i as int) && i + 1 < v@.len(),
            None => dots_at(v@).is_none(),
        },
{
    let mut i: usize = 0;
    while i < v.len() && i + 1 < v.len()
        invariant
            forall|j: int| 0 <= j < i ==> !#[trigger] dots(v@, j),
        decreases v@.len() - i,
    {
        if v[i] == '.' && v[i + 1] == '.' {
            proof {
                assert(dots(v@, i as int));
                let w = choose|k: int| #[trigger] dots(v@, k) && forall|j: int| 0 <= j < k ==> !dots(v@, j);
                assert(dots(v@, i as int) && forall|j: int| 0 <= j < i ==> !dots(v@, j));
                if w < i {
                    assert(!dots(v@, w));
                } else if w > i {
                    assert(!dots(v@, i as int));
                }
            }
            return Some(i);
        }
        i = i + 1;
    }
    proof {
        assert forall|k: int| !#[trigger] dots(v@, k) by {
            if 0 <= k && k + 1 < v@.len() && k >= i {
            }
        }
    }
    None
}

/// Read a diff spec into the base and head revisions (`HEAD` when none is
/// given). A missing base is refused, and so is a requirement id typed in
/// place of a revision.
pub fn parse_range(spec: &str) -> (r: Result<(String, String), ReqError>)
    ensures
        match range_error(spec@) {
            Some(false) => r matches Err(ReqError::NoBaseRef),
            Some(true) => r matches Err(ReqError::IdNotRevision { spec: s, base }) && s@ == spec@ && base@ == range_spec(spec@).0,
            None => r is Ok && r->Ok_0.0@ == range_spec(spec@).0
                && r->Ok_0.1@ == if range_spec(spec@).1.len() == 0 { "HEAD"@ } else { range_spec(spec@).1 },
        },
{
    let v = chars_of(spec);
    let (b, h) = match find_dots(&v) {
        Some(i) => {
            let left = crate::text::prefix_upto(&v, i);
            let right = crate::text::suffix_from(&v, i + 2);
            assert(left@ == v@.take(i as int));
            assert(right@ == v@.skip(i + 2));
            (trim(&left), trim(&right))
        },
        None => (trim(&v), Vec::new()),
    };
    let base = string_of(&b);
    let head = string_of(&h);
    if b.len() == 0 {
        return Err(ReqError::NoBaseRef);
    }
    if looks_like_req_id(base.as_str()) || looks_like_req_id(head.as_str()) {
        return Err(ReqError::IdNotRevision { spec: string_of(&v), base });
    }
    let head_spec = if h.len() == 0 { string_of(&chars_of("HEAD")) } else { head };
    Ok((base, head_spec))
}

// ---------------------------------------------------------------------------
// Comparing one requirement
// ---------------------------------------------------------------------------

/// The `Debug` rendering of a list of strings: `["a", "b"]`.
pub open spec fn debug_list(v: Seq<Seq<char>>) -> Seq<char> {
    "["@ + join_seq(v.map_values(|s: Seq<char>| debug_str(s)), ", "@) + "]"@
}

fn debug_strings(v: &Vec<String>) -> (r: String)
    ensures
        r@ == debug_list(views(v@)),
{
    let mut q: Vec<String> = Vec::new();
    let mut i: usize = 0;
    while i < v.len()
        invariant
            i <= v@.len(),
            views(q@) == views(v@).take(i as int).map_values(|s: Seq<char>| debug_str(s)),
        decreases v@.len() - i,
    {
        let ghost pre = views(q@);
        q.push(debug_quoted(v[i].as_str()));
        assert(views(q@) =~= pre.push(debug_str(v@[i as int]@)));
        assert(views(v@).take(i + 1).map_values(|s: Seq<char>| debug_str(s))
            =~= views(v@).take(i as int).map_values(|s: Seq<char>| debug_str(s)).push(debug_str(v@[i as int]@)));
        i = i + 1;
    }
    assert(views(v@).take(v@.len() as int) =~= views(v@));
    let mut out = string_of(&chars_of("["));
    out.append(crate::text::join(&q, ", ").as_str());
    out.append("]");
    out
}

/// One entry when `c` holds, none otherwise.
pub open spec fn when(c: bool, s: Seq<char>) -> Seq<Seq<char>> {
    if c { seq![s] } else { Seq::empty() }
}

/// The field-level transitions from `b` to `h`, in a fixed order: title,
/// status, priority, kind, statement, rationale, acceptance, tags, links.
pub open spec fn transitions(b: Requirement, h: Requirement) -> Seq<Seq<char>> {
    when(b.title@ != h.title@, "title: "@ + debug_str(b.title@) + " -> "@ + debug_str(h.title@))
        + when(b.status != h.status, "status: "@ + b.status.name() + " -> "@ + h.status.name())
        + when(b.priority != h.priority, "priority: "@ + b.priority.name() + " -> "@ + h.priority.name())
        + when(b.kind != h.kind, "kind: "@ + b.kind.name() + " -> "@ + h.kind.name())
        + when(b.statement@ != h.statement@, "statement: changed"@)
        + when(b.rationale@ != h.rationale@, "rationale: changed"@)
        + when(views(b.acceptance@) != views(h.acceptance@),
            "acceptance: "@ + dec_seq(b.acceptance@.len()) + " -> "@ + dec_seq(h.acceptance@.len()) + " items"@)
        + when(views(b.tags@) != views(h.tags@), "tags: "@ + debug_list(views(b.tags@)) + " -> "@ + debug_list(views(h.tags@)))
        + when(b.links@.len() != h.links@.len(), "links: "@ + dec_seq(b.links@.len()) + " -> "@ + dec_seq(h.links@.len()))
}

fn strings_eq(a: &Vec<String>, b: &Vec<String>) -> (r: bool)
    ensures
        r == (views(a@) == views(b@)),
{
    if a.len() != b.len() {
        assert(views(a@).len() != views(b@).len());
        return false;
    }
    let mut i: usize = 0;
    while i < a.len()
        invariant
            i <= a@.len(),
            a@.len() == b@.len(),
            forall|j: int| 0 <= j < i ==> a@[j]@ == b@[j]@,
        decreases a@.len() - i,
    {
        if !crate::text::str_eq(a[i].as_str(), b[i].as_str()) {
            assert(views(a@)[i as int] != views(b@)[i as int]);
            return false;
        }
        i = i + 1;
    }
    assert(views(a@) =~= views(b@));
    true
}

fn push_if(out: &mut Vec<String>, c: bool, s: String)
    ensures
        views(final(out)@) == views(old(out)@) + when(c, s@),
{
    let ghost pre = views(out@);
    if c {
        out.push(s);
        assert(views(out@) =~= pre + seq![s@]);
    } else {
        assert(views(out@) =~= pre + Seq::<Seq<char>>::empty());
    }
}

fn arrow(a: &str, b: &str, label: &str) -> (r: String)
    ensures
        r@ == label@ + a@ + " -> "@ + b@,
{
    let mut s = string_of(&chars_of(label));
    s.append(a);
    s.append(" -> ");
    s.append(b);
    s
}

/// The field-level transitions from `base` to `head`.
pub fn compare(base: &Requirement, head: &Requirement) -> (r: Vec<String>)
    ensures
        views(r@) == transitions(*base, *head),
{
    let mut out: Vec<String> = Vec::new();
    let t = !crate::text::str_eq(base.title.as_str(), head.title.as_str());
    push_if(&mut out, t, arrow(debug_quoted(base.title.as_str()).as_str(), debug_quoted(head.title.as_str()).as_str(), "title: "));
    push_if(&mut out, base.status != head.status, arrow(base.status.as_str(), head.status.as_str(), "status: "));
    push_if(&mut out, base.priority != head.priority, arrow(base.priority.as_str(), head.priority.as_str(), "priority: "));
    push_if(&mut out, base.kind != head.kind, arrow(base.kind.as_str(), head.kind.as_str(), "kind: "));
    push_if(&mut out, !crate::text::str_eq(base.statement.as_str(), head.statement.as_str()), string_of(&chars_of("statement: changed")));
    push_if(&mut out, !crate::text::str_eq(base.rationale.as_str(), head.rationale.as_str()), string_of(&chars_of("rationale: changed")));
    let acc = !strings_eq(&base.acceptance, &head.acceptance);
    let mut a = arrow(dec_string(base.acceptance.len() as u64).as_str(), dec_string(head.acceptance.len() as u64).as_str(), "acceptance: ");
    a.append(" items");
    push_if(&mut out, acc, a);
    let tg = !strings_eq(&base.tags, &head.tags);
    push_if(&mut out, tg, arrow(debug_strings(&base.tags).as_str(), debug_strings(&head.tags).as_str(), "tags: "));
    push_if(&mut out, base.links.len() != head.links.len(),
        arrow(dec_string(base.links.len() as u64).as_str(), dec_string(head.links.len() as u64).as_str(), "links: "));
    out
}

/// The reason of the latest history entry that carries one (empty when
/// none does).
pub open spec fn latest_reason(h: Seq<HistoryEntry>) -> Seq<char>
    decreases h.len(),
{
    if h.len() == 0 {
        Seq::empty()
    } else {
        match h.last().reason {
            Some(r) => r@,
            None => latest_reason(h.drop_last()),
        }
    }
}

/// The reason recorded with the requirement's latest reasoned change.
pub fn latest_history_reason(r: &Requirement) -> (s: String)
    ensures
        s@ == latest_reason(r.history@),
{
    let mut i: usize = r.history.len();
    assert(r.history@.take(i as int) =~= r.history@);
    while i > 0
        invariant
            i <= r.history@.len(),
            latest_reason(r.history@) == latest_reason(r.history@.take(i as int)),
        decreases i,
    {
        assert(r.history@.take(i as int).drop_last() =~= r.history@.take(i - 1));
        match &r.history[i - 1].reason {
            Some(x) => return x.clone(),
            None => {},
        }
        i = i - 1;
    }
    String::new()
}

// ---------------------------------------------------------------------------
// Comparing two revisions
// ---------------------------------------------------------------------------

/// One changed requirement.
pub struct Changed {
    pub id: String,
    pub transitions: Vec<String>,
    pub reason: String,
}

/// The requirement-level changes between two revisions.
pub struct DiffReport {
    pub added: Vec<String>,
    pub removed: Vec<String>,
    pub changed: Vec<Changed>,
}

/// The ids of `rs` that `other` lacks, in order.
pub open spec fn missing_from(rs: Seq<Requirement>, other: Seq<Requirement>) -> Seq<Seq<char>>
    decreases rs.len(),
{
    if rs.len() == 0 {
        Seq::empty()
    } else {
        let rest = missing_from(rs.drop_last(), other);
        if !has_key(other, rs.last().id@) { rest.push(rs.last().id@) } else { rest }
    }
}

/// For each requirement of `rs` that `other` also has and that changed,
/// its id, transitions and latest reason in `other`, in order.
pub open spec fn changed_spec(rs: Seq<Requirement>, other: Seq<Requirement>) -> Seq<(Seq<char>, Seq<Seq<char>>, Seq<char>)>
    decreases rs.len(),
{
    if rs.len() == 0 {
        Seq::empty()
    } else {
        let rest = changed_spec(rs.drop_last(), other);
        let b = rs.last();
        match lookup(other, b.id@) {
            Some(h) => if transitions(b, h).len() > 0 {
                rest.push((b.id@, transitions(b, h), latest_reason(h.history@)))
            } else {
                rest
            },
            None => rest,
        }
    }
}

pub open spec fn changed_views(c: Seq<Changed>) -> Seq<(Seq<char>, Seq<Seq<char>>, Seq<char>)> {
    c.map_values(|x: Changed| (x.id@, views(x.transitions@), x.reason@))
}

fn missing_ids(rs: &crate::idmap::IdMap<Requirement>, other: &crate::idmap::IdMap<Requirement>) -> (r: Vec<String>)
    ensures
        views(r@) == missing_from(rs.view(), other.view()),
{
    let ghost s = rs.view();
    let n = rs.len();
    let mut out: Vec<String> = Vec::new();
    let mut i: usize = 0;
    while i < n
        invariant
            n == s.len(),
            s == rs.view(),
            i <= n,
            views(out@) == missing_from(s.take(i as int), other.view()),
        decreases n - i,
    {
        assert(s.take(i + 1).drop_last() =~= s.take(i as int));
        assert(s.take(i + 1).last() == s[i as int]);
        let r = rs.at(i);
        if !other.contains_key(r.id.as_str()) {
            let ghost pre = views(out@);
            out.push(r.id.clone());
            assert(views(out@) =~= pre.push(r.id@));
        }
        i = i + 1;
    }
    assert(s.take(n as int) =~= s);
    out
}

/// Compare two revisions of a project: the requirements added (in the head
/// only), removed (in the base only) and changed (in both, with the
/// transitions and the head's latest reason), each in id order.
pub fn diff_projects(base: &Project, head: &Project) -> (r: DiffReport)
    ensures
        views(r.added@) == missing_from(head.requirements.view(), base.requirements.view()),
        views(r.removed@) == missing_from(base.requirements.view(), head.requirements.view()),
        changed_views(r.changed@) == changed_spec(base.requirements.view(), head.requirements.view()),
{
    let added = missing_ids(&head.requirements, &base.requirements);
    let removed = missing_ids(&base.requirements, &head.requirements);
    let ghost s = base.requirements.view();
    let n = base.requirements.len();
    let mut changed: Vec<Changed> = Vec::new();
    let mut i: usize = 0;
    while i < n
        invariant
            n == s.len(),
            s == base.requirements.view(),
            i <= n,
            changed_views(changed@) == changed_spec(s.take(i as int), head.requirements.view()),
        decreases n - i,
    {
        assert(s.take(i + 1).drop_last() =~= s.take(i as int));
        assert(s.take(i + 1).last() == s[i as int]);
        let b = base.requirements.at(i);
        match head.requirements.get(b.id.as_str()) {
            Some(h) => {
                let t = compare(b, h);
                if t.len() > 0 {
                    let ghost pre = changed_views(changed@);
                    let reason = latest_history_reason(h);
                    changed.push(Changed { id: b.id.clone(), transitions: t, reason });
                    assert(changed_views(changed@) =~= pre.push((b.id@, transitions(*b, *h), latest_reason(h.history@))));
                }
            },
            None => {},
        }
        i = i + 1;
    }
    assert(s.take(n as int) =~= s);
    DiffReport { added, removed, changed }
}

// ---------------------------------------------------------------------------
// Which requirements changed since a base revision
// ---------------------------------------------------------------------------

/// `r` differs from its base revision `prev` in a way `req check` looks at.
pub open spec fn req_changed(prev: Requirement, r: Requirement) -> bool {
    ||| prev.updated@ != r.updated@
    ||| prev.title@ != r.title@
    ||| prev.statement@ != r.statement@
    ||| prev.rationale@ != r.rationale@
    ||| views(prev.acceptance@) != views(r.acceptance@)
    ||| prev.status != r.status
    ||| prev.priority != r.priority
    ||| prev.kind != r.kind
    ||| prev.links@.len() != r.links@.len()
}

/// The ids of `rs` that are new or changed against `base` (all of them
/// without a base), in order.
pub open spec fn changed_ids(rs: Seq<Requirement>, base: Option<Seq<Requirement>>) -> Seq<Seq<char>>
    decreases rs.len(),
{
    if rs.len() == 0 {
        Seq::empty()
    } else {
        let rest = changed_ids(rs.drop_last(), base);
        let r = rs.last();
        let new_or_changed = match base {
            None => true,
            Some(b) => match lookup(b, r.id@) {
                None => true,
                Some(prev) => req_changed(prev, r),
            },
        };
        if new_or_changed { rest.push(r.id@) } else { rest }
    }
}

fn differs(prev: &Requirement, r: &Requirement) -> (b: bool)
    ensures
        b == req_changed(*prev, *r),
{
    !str_eq(prev.updated.as_str(), r.updated.as_str()) || !str_eq(prev.title.as_str(), r.title.as_str())
        || !str_eq(prev.statement.as_str(), r.statement.as_str())
        || !str_eq(prev.rationale.as_str(), r.rationale.as_str()) || !strings_eq(&prev.acceptance, &r.acceptance)
        || prev.status != r.status || prev.priority != r.priority || prev.kind != r.kind
        || prev.links.len() != r.links.len()
}

/// The requirements `req check` re-validates: those new or changed since
/// the base revision, or all of them when there is no base.
pub fn changed_req_ids(current: &Project, base: Option<&Project>) -> (r: Vec<String>)
    ensures
        views(r@) == changed_ids(current.requirements.view(), match base { Some(b) => Some(b.requirements.view()), None => None }),
{
    let ghost rs = current.requirements.view();
    let ghost bv = match base { Some(b) => Some(b.requirements.view()), None => None };
    let n = current.requirements.len();
    let mut out: Vec<String> = Vec::new();
    let mut i: usize = 0;
    while i < n
        invariant
            n == rs.len(),
            rs == current.requirements.view(),
            bv == match base { Some(b) => Some(b.requirements.view()), None => None },
            i <= n,
            views(out@) == changed_ids(rs.take(i as int), bv),
        decreases n - i,
    {
        assert(rs.take(i + 1).drop_last() =~= rs.take(i as int));
        assert(rs.take(i + 1).last() == rs[i as int]);
        let r = current.requirements.at(i);
        let take = match base {
            None => true,
            Some(b) => match b.requirements.get(r.id.as_str()) {
                None => true,
                Some(prev) => differs(prev, r),
            },
        };
        if take {
            let ghost b0 = views(out@);
            out.push(r.id.clone());
            assert(views(out@) =~= b0.push(r.id@));
        }
        i = i + 1;
    }
    assert(rs.take(n as int) =~= rs);
    out
}

} // verus!
