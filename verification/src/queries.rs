//! Read-only questions asked of a project: which requirements a listing
//! shows, which verified ones carry failing evidence, and whether a marker
//! sits in test code.
use vstd::prelude::*;

use crate::cli::{KindArg, ListArgs, PriorityArg, StatusArg};
use crate::model::{Kind, Priority, Project, Requirement, Status, TestOutcome};
use crate::text::{
    chars_of, contains, contains_seq, contains_str, ends_with, is_prefix, is_suffix, lower_seq,
    starts_with, string_of, to_lower, views,
};

verus! {

// ---------------------------------------------------------------------------
// Command-line values to model values
// ---------------------------------------------------------------------------

pub open spec fn kind_of(k: KindArg) -> Kind {
    match k {
        KindArg::Functional => Kind::Functional,
        KindArg::NonFunctional => Kind::NonFunctional,
        KindArg::Constraint => Kind::Constraint,
        KindArg::Interface => Kind::Interface,
        KindArg::Business => Kind::Business,
    }
}

pub fn to_kind(k: KindArg) -> (r: Kind)
    ensures
        r == kind_of(k),
{
    match k {
        KindArg::Functional => Kind::Functional,
        KindArg::NonFunctional => Kind::NonFunctional,
        KindArg::Constraint => Kind::Constraint,
        KindArg::Interface => Kind::Interface,
        KindArg::Business => Kind::Business,
    }
}

pub open spec fn priority_of(p: PriorityArg) -> Priority {
    match p {
        PriorityArg::Must => Priority::Must,
        PriorityArg::Should => Priority::Should,
        PriorityArg::Could => Priority::Could,
        PriorityArg::Wont => Priority::Wont,
    }
}

pub fn to_priority(p: PriorityArg) -> (r: Priority)
    ensures
        r == priority_of(p),
{
    match p {
        PriorityArg::Must => Priority::Must,
        PriorityArg::Should => Priority::Should,
        PriorityArg::Could => Priority::Could,
        PriorityArg::Wont => Priority::Wont,
    }
}

pub open spec fn status_of(s: StatusArg) -> Status {
    match s {
        StatusArg::Draft => Status::Draft,
        StatusArg::Proposed => Status::Proposed,
        StatusArg::Approved => Status::Approved,
        StatusArg::Implemented => Status::Implemented,
        StatusArg::Verified => Status::Verified,
        StatusArg::Obsolete => Status::Obsolete,
    }
}

pub fn to_status(s: StatusArg) -> (r: Status)
    ensures
        r == status_of(s),
{
    match s {
        StatusArg::Draft => Status::Draft,
        StatusArg::Proposed => Status::Proposed,
        StatusArg::Approved => Status::Approved,
        StatusArg::Implemented => Status::Implemented,
        StatusArg::Verified => Status::Verified,
        StatusArg::Obsolete => Status::Obsolete,
    }
}

// ---------------------------------------------------------------------------
// Verified but defective
// ---------------------------------------------------------------------------

/// A Verified requirement whose latest evidence is a failure.
pub open spec fn defective(r: Requirement) -> bool {
    r.status == Status::Verified && r.tests@.len() > 0 && r.tests@.last().outcome == TestOutcome::Fail
}

/// The ids of the defective members of `rs`, in order.
pub open spec fn defective_ids(rs: Seq<Requirement>) -> Seq<Seq<char>>
    decreases rs.len(),
{
    if rs.len() == 0 {
        Seq::empty()
    } else {
        let rest = defective_ids(rs.drop_last());
        if defective(rs.last()) { rest.push(rs.last().id@) } else { rest }
    }
}

/// The ids of Verified requirements whose latest test record failed, in id
/// order.
pub fn verified_but_defective(project: &Project) -> (r: Vec<String>)
    ensures
        views(r@) == defective_ids(project.requirements.view()),
{
    let ghost s = project.requirements.view();
    let n = project.requirements.len();
    let mut out: Vec<String> = Vec::new();
    let mut i: usize = 0;
    while i < n
        invariant
            n == s.len(),
            s == project.requirements.view(),
            i <= n,
            views(out@) == defective_ids(s.take(i as int)),
        decreases n - i,
    {
        assert(s.take(i + 1).drop_last() =~= s.take(i as int));
        assert(s.take(i + 1).last() == s[i as int]);
        let r = project.requirements.at(i);
        let bad = matches!(r.status, Status::Verified) && r.tests.len() > 0
            && matches!(r.tests[r.tests.len() - 1].outcome, TestOutcome::Fail);
        if bad {
            let ghost pre = views(out@);
            out.push(r.id.clone());
            assert(views(out@) =~= pre.push(r.id@));
        }
        i = i + 1;
    }
    assert(s.take(n as int) =~= s);
    out
}

// ---------------------------------------------------------------------------
// The listing filter
// ---------------------------------------------------------------------------

/// `r` carries every one of `tags`.
pub open spec fn has_all_tags(r: Requirement, tags: Seq<Seq<char>>) -> bool {
    forall|i: int| 0 <= i < tags.len() ==> views(r.tags@).contains(#[trigger] tags[i])
}

/// `r` is shown by `req list` with these arguments: Obsolete ones hidden
/// unless asked for (by `--include-obsolete` or `--status obsolete`), then
/// kind, priority, status, every tag, and the query (case-insensitive, in
/// title or statement).
pub open spec fn listed(r: Requirement, args: ListArgs) -> bool {
    let hide_obsolete = !args.include_obsolete && args.status != Some(StatusArg::Obsolete);
    &&& !(hide_obsolete && r.status == Status::Obsolete)
    &&& (args.kind matches Some(k) ==> r.kind == kind_of(k))
    &&& (args.priority matches Some(p) ==> r.priority == priority_of(p))
    &&& (args.status matches Some(st) ==> r.status == status_of(st))
    &&& has_all_tags(r, views(args.tag@))
    &&& (args.query matches Some(q) ==> contains_seq(lower_seq(r.title@), lower_seq(q@))
        || contains_seq(lower_seq(r.statement@), lower_seq(q@)))
}

/// The members of `rs` that `req list` shows, in order.
pub open spec fn listed_seq(rs: Seq<Requirement>, args: ListArgs) -> Seq<Requirement>
    decreases rs.len(),
{
    if rs.len() == 0 {
        Seq::empty()
    } else {
        let rest = listed_seq(rs.drop_last(), args);
        if listed(rs.last(), args) { rest.push(rs.last()) } else { rest }
    }
}

/// `a2` asks for at least everything `a1` asks for: the same kind,
/// priority, status and query wherever `a1` names one, every tag of `a1`,
/// and Obsolete requirements hidden wherever `a1` hides them.
pub open spec fn narrower(a2: ListArgs, a1: ListArgs) -> bool {
    &&& (a1.kind is Some ==> a2.kind == a1.kind)
    &&& (a1.priority is Some ==> a2.priority == a1.priority)
    &&& (a1.status is Some ==> a2.status == a1.status)
    &&& (a1.query is Some ==> a2.query == a1.query)
    &&& (forall|i: int| 0 <= i < a1.tag@.len() ==> views(a2.tag@).contains(#[trigger] views(a1.tag@)[i]))
    &&& (!a1.include_obsolete && a1.status != Some(StatusArg::Obsolete)
        ==> !a2.include_obsolete && a2.status != Some(StatusArg::Obsolete))
}

/// Filters only narrow: what `req list` shows with more criteria it also
/// shows with fewer.
pub proof fn lemma_filter_monotone(rs: Seq<Requirement>, a1: ListArgs, a2: ListArgs)
    requires
        narrower(a2, a1),
    ensures
        forall|x: Requirement| #[trigger] listed_seq(rs, a2).contains(x) ==> listed_seq(rs, a1).contains(x),
    decreases rs.len(),
{
    if rs.len() > 0 {
        lemma_filter_monotone(rs.drop_last(), a1, a2);
        let r = rs.last();
        if listed(r, a2) {
            assert(has_all_tags(r, views(a1.tag@))) by {
                assert forall|i: int| 0 <= i < views(a1.tag@).len() implies views(r.tags@).contains(#[trigger] views(a1.tag@)[i]) by {
                    let t = views(a1.tag@)[i];
                    assert(views(a2.tag@).contains(t));
                    let k = choose|k: int| 0 <= k < views(a2.tag@).len() && views(a2.tag@)[k] == t;
                    assert(views(r.tags@).contains(views(a2.tag@)[k]));
                }
            }
            assert(listed(r, a1));
        }
        let p1 = listed_seq(rs.drop_last(), a1);
        let p2 = listed_seq(rs.drop_last(), a2);
        assert forall|x: Requirement| #[trigger] listed_seq(rs, a2).contains(x) implies listed_seq(rs, a1).contains(x) by {
            if listed(r, a2) {
                if x == r {
                    assert(listed_seq(rs, a1) == p1.push(r));
                    assert(p1.push(r)[p1.len() as int] == r);
                } else {
                    assert(listed_seq(rs, a2) == p2.push(r));
                    let k = choose|k: int| 0 <= k < p2.push(r).len() && p2.push(r)[k] == x;
                    assert(k < p2.len());
                    assert(p2[k] == x);
                    assert(p2.contains(x));
                    assert(p1.contains(x));
                    let m = choose|m: int| 0 <= m < p1.len() && p1[m] == x;
                    if listed(r, a1) {
                        assert(p1.push(r)[m] == x);
                    }
                }
            } else {
                assert(listed_seq(rs, a2) == p2);
                assert(p2.contains(x));
                let m = choose|m: int| 0 <= m < p1.len() && p1[m] == x;
                if listed(r, a1) {
                    assert(p1.push(r)[m] == x);
                }
            }
        }
    }
}

/// A requirement a narrower listing shows, the broader one shows too.
proof fn lemma_listed_narrower(r: Requirement, a1: ListArgs, a2: ListArgs)
    requires
        narrower(a2, a1),
        listed(r, a2),
    ensures
        listed(r, a1),
{
    assert forall|i: int| 0 <= i < views(a1.tag@).len() implies views(r.tags@).contains(#[trigger] views(a1.tag@)[i]) by {
        let t = views(a1.tag@)[i];
        assert(views(a2.tag@).contains(t));
        let k = choose|k: int| 0 <= k < views(a2.tag@).len() && views(a2.tag@)[k] == t;
        assert(views(r.tags@).contains(views(a2.tag@)[k]));
    }
}

/// Filters narrow in order: a narrower listing is the broader listing
/// filtered again, so it keeps the broader listing's order (a subsequence).
pub proof fn lemma_filter_narrows_in_order(rs: Seq<Requirement>, a1: ListArgs, a2: ListArgs)
    requires
        narrower(a2, a1),
    ensures
        listed_seq(rs, a2) == listed_seq(listed_seq(rs, a1), a2),
    decreases rs.len(),
{
    if rs.len() > 0 {
        lemma_filter_narrows_in_order(rs.drop_last(), a1, a2);
        let r = rs.last();
        let p1 = listed_seq(rs.drop_last(), a1);
        if listed(r, a1) {
            assert(listed_seq(rs, a1) == p1.push(r));
            assert(p1.push(r).drop_last() =~= p1);
            assert(p1.push(r).last() == r);
        } else {
            if listed(r, a2) {
                lemma_listed_narrower(r, a1, a2);
            }
        }
    }
}

/// `args` with Obsolete requirements shown too.
pub open spec fn with_obsolete(args: ListArgs) -> ListArgs {
    ListArgs { include_obsolete: true, ..args }
}

/// Including Obsolete requirements only adds to a listing: the listing
/// without them is the one with them, filtered again.
pub proof fn lemma_obsolete_widens(rs: Seq<Requirement>, args: ListArgs)
    ensures
        listed_seq(rs, args) == listed_seq(listed_seq(rs, with_obsolete(args)), args),
{
    let a3 = with_obsolete(args);
    assert(forall|i: int| 0 <= i < a3.tag@.len() ==> views(args.tag@).contains(#[trigger] views(a3.tag@)[i])) by {
        assert forall|i: int| 0 <= i < a3.tag@.len() implies views(args.tag@).contains(#[trigger] views(a3.tag@)[i]) by {
            assert(views(args.tag@)[i] == views(a3.tag@)[i]);
        }
    }
    assert(narrower(args, a3));
    lemma_filter_narrows_in_order(rs, a3, args);
}

/// Everything a listing shows passes its filters.
proof fn lemma_listed_members(rs: Seq<Requirement>, args: ListArgs)
    ensures
        forall|i: int| 0 <= i < listed_seq(rs, args).len() ==> listed(#[trigger] listed_seq(rs, args)[i], args),
    decreases rs.len(),
{
    if rs.len() > 0 {
        lemma_listed_members(rs.drop_last(), args);
        let p = listed_seq(rs.drop_last(), args);
        assert forall|i: int| 0 <= i < listed_seq(rs, args).len() implies listed(#[trigger] listed_seq(rs, args)[i], args) by {
            if listed(rs.last(), args) {
                assert(listed_seq(rs, args) == p.push(rs.last()));
                if i < p.len() {
                    assert(p.push(rs.last())[i] == p[i]);
                }
            }
        }
    }
}

/// With no status filter and without `--include-obsolete`, a listing shows
/// no Obsolete requirement.
pub proof fn lemma_obsolete_hidden(rs: Seq<Requirement>, args: ListArgs)
    requires
        args.status is None,
        !args.include_obsolete,
    ensures
        forall|i: int| 0 <= i < listed_seq(rs, args).len() ==> (#[trigger] listed_seq(rs, args)[i]).status != Status::Obsolete,
{
    lemma_listed_members(rs, args);
}

fn tags_all(r: &Requirement, tags: &Vec<String>) -> (b: bool)
    ensures
        b == has_all_tags(*r, views(tags@)),
{
    let mut i: usize = 0;
    while i < tags.len()
        invariant
            i <= tags@.len(),
            forall|j: int| 0 <= j < i ==> views(r.tags@).contains(#[trigger] views(tags@)[j]),
        decreases tags@.len() - i,
    {
        if !contains_str(&r.tags, tags[i].as_str()) {
            assert(!views(r.tags@).contains(views(tags@)[i as int]));
            return false;
        }
        i = i + 1;
    }
    true
}

fn shown(r: &Requirement, args: &ListArgs, needle: &Option<Vec<char>>) -> (b: bool)
    requires
        match args.query {
            Some(q) => needle is Some && needle.unwrap()@ == lower_seq(q@),
            None => needle is None,
        },
    ensures
        b == listed(*r, *args),
{
    let hide_obsolete = !args.include_obsolete && !matches!(args.status, Some(StatusArg::Obsolete));
    if hide_obsolete && matches!(r.status, Status::Obsolete) {
        return false;
    }
    match args.kind {
        Some(k) => if r.kind != to_kind(k) {
            return false;
        },
        None => {},
    }
    match args.priority {
        Some(p) => if r.priority != to_priority(p) {
            return false;
        },
        None => {},
    }
    match args.status {
        Some(s) => if r.status != to_status(s) {
            return false;
        },
        None => {},
    }
    if !tags_all(r, &args.tag) {
        return false;
    }
    match needle {
        None => true,
        Some(n) => {
            let t = chars_of(to_lower(r.title.as_str()).as_str());
            let st = chars_of(to_lower(r.statement.as_str()).as_str());
            contains(&t, n) || contains(&st, n)
        },
    }
}

/// The requirements `req list` shows for these arguments, in id order.
pub fn filter<'a>(project: &'a Project, args: &ListArgs) -> (r: Vec<&'a Requirement>)
    ensures
        r@.len() == listed_seq(project.requirements.view(), *args).len(),
        forall|i: int| 0 <= i < r@.len() ==> *(#[trigger] r@[i]) == listed_seq(project.requirements.view(), *args)[i],
{
    let needle: Option<Vec<char>> = match &args.query {
        Some(q) => Some(chars_of(to_lower(q.as_str()).as_str())),
        None => None,
    };
    let ghost s = project.requirements.view();
    let n = project.requirements.len();
    let mut out: Vec<&'a Requirement> = Vec::new();
    let mut i: usize = 0;
    while i < n
        invariant
            n == s.len(),
            s == project.requirements.view(),
            i <= n,
            match args.query {
                Some(q) => needle is Some && needle.unwrap()@ == lower_seq(q@),
                None => needle is None,
            },
            out@.len() == listed_seq(s.take(i as int), *args).len(),
            forall|k: int| 0 <= k < out@.len() ==> *(#[trigger] out@[k]) == listed_seq(s.take(i as int), *args)[k],
        decreases n - i,
    {
        assert(s.take(i + 1).drop_last() =~= s.take(i as int));
        assert(s.take(i + 1).last() == s[i as int]);
        let r = project.requirements.at(i);
        if shown(r, args, &needle) {
            out.push(r);
        }
        i = i + 1;
    }
    assert(s.take(n as int) =~= s);
    out
}

// ---------------------------------------------------------------------------
// Test sources
// ---------------------------------------------------------------------------

/// `s` with every backslash turned into a slash.
pub open spec fn slashed(s: Seq<char>) -> Seq<char> {
    s.map_values(|c: char| if c == '\\' { '/' } else { c })
}

/// The text before the first `:` (all of it when there is none).
pub open spec fn before_colon(s: Seq<char>) -> Seq<char> {
    match crate::text::first_of(s, ':') {
        Some(i) => s.take(i),
        None => s,
    }
}

/// A file stem that marks test code: it ends in `_test`, `_tests` or `.test`.
pub open spec fn test_stem(stem: Seq<char>) -> bool {
    ||| is_suffix("_test"@, stem)
    ||| is_suffix("_tests"@, stem)
    ||| is_suffix(".test"@, stem)
}

/// `p` names a file `<stem>.<ext>` with a non-empty extension (no `.` or
/// `/` in it) whose stem marks test code.
pub open spec fn test_suffix(p: Seq<char>) -> bool {
    exists|j: int|
        #![trigger p[j]]
        0 <= j < p.len() - 1 && p[j] == '.' && (forall|m: int| j < m < p.len() ==> p[m] != '.' && p[m] != '/')
            && test_stem(p.take(j))
}

/// A `file:line` marker sits in test code: under a `tests/` directory, or
/// in a file named like `*_test.<ext>`, `*_tests.<ext>` or `*.test.<ext>`
/// (compared case-insensitively, with `\` read as `/`).
pub open spec fn test_path_spec(file_ref: Seq<char>) -> bool {
    let lower = lower_seq(slashed(file_ref));
    ||| contains_seq(lower, "/tests/"@)
    ||| is_prefix("tests/"@, lower)
    ||| is_prefix("./tests/"@, lower)
    ||| test_suffix(before_colon(lower))
}

fn suffix_in(p: &Vec<char>, s: &str) -> (b: bool)
    ensures
        b == is_suffix(s@, p@),
{
    ends_with(p, &chars_of(s))
}

/// Classify a `file:line` marker as test source (true) or implementation.
pub fn is_test_path(file_ref: &str) -> (b: bool)
    ensures
        b == test_path_spec(file_ref@),
{
    let v = chars_of(file_ref);
    let mut norm: Vec<char> = Vec::new();
    let mut i: usize = 0;
    while i < v.len()
        invariant
            i <= v@.len(),
            v@ == file_ref@,
            norm@ == slashed(v@.take(i as int)),
        decreases v@.len() - i,
    {
        let c = v[i];
        norm.push(if c == '\\' { '/' } else { c });
        assert(slashed(v@.take(i + 1)) =~= slashed(v@.take(i as int)).push(if c == '\\' { '/' } else { c }));
        i = i + 1;
    }
    assert(v@.take(v@.len() as int) =~= v@);
    let lower_s = to_lower(string_of(&norm).as_str());
    let lower = chars_of(lower_s.as_str());
    if contains(&lower, &chars_of("/tests/")) || starts_with(&lower, &chars_of("tests/"))
        || starts_with(&lower, &chars_of("./tests/")) {
        return true;
    }
    let path_only = match crate::text::find_char(&lower, ':') {
        Some(k) => crate::text::prefix_upto(&lower, k),
        None => lower.clone(),
    };
    names_test_file(&path_only)
}

/// Whether the file named by `p` has a test stem, found by scanning back to
/// the last `.` of its final path component.
fn names_test_file(p: &Vec<char>) -> (b: bool)
    ensures
        b == test_suffix(p@),
{
    let n = p.len();
    let mut k: usize = n;
    while k > 0
        invariant
            k <= n,
            n == p@.len(),
            forall|m: int| k <= m < n ==> p@[m] != '.' && p@[m] != '/',
        decreases k,
    {
        let c = p[k - 1];
        if c == '.' {
            let j = k - 1;
            if j + 1 >= n {
                assert(!test_suffix(p@)) by {
                    assert forall|i: int| 0 <= i < p@.len() - 1 && p@[i] == '.' implies !(forall|m: int|
                        i < m < p@.len() ==> p@[m] != '.' && p@[m] != '/') by {
                        assert(i < j as int && p@[j as int] == '.');
                    }
                }
                return false;
            }
            let stem = crate::text::prefix_upto(p, j);
            let r = suffix_in(&stem, "_test") || suffix_in(&stem, "_tests") || suffix_in(&stem, ".test");
            proof {
                assert(stem@ =~= p@.take(j as int));
                if r {
                    assert(p@[j as int] == '.');
                } else {
                    assert forall|i: int| 0 <= i < p@.len() - 1 && p@[i] == '.' && (forall|m: int|
                        i < m < p@.len() ==> p@[m] != '.' && p@[m] != '/') implies !test_stem(p@.take(i)) by {
                        if i < j as int {
                            assert(p@[j as int] == '.');
                        }
                        assert(i == j as int);
                    }
                }
            }
            return r;
        }
        if c == '/' {
            assert(!test_suffix(p@)) by {
                assert forall|i: int| 0 <= i < p@.len() - 1 && p@[i] == '.' implies !(forall|m: int|
                    i < m < p@.len() ==> p@[m] != '.' && p@[m] != '/') by {
                    assert(i < k - 1 && p@[k - 1] == '/');
                }
            }
            return false;
        }
        k = k - 1;
    }
    assert(!test_suffix(p@));
    false
}

} // verus!
