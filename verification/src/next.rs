//! `req next`: the one requirement to work on next, among those that match
//! the filters and whose prerequisites are done.
use vstd::prelude::*;

use crate::cli::NextArgs;
use crate::idmap::{has_key, keys_sorted, lookup, Keyed};
use crate::model::{LinkKind, Priority, Project, Requirement, Status};
use crate::queries::{has_all_tags, kind_of, priority_of, status_of, to_kind, to_priority, to_status};
use crate::text::{seq_lt, views};

verus! {

/// Every depends-on link of `r` names a requirement that is Implemented or
/// Verified.
pub open spec fn deps_done(r: Requirement, p: Project) -> bool {
    forall|i: int| 0 <= i < r.links@.len() && (#[trigger] r.links@[i]).kind == LinkKind::DependsOn ==> match lookup(p.requirements.view(), r.links@[i].target@) {
        Some(d) => d.status == Status::Implemented || d.status == Status::Verified,
        None => false,
    }
}

/// Whether every prerequisite of `r` is done.
pub fn dependencies_satisfied(r: &Requirement, project: &Project) -> (b: bool)
    ensures
        b == deps_done(*r, *project),
{
    let mut i: usize = 0;
    while i < r.links.len()
        invariant
            i <= r.links@.len(),
            forall|k: int| 0 <= k < i && (#[trigger] r.links@[k]).kind == LinkKind::DependsOn ==> match lookup(project.requirements.view(), r.links@[k].target@) {
                Some(d) => d.status == Status::Implemented || d.status == Status::Verified,
                None => false,
            },
        decreases r.links@.len() - i,
    {
        let l = &r.links[i];
        if matches!(l.kind, LinkKind::DependsOn) {
            match project.requirements.get(l.target.as_str()) {
                Some(d) => if !(matches!(d.status, Status::Implemented) || matches!(d.status, Status::Verified)) {
                    return false;
                },
                None => return false,
            }
        }
        i = i + 1;
    }
    true
}

/// `r` is a candidate: its status is the one asked for (by default, not
/// yet Verified or Obsolete), it matches kind, priority and every tag, and
/// its prerequisites are done.
pub open spec fn candidate(r: Requirement, p: Project, args: NextArgs) -> bool {
    &&& match args.status {
        Some(s) => r.status == status_of(s),
        None => r.status != Status::Obsolete && r.status != Status::Verified,
    }
    &&& (args.kind matches Some(k) ==> r.kind == kind_of(k))
    &&& (args.priority matches Some(q) ==> r.priority == priority_of(q))
    &&& has_all_tags(r, views(args.tag@))
    &&& deps_done(r, p)
}

pub open spec fn priority_rank(q: Priority) -> int {
    match q {
        Priority::Must => 0,
        Priority::Should => 1,
        Priority::Could => 2,
        Priority::Wont => 3,
    }
}

pub open spec fn status_rank(s: Status) -> int {
    match s {
        Status::Draft => 0,
        Status::Proposed => 1,
        Status::Approved => 2,
        Status::Implemented => 3,
        Status::Verified => 4,
        Status::Obsolete => 5,
    }
}

/// `a` comes before `b`: higher priority first, then the less advanced
/// status, then the smaller id.
pub open spec fn before(a: Requirement, b: Requirement) -> bool {
    ||| priority_rank(a.priority) < priority_rank(b.priority)
    ||| (priority_rank(a.priority) == priority_rank(b.priority) && status_rank(a.status) < status_rank(b.status))
    ||| (priority_rank(a.priority) == priority_rank(b.priority) && status_rank(a.status) == status_rank(b.status)
        && seq_lt(a.id@, b.id@))
}

pub(crate) fn rank_of_priority(q: Priority) -> (r: u8)
    ensures
        r == priority_rank(q),
{
    match q {
        Priority::Must => 0,
        Priority::Should => 1,
        Priority::Could => 2,
        Priority::Wont => 3,
    }
}

pub(crate) fn rank_of_status(s: Status) -> (r: u8)
    ensures
        r == status_rank(s),
{
    match s {
        Status::Draft => 0,
        Status::Proposed => 1,
        Status::Approved => 2,
        Status::Implemented => 3,
        Status::Verified => 4,
        Status::Obsolete => 5,
    }
}

fn is_candidate(r: &Requirement, project: &Project, args: &NextArgs) -> (b: bool)
    ensures
        b == candidate(*r, *project, *args),
{
    let status_ok = match args.status {
        Some(s) => r.status == to_status(s),
        None => !matches!(r.status, Status::Obsolete) && !matches!(r.status, Status::Verified),
    };
    if !status_ok {
        return false;
    }
    match args.kind {
        Some(k) => if r.kind != to_kind(k) {
            return false;
        },
        None => {},
    }
    match args.priority {
        Some(q) => if r.priority != to_priority(q) {
            return false;
        },
        None => {},
    }
    let mut t: usize = 0;
    while t < args.tag.len()
        invariant
            t <= args.tag@.len(),
            forall|j: int| 0 <= j < t ==> views(r.tags@).contains(#[trigger] views(args.tag@)[j]),
        decreases args.tag@.len() - t,
    {
        if !crate::text::contains_str(&r.tags, args.tag[t].as_str()) {
            assert(!views(r.tags@).contains(views(args.tag@)[t as int]));
            return false;
        }
        t = t + 1;
    }
    dependencies_satisfied(r, project)
}

/// The requirement to work on next (`req next`): none when no requirement
/// is a candidate; otherwise the candidate that comes before every other
/// one (highest priority, then least advanced status, then smallest id).
pub fn pick_next<'a>(project: &'a Project, args: &NextArgs) -> (r: Option<&'a Requirement>)
    ensures
        match r {
            None => forall|i: int| 0 <= i < project.requirements.view().len()
                ==> !candidate(#[trigger] project.requirements.view()[i], *project, *args),
            Some(x) => {
                &&& project.requirements.view().contains(*x)
                &&& candidate(*x, *project, *args)
                &&& forall|i: int| 0 <= i < project.requirements.view().len()
                    && candidate(#[trigger] project.requirements.view()[i], *project, *args)
                    && project.requirements.view()[i] != *x ==> before(*x, project.requirements.view()[i])
                &&& forall|i: int| 0 <= i < project.requirements.view().len()
                    && candidate(#[trigger] project.requirements.view()[i], *project, *args)
                    && project.requirements.view()[i].priority == x.priority
                    ==> lifecycle_not_after(x.status, project.requirements.view()[i].status)
                &&& forall|i: int| 0 <= i < project.requirements.view().len()
                    && candidate(#[trigger] project.requirements.view()[i], *project, *args)
                    ==> priority_not_lower(x.priority, project.requirements.view()[i].priority)
            },
        },
{
    let ghost s = project.requirements.view();
    let n = project.requirements.len();
    let mut best: Option<usize> = None;
    let mut i: usize = 0;
    while i < n
        invariant
            n == s.len(),
            s == project.requirements.view(),
            keys_sorted(s),
            i <= n,
            match best {
                None => forall|k: int| 0 <= k < i ==> !candidate(#[trigger] s[k], *project, *args),
                Some(b) => b < i && candidate(s[b as int], *project, *args)
                    && forall|k: int| 0 <= k < i && candidate(#[trigger] s[k], *project, *args) && k != b
                        ==> before(s[b as int], s[k]),
            },
        decreases n - i,
    {
        let r = project.requirements.at(i);
        if is_candidate(r, project, args) {
            match best {
                None => best = Some(i),
                Some(b) => {
                    let cur = project.requirements.at(b);
                    let pc = rank_of_priority(cur.priority);
                    let pr = rank_of_priority(r.priority);
                    let sc = rank_of_status(cur.status);
                    let sr = rank_of_status(r.status);
                    proof {
                        assert(seq_lt(s[b as int].key(), s[i as int].key()));
                    }
                    if pr < pc || (pr == pc && sr < sc) {
                        proof {
                            assert forall|k: int| 0 <= k < i + 1 && candidate(#[trigger] s[k], *project, *args) && k != i
                                implies before(s[i as int], s[k]) by {
                                if k != b {
                                    assert(before(s[b as int], s[k]));
                                    if seq_lt(s[b as int].id@, s[k].id@) && seq_lt(s[i as int].id@, s[b as int].id@) {
                                        crate::text::lemma_lt_transitive(s[i as int].id@, s[b as int].id@, s[k].id@);
                                    }
                                }
                            }
                        }
                        best = Some(i);
                    } else {
                        proof {
                            assert(before(s[b as int], s[i as int]));
                        }
                    }
                },
            }
        }
        i = i + 1;
    }
    match best {
        None => None,
        Some(b) => {
            proof {
                assert(s.contains(s[b as int]));
                assert forall|k: int| 0 <= k < s.len() && candidate(#[trigger] s[k], *project, *args) && s[k] != s[b as int]
                    implies before(s[b as int], s[k]) by {
                    assert(k != b);
                }
                assert forall|k: int| 0 <= k < s.len() && candidate(#[trigger] s[k], *project, *args)
                    && s[k].priority == s[b as int].priority implies lifecycle_not_after(s[b as int].status, s[k].status) by {
                    if s[k] != s[b as int] {
                        lemma_next_prefers_least_advanced(s[b as int], s[k]);
                    }
                }
                assert forall|k: int| 0 <= k < s.len() && candidate(#[trigger] s[k], *project, *args)
                    implies priority_not_lower(s[b as int].priority, s[k].priority) by {
                    if s[k] != s[b as int] {
                        lemma_next_prefers_least_advanced(s[b as int], s[k]);
                    }
                }
            }
            Some(project.requirements.at(b))
        },
    }
}


/// The lifecycle order Draft, Proposed, Approved, Implemented, Verified,
/// Obsolete: status `a` is no further along it than status `b`.
pub open spec fn lifecycle_not_after(a: Status, b: Status) -> bool {
    match b {
        Status::Draft => a == Status::Draft,
        Status::Proposed => a == Status::Draft || a == Status::Proposed,
        Status::Approved => a == Status::Draft || a == Status::Proposed || a == Status::Approved,
        Status::Implemented => a != Status::Verified && a != Status::Obsolete,
        Status::Verified => a != Status::Obsolete,
        Status::Obsolete => true,
    }
}

/// The priority order Must, Should, Could, Won't: priority `a` is at least
/// as high as priority `b`.
pub open spec fn priority_not_lower(a: Priority, b: Priority) -> bool {
    match b {
        Priority::Must => a == Priority::Must,
        Priority::Should => a == Priority::Must || a == Priority::Should,
        Priority::Could => a != Priority::Wont,
        Priority::Wont => true,
    }
}

/// What `req next` prefers: a higher priority first (Must before Should
/// before Could before Won't), and among equal priorities the requirement
/// earliest in the lifecycle (Draft first). Whatever comes before another
/// requirement has a priority at least as high and, at equal priority, a
/// status no further along.
pub proof fn lemma_next_prefers_least_advanced(a: Requirement, b: Requirement)
    requires
        before(a, b),
    ensures
        priority_not_lower(a.priority, b.priority),
        a.priority == b.priority ==> lifecycle_not_after(a.status, b.status),
{
}

} // verus!
