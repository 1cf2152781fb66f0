//! Batches of mutations applied together: add, update, delete, link and
//! verify, each checked as the single-command form checks it. The caller
//! applies a batch to a copy of the project and keeps the copy only when
//! every mutation succeeded, so a batch is all or nothing.
use vstd::prelude::*;

use crate::errors::{message_of, ReqError};
use crate::idmap::{has_key, lookup, replaced, IdMap, Keyed};
use crate::ids::{allocate_id, next_id_spec};
use crate::links::{creates_cycle, cycle_checked, has_link, links_step, newest_entry, reachable, without_link};
use crate::model::{
    entry_records, history, ActionContext, EvidenceKind, HistoryEntry, Kind, Link, LinkKind, Priority, Project,
    Requirement, Status, TestOutcome, TestRecord,
};
use crate::text::{chars_of, dec_seq, dec_string, str_eq, string_of, views};

verus! {

/// One mutation of a batch.
pub enum Mutation {
    Add {
        title: String,
        statement: String,
        rationale: String,
        req_kind: Option<String>,
        priority: Option<String>,
        acceptance: Vec<String>,
        tags: Vec<String>,
        parent: Option<String>,
        reason: Option<String>,
    },
    Update {
        id: String,
        title: Option<String>,
        statement: Option<String>,
        rationale: Option<String>,
        acceptance: Option<Vec<String>>,
        add_acceptance: Vec<String>,
        req_kind: Option<String>,
        priority: Option<String>,
        status: Option<String>,
        add_tag: Vec<String>,
        remove_tag: Vec<String>,
        reason: Option<String>,
        /// Skip the lifecycle guard, as `req update --force` does.
        force: bool,
    },
    Delete {
        id: String,
        hard: bool,
        reason: Option<String>,
    },
    Link {
        from: String,
        to: String,
        link_kind: String,
        remove: bool,
        reason: Option<String>,
    },
    Verify {
        id: String,
        /// `composition` or `inspection`.
        by: String,
        notes: String,
        cites: Vec<String>,
        promote: bool,
        force: bool,
    },
}

/// A batch: a default reason and the mutations, applied in order.
pub struct BatchDoc {
    pub reason: Option<String>,
    pub mutations: Vec<Mutation>,
}

/// What one applied mutation did.
pub enum Applied {
    Add { id: String },
    Update { id: String, changes: Vec<String> },
    Delete { id: String, hard: bool },
    Link { from: String, to: String, kind: LinkKind, removed: bool },
    Verify { id: String, kind: EvidenceKind, commit: String, promoted: bool },
}

/// The link kind a link mutation uses when it names none.
pub fn default_link_kind() -> (r: String)
    ensures
        r@ == "parent"@,
{
    string_of(&chars_of("parent"))
}

// ---------------------------------------------------------------------------
// Field values
// ---------------------------------------------------------------------------

pub open spec fn kind_named(s: Seq<char>) -> Option<Kind> {
    if s == "functional"@ {
        Some(Kind::Functional)
    } else if s == "non-functional"@ || s == "nonfunctional"@ {
        Some(Kind::NonFunctional)
    } else if s == "constraint"@ {
        Some(Kind::Constraint)
    } else if s == "interface"@ {
        Some(Kind::Interface)
    } else if s == "business"@ {
        Some(Kind::Business)
    } else {
        None
    }
}

pub open spec fn priority_named(s: Seq<char>) -> Option<Priority> {
    if s == "must"@ {
        Some(Priority::Must)
    } else if s == "should"@ {
        Some(Priority::Should)
    } else if s == "could"@ {
        Some(Priority::Could)
    } else if s == "wont"@ {
        Some(Priority::Wont)
    } else {
        None
    }
}

pub open spec fn status_named(s: Seq<char>) -> Option<Status> {
    if s == "draft"@ {
        Some(Status::Draft)
    } else if s == "proposed"@ {
        Some(Status::Proposed)
    } else if s == "approved"@ {
        Some(Status::Approved)
    } else if s == "implemented"@ {
        Some(Status::Implemented)
    } else if s == "verified"@ {
        Some(Status::Verified)
    } else if s == "obsolete"@ {
        Some(Status::Obsolete)
    } else {
        None
    }
}

pub open spec fn link_kind_named(s: Seq<char>) -> Option<LinkKind> {
    if s == "parent"@ {
        Some(LinkKind::Parent)
    } else if s == "depends_on"@ || s == "depends-on"@ {
        Some(LinkKind::DependsOn)
    } else if s == "conflicts"@ {
        Some(LinkKind::Conflicts)
    } else if s == "refines"@ {
        Some(LinkKind::Refines)
    } else if s == "verifies"@ {
        Some(LinkKind::Verifies)
    } else {
        None
    }
}

/// `e` reports the unknown value `v` of field `what`.
pub open spec fn unknown(e: ReqError, what: Seq<char>, v: Seq<char>) -> bool {
    e matches ReqError::UnknownValue { what: w, value: x } && w@ == what && x@ == v
}

fn unknown_value(what: &str, value: &str) -> (e: ReqError)
    ensures
        unknown(e, what@, value@),
{
    ReqError::UnknownValue { what: string_of(&chars_of(what)), value: string_of(&chars_of(value)) }
}

/// Read a requirement kind (none when absent).
pub fn parse_kind(s: Option<&str>) -> (r: Result<Option<Kind>, ReqError>)
    ensures
        match s {
            None => r == Ok::<Option<Kind>, ReqError>(None),
            Some(v) => match kind_named(v@) {
                Some(k) => r == Ok::<Option<Kind>, ReqError>(Some(k)),
                None => r is Err && unknown(r->Err_0, "kind"@, v@),
            },
        },
{
    match s {
        None => Ok(None),
        Some(v) => {
            if str_eq(v, "functional") {
                Ok(Some(Kind::Functional))
            } else if str_eq(v, "non-functional") || str_eq(v, "nonfunctional") {
                Ok(Some(Kind::NonFunctional))
            } else if str_eq(v, "constraint") {
                Ok(Some(Kind::Constraint))
            } else if str_eq(v, "interface") {
                Ok(Some(Kind::Interface))
            } else if str_eq(v, "business") {
                Ok(Some(Kind::Business))
            } else {
                Err(unknown_value("kind", v))
            }
        },
    }
}

/// Read a priority (none when absent).
pub fn parse_priority(s: Option<&str>) -> (r: Result<Option<Priority>, ReqError>)
    ensures
        match s {
            None => r == Ok::<Option<Priority>, ReqError>(None),
            Some(v) => match priority_named(v@) {
                Some(k) => r == Ok::<Option<Priority>, ReqError>(Some(k)),
                None => r is Err && unknown(r->Err_0, "priority"@, v@),
            },
        },
{
    match s {
        None => Ok(None),
        Some(v) => {
            if str_eq(v, "must") {
                Ok(Some(Priority::Must))
            } else if str_eq(v, "should") {
                Ok(Some(Priority::Should))
            } else if str_eq(v, "could") {
                Ok(Some(Priority::Could))
            } else if str_eq(v, "wont") {
                Ok(Some(Priority::Wont))
            } else {
                Err(unknown_value("priority", v))
            }
        },
    }
}

/// Read a status (none when absent).
pub fn parse_status(s: Option<&str>) -> (r: Result<Option<Status>, ReqError>)
    ensures
        match s {
            None => r == Ok::<Option<Status>, ReqError>(None),
            Some(v) => match status_named(v@) {
                Some(k) => r == Ok::<Option<Status>, ReqError>(Some(k)),
                None => r is Err && unknown(r->Err_0, "status"@, v@),
            },
        },
{
    match s {
        None => Ok(None),
        Some(v) => {
            if str_eq(v, "draft") {
                Ok(Some(Status::Draft))
            } else if str_eq(v, "proposed") {
                Ok(Some(Status::Proposed))
            } else if str_eq(v, "approved") {
                Ok(Some(Status::Approved))
            } else if str_eq(v, "implemented") {
                Ok(Some(Status::Implemented))
            } else if str_eq(v, "verified") {
                Ok(Some(Status::Verified))
            } else if str_eq(v, "obsolete") {
                Ok(Some(Status::Obsolete))
            } else {
                Err(unknown_value("status", v))
            }
        },
    }
}

/// Read a link kind.
pub fn parse_link_kind(s: &str) -> (r: Result<LinkKind, ReqError>)
    ensures
        match link_kind_named(s@) {
            Some(k) => r == Ok::<LinkKind, ReqError>(k),
            None => r is Err && unknown(r->Err_0, "link kind"@, s@),
        },
{
    if str_eq(s, "parent") {
        Ok(LinkKind::Parent)
    } else if str_eq(s, "depends_on") || str_eq(s, "depends-on") {
        Ok(LinkKind::DependsOn)
    } else if str_eq(s, "conflicts") {
        Ok(LinkKind::Conflicts)
    } else if str_eq(s, "refines") {
        Ok(LinkKind::Refines)
    } else if str_eq(s, "verifies") {
        Ok(LinkKind::Verifies)
    } else {
        Err(unknown_value("link kind", s))
    }
}

fn opt_str(o: &Option<String>) -> (r: Option<&str>)
    ensures
        match o {
            Some(s) => r.is_some() && r.unwrap()@ == s@,
            None => r.is_none(),
        },
{
    match o {
        Some(s) => Some(s.as_str()),
        None => None,
    }
}

/// The reason a mutation records: its own, else the batch's.
pub open spec fn reason_of(own: Option<String>, batch: Option<String>) -> Option<Seq<char>> {
    match own {
        Some(r) => Some(r@),
        None => match batch {
            Some(r) => Some(r@),
            None => None,
        },
    }
}

fn pick_reason(own: Option<String>, batch: &Option<String>) -> (r: Option<String>)
    ensures
        match r {
            Some(s) => reason_of(own, *batch) == Some(s@),
            None => reason_of(own, *batch).is_none(),
        },
{
    match own {
        Some(r) => Some(r),
        None => crate::text::clone_opt(batch),
    }
}

/// The history reason as plain text.
pub open spec fn reason_view(r: Option<String>) -> Option<Seq<char>> {
    match r {
        Some(s) => Some(s@),
        None => None,
    }
}

// ---------------------------------------------------------------------------
// Add
// ---------------------------------------------------------------------------

/// The history note of a new requirement.
pub open spec fn created_note(via_batch: bool) -> Seq<char> {
    if via_batch { "created via batch"@ } else { "created"@ }
}

/// The history note of a retired requirement.
pub open spec fn retired_note(via_batch: bool) -> Seq<char> {
    if via_batch { "marked obsolete via batch"@ } else { "marked obsolete"@ }
}

/// What adding a requirement does (see `op_add`).
pub open spec fn add_outcome(old: Project, new: Project, title: String, statement: String, rationale: String,
    req_kind: Option<String>, priority: Option<String>, acceptance: Vec<String>, tags: Vec<String>,
    parent: Option<String>, reason: Option<String>, batch_reason: Option<String>, ctx: ActionContext, via_batch: bool,
    r: Result<String, ReqError>) -> bool {
    &&& r is Err ==> new == old
    &&& {
        let k = match req_kind { Some(v) => kind_named(v@), None => Some(Kind::Functional) };
        let p = match priority { Some(v) => priority_named(v@), None => Some(Priority::Should) };
        if k.is_none() {
            r is Err && unknown(r->Err_0, "kind"@, req_kind.unwrap()@)
        } else if p.is_none() {
            r is Err && unknown(r->Err_0, "priority"@, priority.unwrap()@)
        } else if parent.is_some() && !has_key(old.requirements.view(), parent.unwrap()@) {
            match r {
                Err(ReqError::NoSuchParent { id }) => id@ == parent.unwrap()@,
                _ => false,
            }
        } else {
            let id = next_id_spec(old.requirements.view());
            let n = lookup(new.requirements.view(), id).unwrap();
            &&& r is Ok && r.unwrap()@ == id
            &&& has_key(new.requirements.view(), id)
            &&& forall|x: Requirement| #[trigger] new.requirements.view().contains(x)
                <==> (x == n || (old.requirements.view().contains(x) && x.key() != id))
            &&& n.id@ == id && n.title == title && n.statement == statement && n.rationale == rationale
            &&& n.acceptance == acceptance && n.tags == tags
            &&& n.kind == k.unwrap() && n.priority == p.unwrap() && n.status == Status::Draft
            &&& match parent {
                Some(pid) => n.links@.len() == 1 && n.links@[0].kind == LinkKind::Parent && n.links@[0].target@ == pid@,
                None => n.links@.len() == 0,
            }
            &&& n.created == ctx.now && n.updated == ctx.now
            &&& n.tests@.len() == 0 && n.validation.is_none()
            &&& n.history@.len() == 1
            &&& entry_records(n.history@[0], ctx, created_note(via_batch), reason_of(reason, batch_reason))
            &&& others_kept(old, new)
        }
    }
}

/// Everything but the requirements, and the project's time stamp, as before.
pub open spec fn others_kept(old: Project, new: Project) -> bool {
    &&& new.name == old.name && new.hazards == old.hazards
    &&& new.safety_functions == old.safety_functions
    &&& new.safety_requirements == old.safety_requirements
    &&& new.calibration == old.calibration
    &&& new.calibration_label == old.calibration_label
    &&& new.updated == old.updated
}

/// Add a requirement: Draft, with the given fields (kind functional and
/// priority should unless named), a parent link when a parent is given
/// (which must exist), one history entry, and the next free id.
pub fn op_add(
    project: &mut Project,
    title: String,
    statement: String,
    rationale: String,
    req_kind: Option<String>,
    priority: Option<String>,
    acceptance: Vec<String>,
    tags: Vec<String>,
    parent: Option<String>,
    reason: Option<String>,
    batch_reason: &Option<String>,
    ctx: &ActionContext,
    via_batch: bool,
) -> (r: Result<String, ReqError>)
    ensures
        add_outcome(*old(project), *final(project), title, statement, rationale, req_kind, priority, acceptance, tags,
            parent, reason, *batch_reason, *ctx, via_batch, r),
{
    let kind = match parse_kind(opt_str(&req_kind))? {
        Some(k) => k,
        None => Kind::Functional,
    };
    let prio = match parse_priority(opt_str(&priority))? {
        Some(p) => p,
        None => Priority::Should,
    };
    let mut links: Vec<Link> = Vec::new();
    match &parent {
        Some(p) => {
            if !project.requirements.contains_key(p.as_str()) {
                return Err(ReqError::NoSuchParent { id: p.clone() });
            }
            links.push(Link { kind: LinkKind::Parent, target: p.clone() });
        },
        None => {},
    }
    let why = pick_reason(reason, batch_reason);
    let note = if via_batch { string_of(&chars_of("created via batch")) } else { string_of(&chars_of("created")) };
    let e = history(note, why, ctx);
    let id = allocate_id(project);
    let req = Requirement {
        id: id.clone(),
        title,
        statement,
        rationale,
        acceptance,
        kind,
        priority: prio,
        status: Status::Draft,
        tags,
        links,
        tests: Vec::new(),
        validation: None,
        history: vec![e],
        created: ctx.now.clone(),
        updated: ctx.now.clone(),
    };
    project.requirements.insert(req);
    Ok(id)
}

// ---------------------------------------------------------------------------
// Delete
// ---------------------------------------------------------------------------

/// The ids of the requirements with a link to `id`, in id order.
pub open spec fn inbound(reqs: Seq<Requirement>, id: Seq<char>) -> Seq<Seq<char>>
    decreases reqs.len(),
{
    if reqs.len() == 0 {
        Seq::empty()
    } else {
        let rest = inbound(reqs.drop_last(), id);
        let r = reqs.last();
        if exists|i: int| 0 <= i < r.links@.len() && (#[trigger] r.links@[i]).target@ == id {
            rest.push(r.id@)
        } else {
            rest
        }
    }
}

fn links_to(r: &Requirement, id: &str) -> (b: bool)
    ensures
        b == exists|i: int| 0 <= i < r.links@.len() && (#[trigger] r.links@[i]).target@ == id@,
{
    let mut i: usize = 0;
    while i < r.links.len()
        invariant
            i <= r.links@.len(),
            forall|j: int| 0 <= j < i ==> (#[trigger] r.links@[j]).target@ != id@,
        decreases r.links@.len() - i,
    {
        if str_eq(r.links[i].target.as_str(), id) {
            return true;
        }
        i = i + 1;
    }
    false
}

fn inbound_of(reqs: &IdMap<Requirement>, id: &str) -> (r: Vec<String>)
    ensures
        views(r@) == inbound(reqs.view(), id@),
{
    let n = reqs.len();
    let ghost s = reqs.view();
    let mut out: Vec<String> = Vec::new();
    let mut i: usize = 0;
    while i < n
        invariant
            n == s.len(),
            s == reqs.view(),
            i <= n,
            views(out@) == inbound(s.take(i as int), id@),
        decreases n - i,
    {
        let r = reqs.at(i);
        assert(s.take(i + 1).drop_last() =~= s.take(i as int));
        assert(s.take(i + 1).last() == s[i as int]);
        if links_to(r, id) {
            let ghost before = views(out@);
            out.push(r.id.clone());
            assert(views(out@) =~= before.push(r.id@));
        }
        i = i + 1;
    }
    assert(s.take(n as int) =~= s);
    out
}

/// What retiring a requirement does (see `op_delete`).
pub open spec fn delete_outcome(old: Project, new: Project, id: String, hard: bool, reason: Option<String>,
    batch_reason: Option<String>, ctx: ActionContext, via_batch: bool, r: Result<bool, ReqError>) -> bool {
    &&& (r is Err ==> new == old)
    &&& (!has_key(old.requirements.view(), id@) ==> match r {
            Err(ReqError::NoSuchRequirement { raw, suggestion }) => raw@ == id@ && suggestion.is_none(),
            _ => false,
        })
    &&& (has_key(old.requirements.view(), id@) ==> {
            let links_in = inbound(old.requirements.view(), id@);
            if hard {
                if links_in.len() > 0 {
                    match r {
                        Err(ReqError::HardDeleteBlocked { id: x, by }) => x@ == id@ && views(by@) == links_in,
                        _ => false,
                    }
                } else {
                    &&& r == Ok::<bool, ReqError>(true)
                    &&& !has_key(new.requirements.view(), id@)
                    &&& forall|x: Requirement| #[trigger] new.requirements.view().contains(x)
                        <==> (old.requirements.view().contains(x) && x.key() != id@)
                    &&& others_kept(old, new)
                }
            } else {
                let o = lookup(old.requirements.view(), id@).unwrap();
                let n = lookup(new.requirements.view(), id@).unwrap();
                &&& r == Ok::<bool, ReqError>(false)
                &&& has_key(new.requirements.view(), id@)
                &&& replaced(old.requirements.view(), new.requirements.view(), n)
                &&& n == Requirement { status: Status::Obsolete, history: n.history, updated: ctx.now, ..o }
                &&& n.history@.len() == o.history@.len() + 1
                &&& n.history@.drop_last() == o.history@
                &&& entry_records(n.history@.last(), ctx, retired_note(via_batch), reason_of(reason, batch_reason))
                &&& others_kept(old, new)
            }
        })
}

/// Retire a requirement: soft (status Obsolete, one history entry) or, with
/// `hard`, remove it outright, which is refused while others link to it.
pub fn op_delete(project: &mut Project, id: String, hard: bool, reason: Option<String>, batch_reason: &Option<String>,
    ctx: &ActionContext, via_batch: bool) -> (r: Result<bool, ReqError>)
    ensures
        delete_outcome(*old(project), *final(project), id, hard, reason, *batch_reason, *ctx, via_batch, r),
{
    if !project.requirements.contains_key(id.as_str()) {
        return Err(ReqError::NoSuchRequirement { raw: id, suggestion: None });
    }
    let links_in = inbound_of(&project.requirements, id.as_str());
    if hard {
        if links_in.len() > 0 {
            return Err(ReqError::HardDeleteBlocked { id, by: links_in });
        }
        let _ = project.requirements.remove(id.as_str());
        Ok(true)
    } else {
        let why = pick_reason(reason, batch_reason);
        let note = if via_batch {
            string_of(&chars_of("marked obsolete via batch"))
        } else {
            string_of(&chars_of("marked obsolete"))
        };
        let e = history(note, why, ctx);
        let mut r = project.requirements.remove(id.as_str()).unwrap();
        let ghost o = r;
        r.status = Status::Obsolete;
        r.updated = ctx.now.clone();
        r.history.push(e);
        assert(r.history@.drop_last() =~= o.history@);
        let ghost mid = project.requirements.view();
        project.requirements.insert(r);
        proof {
            assert(!has_key(mid, id@));
        }
        Ok(false)
    }
}


// ---------------------------------------------------------------------------
// Update
// ---------------------------------------------------------------------------

/// Tags after adding `adds` in order (each only when not already there),
/// with the change notes.
pub open spec fn tags_added(tags: Seq<Seq<char>>, adds: Seq<Seq<char>>) -> (Seq<Seq<char>>, Seq<Seq<char>>)
    decreases adds.len(),
{
    if adds.len() == 0 {
        (tags, Seq::empty())
    } else {
        let (t, c) = tags_added(tags, adds.drop_last());
        let x = adds.last();
        if t.contains(x) { (t, c) } else { (t.push(x), c.push("+tag "@ + x)) }
    }
}

/// The first position of `x` in `s`.
pub open spec fn position_of(s: Seq<Seq<char>>, x: Seq<char>) -> Option<int> {
    if s.contains(x) {
        Some(choose|i: int| 0 <= i < s.len() && s[i] == x && forall|j: int| 0 <= j < i ==> s[j] != x)
    } else {
        None
    }
}

/// Tags after removing, for each of `rems` in order, its first occurrence,
/// with the change notes.
pub open spec fn tags_removed(tags: Seq<Seq<char>>, rems: Seq<Seq<char>>) -> (Seq<Seq<char>>, Seq<Seq<char>>)
    decreases rems.len(),
{
    if rems.len() == 0 {
        (tags, Seq::empty())
    } else {
        let (t, c) = tags_removed(tags, rems.drop_last());
        let x = rems.last();
        match position_of(t, x) {
            Some(p) => (t.remove(p), c.push("-tag "@ + x)),
            None => (t, c),
        }
    }
}

/// The notes for appended acceptance criteria.
pub open spec fn acceptance_notes(adds: Seq<Seq<char>>) -> Seq<Seq<char>> {
    adds.map_values(|a: Seq<char>| "+acceptance: "@ + crate::text::debug_str(a))
}

/// A note when a field changes to a different value.
pub open spec fn note_if(changed: bool, note: Seq<char>) -> Seq<Seq<char>> {
    if changed { seq![note] } else { Seq::empty() }
}

/// The requested values of an update, as plain values.
pub struct UpdateFields {
    pub title: Option<String>,
    pub statement: Option<String>,
    pub rationale: Option<String>,
    pub acceptance: Option<Vec<String>>,
    pub add_acceptance: Vec<String>,
    pub kind: Option<Kind>,
    pub priority: Option<Priority>,
    pub status: Option<Status>,
    pub add_tag: Vec<String>,
    pub remove_tag: Vec<String>,
}

pub open spec fn differs(new: Option<String>, old: String) -> bool {
    new.is_some() && new.unwrap()@ != old@
}

/// What an update records: the change notes, in order.
pub open spec fn update_notes(r: Requirement, f: UpdateFields) -> Seq<Seq<char>> {
    let added = tags_added(views(r.tags@), views(f.add_tag@));
    let removed = tags_removed(added.0, views(f.remove_tag@));
    note_if(differs(f.title, r.title), "title"@)
        + note_if(differs(f.statement, r.statement), "statement"@)
        + note_if(differs(f.rationale, r.rationale), "rationale"@)
        + note_if(f.acceptance.is_some(), "acceptance replaced"@)
        + acceptance_notes(views(f.add_acceptance@))
        + note_if(f.kind.is_some() && f.kind.unwrap() != r.kind, "kind -> "@ + f.kind.unwrap().name())
        + note_if(f.priority.is_some() && f.priority.unwrap() != r.priority, "priority -> "@ + f.priority.unwrap().name())
        + note_if(f.status.is_some() && f.status.unwrap() != r.status, "status -> "@ + f.status.unwrap().name())
        + added.1 + removed.1
}

/// `n` is `r` with the update `f` applied (history and time aside).
pub open spec fn updated_fields(r: Requirement, n: Requirement, f: UpdateFields) -> bool {
    &&& n.id == r.id && n.links == r.links && n.tests == r.tests && n.validation == r.validation && n.created == r.created
    &&& n.title@ == (match f.title { Some(t) => t@, None => r.title@ })
    &&& n.statement@ == (match f.statement { Some(t) => t@, None => r.statement@ })
    &&& n.rationale@ == (match f.rationale { Some(t) => t@, None => r.rationale@ })
    &&& views(n.acceptance@) == (match f.acceptance { Some(a) => views(a@), None => views(r.acceptance@) }) + views(f.add_acceptance@)
    &&& n.kind == (match f.kind { Some(k) => k, None => r.kind })
    &&& n.priority == (match f.priority { Some(k) => k, None => r.priority })
    &&& n.status == (match f.status { Some(k) => k, None => r.status })
    &&& views(n.tags@) == tags_removed(tags_added(views(r.tags@), views(f.add_tag@)).0, views(f.remove_tag@)).0
}

fn note(v: &mut Vec<String>, s: &str)
    ensures
        views(final(v)@) == views(old(v)@).push(s@),
{
    let ghost o = views(v@);
    v.push(string_of(&chars_of(s)));
    assert(views(v@) =~= o.push(s@));
}

fn note_with(v: &mut Vec<String>, head: &str, tail: &str)
    ensures
        views(final(v)@) == views(old(v)@).push(head@ + tail@),
{
    let ghost o = views(v@);
    let mut s = string_of(&chars_of(head));
    s.append(tail);
    v.push(s);
    assert(views(v@) =~= o.push(head@ + tail@));
}

proof fn lemma_position_found(s: Seq<Seq<char>>, x: Seq<char>, i: int)
    requires
        0 <= i < s.len(),
        s[i] == x,
        forall|j: int| 0 <= j < i ==> s[j] != x,
    ensures
        position_of(s, x) == Some(i),
{
    assert(s.contains(x));
    let k = choose|k: int| 0 <= k < s.len() && s[k] == x && forall|j: int| 0 <= j < k ==> s[j] != x;
    if k < i {
        assert(s[k] != x);
    } else if i < k {
        assert(s[i] != x);
    }
}

fn apply_tags(tags: &mut Vec<String>, changes: &mut Vec<String>, adds: &Vec<String>, rems: &Vec<String>)
    ensures
        views(final(tags)@) == tags_removed(tags_added(views(old(tags)@), views(adds@)).0, views(rems@)).0,
        views(final(changes)@) == views(old(changes)@) + tags_added(views(old(tags)@), views(adds@)).1
            + tags_removed(tags_added(views(old(tags)@), views(adds@)).0, views(rems@)).1,
{
    let ghost t0 = views(tags@);
    let ghost c0 = views(changes@);
    let ghost av = views(adds@);
    let ghost rv = views(rems@);
    let mut i: usize = 0;
    while i < adds.len()
        invariant
            i <= adds@.len(),
            av == views(adds@),
            views(tags@) == tags_added(t0, av.take(i as int)).0,
            views(changes@) == c0 + tags_added(t0, av.take(i as int)).1,
        decreases adds@.len() - i,
    {
        assert(av.take(i + 1).drop_last() =~= av.take(i as int));
        assert(av.take(i + 1).last() == adds@[i as int]@);
        let t = &adds[i];
        if !crate::text::contains_str(tags, t.as_str()) {
            let ghost tb = views(tags@);
            let ghost cb = views(changes@);
            tags.push(t.clone());
            assert(views(tags@) =~= tb.push(t@));
            note_with(changes, "+tag ", t.as_str());
            assert(views(changes@) =~= c0 + tags_added(t0, av.take(i as int)).1.push("+tag "@ + t@));
        }
        i = i + 1;
    }
    assert(av.take(adds@.len() as int) =~= av);
    let ghost t1 = views(tags@);
    let ghost c1 = views(changes@);
    let mut k: usize = 0;
    while k < rems.len()
        invariant
            k <= rems@.len(),
            rv == views(rems@),
            t1 == tags_added(t0, av).0,
            c1 == c0 + tags_added(t0, av).1,
            views(tags@) == tags_removed(t1, rv.take(k as int)).0,
            views(changes@) == c1 + tags_removed(t1, rv.take(k as int)).1,
        decreases rems@.len() - k,
    {
        assert(rv.take(k + 1).drop_last() =~= rv.take(k as int));
        assert(rv.take(k + 1).last() == rems@[k as int]@);
        let t = &rems[k];
        let ghost tb = views(tags@);
        let mut p: usize = 0;
        while p < tags.len() && !str_eq(tags[p].as_str(), t.as_str())
            invariant
                p <= tags@.len(),
                tb == views(tags@),
                forall|j: int| 0 <= j < p ==> tb[j] != t@,
            decreases tags@.len() - p,
        {
            p = p + 1;
        }
        if p < tags.len() {
            proof {
                lemma_position_found(tb, t@, p as int);
            }
            tags.remove(p);
            assert(views(tags@) =~= tb.remove(p as int));
            note_with(changes, "-tag ", t.as_str());
            assert(views(changes@) =~= c1 + tags_removed(t1, rv.take(k as int)).1.push("-tag "@ + t@));
        } else {
            assert(!tb.contains(t@)) by {
                if tb.contains(t@) {
                    let j = choose|j: int| 0 <= j < tb.len() && tb[j] == t@;
                }
            }
        }
        k = k + 1;
    }
    assert(rv.take(rems@.len() as int) =~= rv);
}

pub(crate) fn append_all(v: &mut Vec<String>, adds: &Vec<String>)
    ensures
        views(final(v)@) == views(old(v)@) + views(adds@),
{
    let ghost o = views(v@);
    let mut i: usize = 0;
    while i < adds.len()
        invariant
            i <= adds@.len(),
            views(v@) == o + views(adds@).take(i as int),
        decreases adds@.len() - i,
    {
        let ghost b = views(v@);
        v.push(adds[i].clone());
        assert(views(v@) =~= b.push(adds@[i as int]@));
        assert(views(adds@).take(i + 1) =~= views(adds@).take(i as int).push(adds@[i as int]@));
        i = i + 1;
    }
    assert(views(adds@).take(adds@.len() as int) =~= views(adds@));
}

fn append_acceptance(acc: &mut Vec<String>, changes: &mut Vec<String>, adds: &Vec<String>)
    ensures
        views(final(acc)@) == views(old(acc)@) + views(adds@),
        views(final(changes)@) == views(old(changes)@) + acceptance_notes(views(adds@)),
{
    let ghost acc0 = views(acc@);
    let ghost c0 = views(changes@);
    let mut i: usize = 0;
    while i < adds.len()
        invariant
            i <= adds@.len(),
            views(acc@) == acc0 + views(adds@).take(i as int),
            views(changes@) == c0 + acceptance_notes(views(adds@).take(i as int)),
        decreases adds@.len() - i,
    {
        let a = &adds[i];
        let ghost ra = views(acc@);
        acc.push(a.clone());
        assert(views(acc@) =~= ra.push(a@));
        assert(views(adds@).take(i + 1) =~= views(adds@).take(i as int).push(a@));
        let q = crate::text::debug_quoted(a.as_str());
        note_with(changes, "+acceptance: ", q.as_str());
        assert(acceptance_notes(views(adds@).take(i + 1)) =~= acceptance_notes(views(adds@).take(i as int)).push("+acceptance: "@ + crate::text::debug_str(a@)));
        i = i + 1;
    }
    assert(views(adds@).take(adds@.len() as int) =~= views(adds@));
}

fn set_text(field: &mut String, new: Option<String>, changes: &mut Vec<String>, label: &str)
    ensures
        final(field)@ == (match new { Some(t) => t@, None => old(field)@ }),
        views(final(changes)@) == views(old(changes)@) + note_if(differs(new, *old(field)), label@),
{
    match new {
        Some(t) => if !str_eq(field.as_str(), t.as_str()) {
            *field = t;
            note(changes, label);
            return;
        },
        None => {},
    }
    assert(views(changes@) =~= views(changes@) + Seq::<Seq<char>>::empty());
}

fn set_kind(field: &mut Kind, new: Option<Kind>, changes: &mut Vec<String>)
    ensures
        *final(field) == (match new { Some(k) => k, None => *old(field) }),
        views(final(changes)@) == views(old(changes)@)
            + note_if(new.is_some() && new.unwrap() != *old(field), "kind -> "@ + new.unwrap().name()),
{
    match new {
        Some(k) => if k != *field {
            *field = k;
            note_with(changes, "kind -> ", k.as_str());
            return;
        },
        None => {},
    }
    assert(views(changes@) =~= views(changes@) + Seq::<Seq<char>>::empty());
}

fn set_priority(field: &mut Priority, new: Option<Priority>, changes: &mut Vec<String>)
    ensures
        *final(field) == (match new { Some(k) => k, None => *old(field) }),
        views(final(changes)@) == views(old(changes)@)
            + note_if(new.is_some() && new.unwrap() != *old(field), "priority -> "@ + new.unwrap().name()),
{
    match new {
        Some(k) => if k != *field {
            *field = k;
            note_with(changes, "priority -> ", k.as_str());
            return;
        },
        None => {},
    }
    assert(views(changes@) =~= views(changes@) + Seq::<Seq<char>>::empty());
}

fn set_status(field: &mut Status, new: Option<Status>, changes: &mut Vec<String>)
    ensures
        *final(field) == (match new { Some(k) => k, None => *old(field) }),
        views(final(changes)@) == views(old(changes)@)
            + note_if(new.is_some() && new.unwrap() != *old(field), "status -> "@ + new.unwrap().name()),
{
    match new {
        Some(k) => if k != *field {
            *field = k;
            note_with(changes, "status -> ", k.as_str());
            return;
        },
        None => {},
    }
    assert(views(changes@) =~= views(changes@) + Seq::<Seq<char>>::empty());
}

fn set_acceptance(field: &mut Vec<String>, new: Option<Vec<String>>, changes: &mut Vec<String>)
    ensures
        views(final(field)@) == (match new { Some(a) => views(a@), None => views(old(field)@) }),
        views(final(changes)@) == views(old(changes)@) + note_if(new.is_some(), "acceptance replaced"@),
{
    match new {
        Some(a) => {
            *field = a;
            note(changes, "acceptance replaced");
        },
        None => {
            assert(views(changes@) =~= views(changes@) + Seq::<Seq<char>>::empty());
        },
    }
}

/// Apply the field changes of an update to a requirement; the notes in order.
#[verifier::rlimit(40)]
fn apply_fields(r: &mut Requirement, f: UpdateFields) -> (changes: Vec<String>)
    ensures
        updated_fields(*old(r), *final(r), f),
        final(r).history == old(r).history && final(r).updated == old(r).updated,
        views(changes@) == update_notes(*old(r), f),
{
    let ghost o = *r;
    let ghost fv = f;
    let mut changes: Vec<String> = Vec::new();
    let UpdateFields { title, statement, rationale, acceptance, add_acceptance, kind, priority, status, add_tag, remove_tag } = f;
    let ghost c0 = views(changes@);
    set_text(&mut r.title, title, &mut changes, "title");
    set_text(&mut r.statement, statement, &mut changes, "statement");
    set_text(&mut r.rationale, rationale, &mut changes, "rationale");
    set_acceptance(&mut r.acceptance, acceptance, &mut changes);
    append_acceptance(&mut r.acceptance, &mut changes, &add_acceptance);
    set_kind(&mut r.kind, kind, &mut changes);
    set_priority(&mut r.priority, priority, &mut changes);
    set_status(&mut r.status, status, &mut changes);
    apply_tags(&mut r.tags, &mut changes, &add_tag, &remove_tag);
    proof {
        assert(c0 =~= Seq::<Seq<char>>::empty());
        assert(views(changes@) =~= update_notes(o, fv));
    }
    changes
}

/// What updating a requirement from a batch does (see `op_update`).
pub open spec fn update_outcome(old: Project, new: Project, id: String, title: Option<String>, statement: Option<String>,
    rationale: Option<String>, acceptance: Option<Vec<String>>, add_acceptance: Vec<String>, req_kind: Option<String>,
    priority: Option<String>, status: Option<String>, add_tag: Vec<String>, remove_tag: Vec<String>,
    reason: Option<String>, force: bool, batch_reason: Option<String>, ctx: ActionContext, r: Result<Vec<String>, ReqError>) -> bool {
    &&& (r is Err ==> new == old)
    &&& (!has_key(old.requirements.view(), id@) ==> match r {
            Err(ReqError::NoSuchRequirement { raw, suggestion }) => raw@ == id@ && suggestion.is_none(),
            _ => false,
        })
    &&& (has_key(old.requirements.view(), id@) ==> {
            let o = lookup(old.requirements.view(), id@).unwrap();
            let k = match req_kind { Some(v) => kind_named(v@), None => None };
            let p = match priority { Some(v) => priority_named(v@), None => None };
            let st = match status { Some(v) => status_named(v@), None => None };
            if req_kind.is_some() && k.is_none() {
                r is Err && unknown(r->Err_0, "kind"@, req_kind.unwrap()@)
            } else if priority.is_some() && p.is_none() {
                r is Err && unknown(r->Err_0, "priority"@, priority.unwrap()@)
            } else if status.is_some() && st.is_none() {
                r is Err && unknown(r->Err_0, "status"@, status.unwrap()@)
            } else if st.is_some() && st.unwrap() != o.status && !crate::model::natural_transition(o.status, st.unwrap()) && !force {
                match r {
                    Err(ReqError::IrregularTransition { id: x, from, to }) => x@ == id@ && from == o.status && to == st.unwrap(),
                    _ => false,
                }
            } else {
                let f = UpdateFields { title, statement, rationale, acceptance, add_acceptance, kind: k, priority: p,
                    status: st, add_tag, remove_tag };
                let n = lookup(new.requirements.view(), id@).unwrap();
                &&& r is Ok && views(r.unwrap()@) == update_notes(o, f)
                &&& has_key(new.requirements.view(), id@)
                &&& replaced(old.requirements.view(), new.requirements.view(), n)
                &&& updated_fields(o, n, f)
                &&& n.updated == ctx.now
                &&& n.history@.len() == o.history@.len() + 1
                &&& n.history@.drop_last() == o.history@
                &&& entry_records(n.history@.last(), ctx, crate::text::join_seq(update_notes(o, f), "; "@),
                    reason_of(reason, batch_reason))
                &&& others_kept(old, new)
            }
        })
}

/// Update a requirement from a batch: the named fields, appended acceptance
/// criteria, tags added and removed; a status change off the natural
/// lifecycle needs `force`. One history entry lists the changes.
pub fn op_update(project: &mut Project, id: String, title: Option<String>, statement: Option<String>,
    rationale: Option<String>, acceptance: Option<Vec<String>>, add_acceptance: Vec<String>, req_kind: Option<String>,
    priority: Option<String>, status: Option<String>, add_tag: Vec<String>, remove_tag: Vec<String>,
    reason: Option<String>, force: bool, batch_reason: &Option<String>, ctx: &ActionContext) -> (r: Result<Vec<String>, ReqError>)
    ensures
        update_outcome(*old(project), *final(project), id, title, statement, rationale, acceptance, add_acceptance,
            req_kind, priority, status, add_tag, remove_tag, reason, force, *batch_reason, *ctx, r),
{
    if !project.requirements.contains_key(id.as_str()) {
        return Err(ReqError::NoSuchRequirement { raw: id, suggestion: None });
    }
    let k = parse_kind(opt_str(&req_kind))?;
    let p = parse_priority(opt_str(&priority))?;
    let st = parse_status(opt_str(&status))?;
    let cur = project.requirements.get(id.as_str()).unwrap().status;
    match st {
        Some(s) => if s != cur && !crate::model::is_natural_transition(cur, s) && !force {
            return Err(ReqError::IrregularTransition { id, from: cur, to: s });
        },
        None => {},
    }
    let ghost fv = UpdateFields { title, statement, rationale, acceptance, add_acceptance, kind: k, priority: p,
        status: st, add_tag, remove_tag };
    let f = UpdateFields { title, statement, rationale, acceptance, add_acceptance, kind: k, priority: p, status: st, add_tag, remove_tag };
    let why = pick_reason(reason, batch_reason);
    let mut r = project.requirements.remove(id.as_str()).unwrap();
    let ghost o = r;
    let changes = apply_fields(&mut r, f);
    let action = crate::text::join(&changes, "; ");
    let e = history(action, why, ctx);
    r.updated = ctx.now.clone();
    r.history.push(e);
    assert(r.history@.drop_last() =~= o.history@);
    let ghost mid = project.requirements.view();
    project.requirements.insert(r);
    proof {
        assert(!has_key(mid, id@));
    }
    Ok(changes)
}


// ---------------------------------------------------------------------------
// Link
// ---------------------------------------------------------------------------

/// `new` is `old` with requirement `id`'s links set to `links`, one history
/// entry appended and its time stamp set to `now`; the rest as it was.
pub open spec fn relinked(old: Project, new: Project, id: Seq<char>, links: Seq<Link>, now: String) -> bool {
    let o = lookup(old.requirements.view(), id).unwrap();
    let n = lookup(new.requirements.view(), id).unwrap();
    &&& has_key(new.requirements.view(), id)
    &&& replaced(old.requirements.view(), new.requirements.view(), n)
    &&& n == Requirement { links: n.links, history: n.history, updated: n.updated, ..o }
    &&& n.links@ == links
    &&& n.history@.len() == o.history@.len() + 1
    &&& n.history@.drop_last() == o.history@
    &&& n.updated == now
    &&& others_kept(old, new)
}

/// What linking from a batch does (see `op_batch_link`).
pub open spec fn link_outcome(old: Project, new: Project, from: String, to: String, link_kind: String, remove: bool,
    reason: Option<String>, batch_reason: Option<String>, ctx: ActionContext, r: Result<LinkKind, ReqError>) -> bool {
    let reqs = old.requirements.view();
    &&& r is Err ==> new == old
    &&& if from@ == to@ {
        match r {
            Err(ReqError::SelfLink { id }) => id@ == from@,
            _ => false,
        }
    } else if !has_key(reqs, to@) {
        match r {
            Err(ReqError::NoSuchTarget { id }) => id@ == to@,
            _ => false,
        }
    } else if link_kind_named(link_kind@).is_none() {
        r is Err && unknown(r->Err_0, "link kind"@, link_kind@)
    } else {
        let kind = link_kind_named(link_kind@).unwrap();
        if cycle_checked(kind) && !remove && reachable(reqs, kind, to@, from@) {
            match r {
                Err(ReqError::WouldCycle { from: f, to: t, kind: k }) => f@ == from@ && t@ == to@ && k == kind,
                _ => false,
            }
        } else if !has_key(reqs, from@) {
            match r {
                Err(ReqError::NoSuchSource { id }) => id@ == from@,
                _ => false,
            }
        } else {
            let ls = lookup(reqs, from@).unwrap().links@;
            let n = lookup(new.requirements.view(), from@).unwrap();
            if remove && !has_link(ls, kind, to@) {
                r == Err::<LinkKind, ReqError>(ReqError::NoSuchLink)
            } else if !remove && has_link(ls, kind, to@) {
                r == Err::<LinkKind, ReqError>(ReqError::DuplicateLink)
            } else {
                &&& r == Ok::<LinkKind, ReqError>(kind)
                &&& relinked(old, new, from@, if remove { without_link(ls, kind, to@) } else { ls.push(n.links@.last()) }, ctx.now)
                &&& !remove ==> n.links@.last().kind == kind && n.links@.last().target@ == to@
                &&& entry_records(n.history@.last(), ctx,
                    (if remove { "removed "@ } else { "added "@ }) + kind.name() + " link to "@ + to@ + " via batch"@,
                    reason_of(reason, batch_reason))
            }
        }
    }
}

fn relink(project: &mut Project, id: &str, links: Vec<Link>, e: HistoryEntry)
    requires
        has_key(old(project).requirements.view(), id@),
    ensures
        relinked(*old(project), *final(project), id@, links@, e.at),
        lookup(final(project).requirements.view(), id@).unwrap().history@.last() == e,
{
    let stamp = e.at.clone();
    let mut r = project.requirements.remove(id).unwrap();
    let ghost o = r;
    r.links = links;
    r.history.push(e);
    r.updated = stamp;
    assert(r.history@.drop_last() =~= o.history@);
    let ghost mid = project.requirements.view();
    project.requirements.insert(r);
    proof {
        assert(!has_key(mid, id@));
    }
}

/// Add (or with `remove`, take away) a link from a batch: the ids are taken
/// as given; a requirement cannot link to itself; the target must exist;
/// an asymmetric link may not close a cycle along first links of its kind.
pub fn op_batch_link(project: &mut Project, from: String, to: String, link_kind: String, remove: bool,
    reason: Option<String>, batch_reason: &Option<String>, ctx: &ActionContext) -> (r: Result<LinkKind, ReqError>)
    ensures
        link_outcome(*old(project), *final(project), from, to, link_kind, remove, reason, *batch_reason, *ctx, r),
{
    if str_eq(from.as_str(), to.as_str()) {
        return Err(ReqError::SelfLink { id: from });
    }
    if !project.requirements.contains_key(to.as_str()) {
        return Err(ReqError::NoSuchTarget { id: to });
    }
    let kind = parse_link_kind(link_kind.as_str())?;
    let checked = matches!(kind, LinkKind::Parent | LinkKind::DependsOn | LinkKind::Refines | LinkKind::Verifies);
    if checked && !remove && creates_cycle(&project.requirements, from.as_str(), to.as_str(), kind) {
        return Err(ReqError::WouldCycle { from, to, kind });
    }
    let r = match project.requirements.get(from.as_str()) {
        Some(r) => r,
        None => return Err(ReqError::NoSuchSource { id: from }),
    };
    let links = if remove {
        let kept = crate::links::drop_link(&r.links, kind, to.as_str());
        proof {
            crate::links::lemma_without_len(r.links@, kind, to@);
        }
        if kept.len() == r.links.len() {
            return Err(ReqError::NoSuchLink);
        }
        kept
    } else {
        if crate::links::link_present(&r.links, kind, to.as_str()) {
            return Err(ReqError::DuplicateLink);
        }
        let mut ls = crate::links::clone_links(&r.links);
        ls.push(Link { kind, target: to.clone() });
        ls
    };
    let mut action = string_of(&chars_of(if remove { "removed " } else { "added " }));
    action.append(kind.as_str());
    action.append(" link to ");
    action.append(to.as_str());
    action.append(" via batch");
    let why = pick_reason(reason, batch_reason);
    let e = history(action, why, ctx);
    relink(project, from.as_str(), links, e);
    Ok(kind)
}

// ---------------------------------------------------------------------------
// Verify
// ---------------------------------------------------------------------------

pub open spec fn evidence_named(s: Seq<char>) -> Option<EvidenceKind> {
    if s == "composition"@ {
        Some(EvidenceKind::Composition)
    } else if s == "inspection"@ {
        Some(EvidenceKind::Inspection)
    } else {
        None
    }
}

/// The commit a batch records evidence against.
pub open spec fn batch_commit(ctx: ActionContext) -> Seq<char> {
    match ctx.head {
        Some(h) => h@,
        None => "(no git)"@,
    }
}

/// The notes of a batch evidence record: the citations, then the notes.
pub open spec fn cited_notes(cites: Seq<Seq<char>>, notes: Seq<char>) -> Seq<char> {
    if cites.len() == 0 { notes } else { "cites: "@ + crate::text::join_seq(cites, ", "@) + " — "@ + notes }
}

/// What recording evidence from a batch does (see `op_batch_verify`).
pub open spec fn verify_outcome(old: Project, new: Project, id: String, by: String, notes: String, cites: Vec<String>,
    promote: bool, force: bool, ctx: ActionContext, r: Result<(EvidenceKind, String, bool), ReqError>) -> bool {
    let reqs = old.requirements.view();
    &&& r is Err ==> new == old
    &&& if evidence_named(by@).is_none() {
        r is Err && unknown(r->Err_0, "by"@, by@)
    } else if !has_key(reqs, id@) {
        match r {
            Err(ReqError::NoSuchRequirement { raw, suggestion }) => raw@ == id@ && suggestion.is_none(),
            _ => false,
        }
    } else {
        let kind = evidence_named(by@).unwrap();
        let o = lookup(reqs, id@).unwrap();
        let settled = o.status == Status::Verified || o.status == Status::Obsolete;
        let promoted = promote && (o.status == Status::Implemented || force) && !settled;
        if promote && !(o.status == Status::Implemented || force) && !settled {
            match r {
                Err(ReqError::NotPromotable { id: x, status }) => x@ == id@ && status == o.status,
                _ => false,
            }
        } else {
            let n = lookup(new.requirements.view(), id@).unwrap();
            let t = n.tests@.last();
            let commit = batch_commit(ctx);
            &&& r is Ok && r.unwrap().0 == kind && r.unwrap().1@ == commit && r.unwrap().2 == promoted
            &&& has_key(new.requirements.view(), id@)
            &&& replaced(reqs, new.requirements.view(), n)
            &&& n == Requirement { tests: n.tests, history: n.history, updated: ctx.now, status: n.status, ..o }
            &&& n.status == if promoted { Status::Verified } else { o.status }
            &&& n.tests@.len() == o.tests@.len() + 1 && n.tests@.drop_last() == o.tests@
            &&& t.at == ctx.now && t.actor == ctx.actor && t.commit@ == commit && t.outcome == TestOutcome::Pass
            &&& t.notes@ == cited_notes(views(cites@), notes@) && t.kind == kind
            &&& t.content_hash.is_none() && t.linked_files.is_none() && !t.sil_gate_exception && t.sil_at_verification.is_none()
            &&& n.history@.len() == o.history@.len() + if promoted { 2int } else { 1int }
            &&& n.history@.subrange(0, o.history@.len() as int) == o.history@
            &&& entry_records(n.history@[o.history@.len() as int], ctx,
                kind.name() + " evidence recorded via batch against commit "@ + crate::staleness::short_spec(commit), Some(notes@))
            &&& promoted ==> entry_records(n.history@.last(), ctx,
                "status promoted to verified ("@ + kind.name() + " evidence via batch)"@, None)
            &&& others_kept(old, new)
        }
    }
}

/// Record a passing composition or inspection evidence record from a
/// batch, against HEAD, optionally promoting to Verified: automatic only
/// from Implemented unless forced; already Verified or Obsolete stays.
pub fn op_batch_verify(project: &mut Project, id: String, by: String, notes: String, cites: Vec<String>, promote: bool,
    force: bool, ctx: &ActionContext) -> (r: Result<(EvidenceKind, String, bool), ReqError>)
    ensures
        verify_outcome(*old(project), *final(project), id, by, notes, cites, promote, force, *ctx, r),
{
    let kind = if str_eq(by.as_str(), "composition") {
        EvidenceKind::Composition
    } else if str_eq(by.as_str(), "inspection") {
        EvidenceKind::Inspection
    } else {
        return Err(unknown_value("by", by.as_str()));
    };
    if !project.requirements.contains_key(id.as_str()) {
        return Err(ReqError::NoSuchRequirement { raw: id, suggestion: None });
    }
    let status = project.requirements.get(id.as_str()).unwrap().status;
    let settled = matches!(status, Status::Verified | Status::Obsolete);
    let eligible = matches!(status, Status::Implemented);
    if promote && !(eligible || force) && !settled {
        return Err(ReqError::NotPromotable { id, status });
    }
    let promoted = promote && (eligible || force) && !settled;
    let commit = match &ctx.head {
        Some(h) => h.clone(),
        None => string_of(&chars_of("(no git)")),
    };
    let mut full_notes = if cites.len() == 0 {
        string_of(&chars_of(""))
    } else {
        let mut p = string_of(&chars_of("cites: "));
        let j = crate::text::join(&cites, ", ");
        p.append(j.as_str());
        p.append(" — ");
        p
    };
    full_notes.append(notes.as_str());
    proof {
        reveal_strlit("");
        if cites@.len() == 0 {
            assert(full_notes@ =~= notes@);
        }
    }
    let record = TestRecord {
        at: ctx.now.clone(),
        actor: ctx.actor.clone(),
        commit: commit.clone(),
        outcome: TestOutcome::Pass,
        notes: full_notes,
        kind,
        content_hash: None,
        linked_files: None,
        sil_gate_exception: false,
        sil_at_verification: None,
        external: None,
    };
    let mut action = string_of(&chars_of(kind.as_str()));
    action.append(" evidence recorded via batch against commit ");
    let sh = crate::staleness::short(commit.as_str());
    action.append(sh.as_str());
    let e1 = history(action, Some(notes), ctx);
    let mut r = project.requirements.remove(id.as_str()).unwrap();
    let ghost o = r;
    r.tests.push(record);
    r.history.push(e1);
    r.updated = ctx.now.clone();
    if promoted {
        r.status = Status::Verified;
        let mut a2 = string_of(&chars_of("status promoted to verified ("));
        a2.append(kind.as_str());
        a2.append(" evidence via batch)");
        let e2 = history(a2, None, ctx);
        r.history.push(e2);
    }
    assert(r.tests@.drop_last() =~= o.tests@);
    assert(r.history@.subrange(0, o.history@.len() as int) =~= o.history@);
    let ghost mid = project.requirements.view();
    project.requirements.insert(r);
    proof {
        assert(!has_key(mid, id@));
    }
    Ok((kind, commit, promoted))
}

// ---------------------------------------------------------------------------
// Applying a batch
// ---------------------------------------------------------------------------

/// What applying mutation `m` does to `old`, giving `new` and result `r`.
pub open spec fn apply_outcome(old: Project, new: Project, m: Mutation, batch_reason: Option<String>, ctx: ActionContext,
    r: Result<Applied, ReqError>) -> bool {
    match m {
        Mutation::Add { title, statement, rationale, req_kind, priority, acceptance, tags, parent, reason } =>
            add_outcome(old, new, title, statement, rationale, req_kind, priority, acceptance, tags, parent, reason,
                batch_reason, ctx, true, match r {
                    Ok(Applied::Add { id }) => Ok(id),
                    Ok(_) => Err(ReqError::NoSuchLink),
                    Err(e) => Err(e),
                }) && !(r matches Ok(a) && !(a is Add)),
        Mutation::Update { id, title, statement, rationale, acceptance, add_acceptance, req_kind, priority, status,
            add_tag, remove_tag, reason, force } =>
            update_outcome(old, new, id, title, statement, rationale, acceptance, add_acceptance, req_kind, priority, status,
                add_tag, remove_tag, reason, force, batch_reason, ctx, match r {
                    Ok(Applied::Update { id: _, changes }) => Ok(changes),
                    Ok(_) => Err(ReqError::NoSuchLink),
                    Err(e) => Err(e),
                }) && (r matches Ok(a) ==> (a matches Applied::Update { id: x, .. } && x == id)),
        Mutation::Delete { id, hard, reason } =>
            delete_outcome(old, new, id, hard, reason, batch_reason, ctx, true, match r {
                Ok(Applied::Delete { id: _, hard: h }) => Ok(h),
                Ok(_) => Err(ReqError::NoSuchLink),
                Err(e) => Err(e),
            }) && (r matches Ok(a) ==> (a matches Applied::Delete { id: x, .. } && x == id)),
        Mutation::Link { from, to, link_kind, remove, reason } =>
            link_outcome(old, new, from, to, link_kind, remove, reason, batch_reason, ctx, match r {
                Ok(Applied::Link { kind, .. }) => Ok(kind),
                Ok(_) => Err(ReqError::NoSuchLink),
                Err(e) => Err(e),
            }) && (r matches Ok(a) ==> (a matches Applied::Link { from: f, to: t, removed, .. } && f == from && t == to && removed == remove)),
        Mutation::Verify { id, by, notes, cites, promote, force } =>
            verify_outcome(old, new, id, by, notes, cites, promote, force, ctx, match r {
                Ok(Applied::Verify { id: _, kind, commit, promoted }) => Ok((kind, commit, promoted)),
                Ok(_) => Err(ReqError::NoSuchLink),
                Err(e) => Err(e),
            }) && (r matches Ok(a) ==> (a matches Applied::Verify { id: x, .. } && x == id)),
    }
}

/// Apply one mutation of a batch.
pub fn apply_one(project: &mut Project, m: Mutation, batch_reason: &Option<String>, ctx: &ActionContext)
    -> (r: Result<Applied, ReqError>)
    ensures
        apply_outcome(*old(project), *final(project), m, *batch_reason, *ctx, r),
{
    match m {
        Mutation::Add { title, statement, rationale, req_kind, priority, acceptance, tags, parent, reason } => {
            let id = op_add(project, title, statement, rationale, req_kind, priority, acceptance, tags, parent, reason,
                batch_reason, ctx, true)?;
            Ok(Applied::Add { id })
        },
        Mutation::Update { id, title, statement, rationale, acceptance, add_acceptance, req_kind, priority, status,
            add_tag, remove_tag, reason, force } => {
            let key = id.clone();
            let changes = op_update(project, id, title, statement, rationale, acceptance, add_acceptance, req_kind,
                priority, status, add_tag, remove_tag, reason, force, batch_reason, ctx)?;
            Ok(Applied::Update { id: key, changes })
        },
        Mutation::Delete { id, hard, reason } => {
            let key = id.clone();
            let h = op_delete(project, id, hard, reason, batch_reason, ctx, true)?;
            Ok(Applied::Delete { id: key, hard: h })
        },
        Mutation::Link { from, to, link_kind, remove, reason } => {
            let f = from.clone();
            let t = to.clone();
            let kind = op_batch_link(project, from, to, link_kind, remove, reason, batch_reason, ctx)?;
            Ok(Applied::Link { from: f, to: t, kind, removed: remove })
        },
        Mutation::Verify { id, by, notes, cites, promote, force } => {
            let key = id.clone();
            let (kind, commit, promoted) = op_batch_verify(project, id, by, notes, cites, promote, force, ctx)?;
            Ok(Applied::Verify { id: key, kind, commit, promoted })
        },
    }
}


/// Mutations `muts` applied in turn through the projects `states`, giving
/// `results`.
pub open spec fn batch_run(states: Seq<Project>, muts: Seq<Mutation>, results: Seq<Applied>, batch_reason: Option<String>,
    ctx: ActionContext) -> bool {
    &&& states.len() == muts.len() + 1
    &&& results.len() == muts.len()
    &&& forall|i: int| 0 <= i < muts.len() ==> apply_outcome(states[i], states[i + 1], #[trigger] muts[i], batch_reason, ctx,
        Ok(results[i]))
}

/// A batch stopped by a failing mutation: its position, its error, and what
/// was applied before it (the project itself is not kept).
pub struct BatchFailure {
    pub index: usize,
    pub error: ReqError,
    pub applied: Vec<Applied>,
}

impl BatchFailure {
    /// What a rolled-back batch is reported with: the position of the
    /// failing mutation (counting from 0) and its error.
    pub open spec fn message_spec(self) -> Seq<char> {
        "batch rolled back at mutation #"@ + dec_seq(self.index as nat) + ": "@ + message_of(self.error)
    }

    /// The text a rolled-back batch is reported with.
    pub fn message(&self) -> (r: String)
        ensures
            r@ == self.message_spec(),
    {
        let n = dec_string(self.index as u64);
        let e = self.error.message();
        let mut out = String::new();
        out.append("batch rolled back at mutation #");
        out.append(n.as_str());
        out.append(": ");
        out.append(e.as_str());
        assert(out@ =~= self.message_spec());
        out
    }
}

/// A batch whose mutations all applied: through some sequence of projects
/// from `start`, ending in `p` (stamped when anything was applied).
pub open spec fn batch_done(start: Project, muts: Seq<Mutation>, batch_reason: Option<String>, ctx: ActionContext,
    p: Project, applied: Seq<Applied>) -> bool {
    exists|states: Seq<Project>| #![trigger batch_run(states, muts, applied, batch_reason, ctx)]
        batch_run(states, muts, applied, batch_reason, ctx) && states[0] == start
        && p == (if applied.len() == 0 { start } else { Project { updated: ctx.now, ..states.last() } })
}

/// A batch stopped at mutation `f.index`, after applying those before it.
pub open spec fn batch_failed(start: Project, muts: Seq<Mutation>, batch_reason: Option<String>, ctx: ActionContext,
    f: BatchFailure) -> bool {
    &&& f.index < muts.len()
    &&& f.applied@.len() == f.index
    &&& exists|states: Seq<Project>| #![trigger batch_run(states, muts.take(f.index as int), f.applied@, batch_reason, ctx)]
        batch_run(states, muts.take(f.index as int), f.applied@, batch_reason, ctx)
        && states[0] == start
        && apply_outcome(states.last(), states.last(), muts[f.index as int], batch_reason, ctx, Err(f.error))
}

/// Apply a batch in order. When every mutation succeeds, the project is
/// returned with the results (stamped with the time when anything was
/// applied); when one fails, the failure is returned and the changes are
/// dropped, so a batch applies entirely or not at all.
pub fn apply_batch(project: Project, doc: BatchDoc, ctx: &ActionContext) -> (r: Result<(Project, Vec<Applied>), BatchFailure>)
    ensures
        match r {
            Ok(x) => batch_done(project, doc.mutations@, doc.reason, *ctx, x.0, x.1@),
            Err(f) => batch_failed(project, doc.mutations@, doc.reason, *ctx, f),
        },
{
    let BatchDoc { reason, mutations } = doc;
    let ghost all = mutations@;
    let total = mutations.len();
    let mut working = project;
    let mut muts = mutations;
    let mut applied: Vec<Applied> = Vec::new();
    let ghost mut states: Seq<Project> = seq![working];
    let mut i: usize = 0;
    while muts.len() > 0
        invariant
            muts@ == all.skip(i as int),
            i <= all.len(),
            total == all.len(),
            all == doc.mutations@,
            reason == doc.reason,
            states[0] == project,
            states.last() == working,
            batch_run(states, all.take(i as int), applied@, reason, *ctx),
        decreases muts@.len(),
    {
        let m = muts.remove(0);
        assert(m == all[i as int]);
        let ghost before = working;
        match apply_one(&mut working, m, &reason, ctx) {
            Ok(a) => {
                applied.push(a);
                proof {
                    let ns = states.push(working);
                    assert(all.take(i + 1) =~= all.take(i as int).push(all[i as int]));
                    assert forall|k: int| 0 <= k < i + 1 implies apply_outcome(ns[k], ns[k + 1], #[trigger] all.take(i + 1)[k],
                        reason, *ctx, Ok(applied@[k])) by {
                        if k < i {
                            assert(ns[k] == states[k] && ns[k + 1] == states[k + 1]);
                            assert(all.take(i + 1)[k] == all.take(i as int)[k]);
                        }
                    }
                    states = ns;
                }
                assert(muts@ =~= all.skip(i + 1));
                i = i + 1;
            },
            Err(e) => {
                assert(all.take(i as int).len() == i);
                assert(working == before);
                assert(batch_run(states, doc.mutations@.take(i as int), applied@, doc.reason, *ctx));
                assert(apply_outcome(states.last(), states.last(), doc.mutations@[i as int], doc.reason, *ctx, Err(e)));
                let f = BatchFailure { index: i, error: e, applied };
                assert(batch_failed(project, doc.mutations@, doc.reason, *ctx, f));
                return Err(f);
            },
        }
    }
    assert(all.take(i as int) =~= all);
    assert(batch_run(states, doc.mutations@, applied@, doc.reason, *ctx));
    if applied.len() > 0 {
        let ghost last = working;
        working.updated = ctx.now.clone();
        assert(working == Project { updated: ctx.now, ..last });
    } else {
        assert(states.len() == 1);
    }
    assert(batch_done(project, doc.mutations@, doc.reason, *ctx, working, applied@));
    Ok((working, applied))
}

} // verus!
