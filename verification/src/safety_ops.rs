//! Changes to the safety chain: adding, assessing and updating hazards,
//! safety functions and safety requirements, linking them, and recording
//! evidence for safety requirements behind the SIL-rigour gate.
use vstd::prelude::*;

use crate::errors::ReqError;
use crate::idmap::{has_key, lookup, replaced, IdMap, Keyed};
use crate::ids::{allocate_prefixed, next_prefixed, norm_id_spec};
use crate::model::{
    entry_records, history, ActionContext, Avoidance, Consequence, EvidenceKind, Frequency, Hazard, HazardStatus,
    HistoryEntry, Link, LinkKind, Priority, Probability, Project, SafetyFunction, SafetyFunctionStatus,
    SafetyRequirement, Sil, Status, TestOutcome, TestRecord,
};
use crate::safety::{mitigates, mitigates_spec, realizes, realizes_spec, resolve_haz, resolve_sf, resolve_sr};
use crate::text::{chars_of, str_eq, string_of, views};

verus! {

// ---------------------------------------------------------------------------
// Tags
// ---------------------------------------------------------------------------

/// `tags` with each of `add` appended when not already present.
pub open spec fn add_missing(tags: Seq<Seq<char>>, add: Seq<Seq<char>>) -> Seq<Seq<char>>
    decreases add.len(),
{
    if add.len() == 0 {
        tags
    } else {
        let t = add_missing(tags, add.drop_last());
        if t.contains(add.last()) { t } else { t.push(add.last()) }
    }
}

/// `s` without any entry listed in `rem`, in order.
pub open spec fn keep_not_in(s: Seq<Seq<char>>, rem: Seq<Seq<char>>) -> Seq<Seq<char>>
    decreases s.len(),
{
    if s.len() == 0 {
        s
    } else {
        let t = keep_not_in(s.drop_last(), rem);
        if rem.contains(s.last()) { t } else { t.push(s.last()) }
    }
}

/// The tags after adding `add` (once each) and dropping every tag in `rem`.
pub open spec fn tags_after(tags: Seq<Seq<char>>, add: Seq<Seq<char>>, rem: Seq<Seq<char>>) -> Seq<Seq<char>> {
    keep_not_in(add_missing(tags, add), rem)
}

/// Add `add` (once each) to the tags and drop every tag in `rem`.
pub fn merge_tags(tags: &mut Vec<String>, add: &Vec<String>, rem: &Vec<String>)
    ensures
        views(final(tags)@) == tags_after(views(old(tags)@), views(add@), views(rem@)),
{
    let ghost t0 = views(tags@);
    let mut i: usize = 0;
    while i < add.len()
        invariant
            i <= add@.len(),
            views(tags@) == add_missing(t0, views(add@).take(i as int)),
        decreases add@.len() - i,
    {
        assert(views(add@).take(i + 1).drop_last() =~= views(add@).take(i as int));
        assert(views(add@).take(i + 1).last() == add@[i as int]@);
        if !crate::text::contains_str(tags, add[i].as_str()) {
            let ghost b = views(tags@);
            tags.push(add[i].clone());
            assert(views(tags@) =~= b.push(add@[i as int]@));
        }
        i = i + 1;
    }
    assert(views(add@).take(add@.len() as int) =~= views(add@));
    let ghost t1 = views(tags@);
    let mut out: Vec<String> = Vec::new();
    let mut k: usize = 0;
    while k < tags.len()
        invariant
            k <= tags@.len(),
            t1 == views(tags@),
            views(out@) == keep_not_in(t1.take(k as int), views(rem@)),
        decreases tags@.len() - k,
    {
        assert(t1.take(k + 1).drop_last() =~= t1.take(k as int));
        assert(t1.take(k + 1).last() == tags@[k as int]@);
        if !crate::text::contains_str(rem, tags[k].as_str()) {
            let ghost b = views(out@);
            out.push(tags[k].clone());
            assert(views(out@) =~= b.push(tags@[k as int]@));
        }
        k = k + 1;
    }
    assert(t1.take(tags@.len() as int) =~= t1);
    *tags = out;
}

/// The view of an optional string.
pub open spec fn opt_seq(o: Option<String>) -> Option<Seq<char>> {
    match o {
        Some(s) => Some(s@),
        None => None,
    }
}

/// The project stamped at `now`, with only the hazards changed.
pub open spec fn hazards_changed(old: Project, new: Project, now: String) -> bool {
    &&& new.name == old.name && new.requirements == old.requirements
    &&& new.safety_functions == old.safety_functions && new.safety_requirements == old.safety_requirements
    &&& new.calibration == old.calibration && new.calibration_label == old.calibration_label
    &&& new.updated == now
}

// ---------------------------------------------------------------------------
// Hazards
// ---------------------------------------------------------------------------

/// Record a new hazard: identified, or assessed when all four risk
/// parameters are given; one history entry; the next free `HAZ` id.
pub fn op_hazard_add(project: &mut Project, title: String, description: String, context: String, harm: String,
    consequence: Option<Consequence>, frequency: Option<Frequency>, avoidance: Option<Avoidance>,
    probability: Option<Probability>, tags: Vec<String>, ctx: &ActionContext) -> (id: String)
    ensures
        id@ == next_prefixed(old(project).hazards.view(), "HAZ"@),
        hazards_changed(*old(project), *final(project), ctx.now),
        forall|x: Hazard| #[trigger] final(project).hazards.view().contains(x)
            <==> (x == lookup(final(project).hazards.view(), id@).unwrap() || (old(project).hazards.view().contains(x) && x.key() != id@)),
        has_key(final(project).hazards.view(), id@),
        ({
            let h = lookup(final(project).hazards.view(), id@).unwrap();
            &&& h.id@ == id@ && h.title == title && h.description == description && h.operating_context == context
            &&& h.harm == harm && h.consequence == consequence && h.frequency == frequency && h.avoidance == avoidance
            &&& h.probability == probability && h.tags == tags && h.links@.len() == 0
            &&& h.status == if consequence.is_some() && frequency.is_some() && avoidance.is_some() && probability.is_some() {
                HazardStatus::Assessed
            } else {
                HazardStatus::Identified
            }
            &&& h.created == ctx.now && h.updated == ctx.now
            &&& h.history@.len() == 1 && entry_records(h.history@[0], *ctx, "created"@, None)
        }),
{
    let full = consequence.is_some() && frequency.is_some() && avoidance.is_some() && probability.is_some();
    let status = if full { HazardStatus::Assessed } else { HazardStatus::Identified };
    let id = allocate_prefixed(&project.hazards, "HAZ");
    let e = history(string_of(&chars_of("created")), None, ctx);
    let h = Hazard {
        id: id.clone(),
        title,
        description,
        operating_context: context,
        harm,
        consequence,
        frequency,
        avoidance,
        probability,
        status,
        tags,
        links: Vec::new(),
        history: vec![e],
        created: ctx.now.clone(),
        updated: ctx.now.clone(),
    };
    project.hazards.insert(h);
    project.updated = ctx.now.clone();
    id
}

/// The hazard `id` replaced by one that differs from the old one as `rel`
/// says; the rest of the project as before, stamped at `now`.
pub open spec fn hazard_step(old: Project, new: Project, id: Seq<char>, now: String) -> bool {
    &&& has_key(new.hazards.view(), id)
    &&& replaced(old.hazards.view(), new.hazards.view(), lookup(new.hazards.view(), id).unwrap())
    &&& hazards_changed(old, new, now)
}

/// Set the four risk parameters of a hazard: an identified hazard becomes
/// assessed. Its required level follows from the risk graph.
pub fn op_hazard_assess(project: &mut Project, raw: &str, c: Consequence, f: Frequency, a: Avoidance, w: Probability,
    reason: Option<String>, ctx: &ActionContext) -> (r: Result<String, ReqError>)
    ensures
        !has_key(old(project).hazards.view(), norm_id_spec("HAZ"@, raw@)) ==> r is Err && *final(project) == *old(project),
        has_key(old(project).hazards.view(), norm_id_spec("HAZ"@, raw@)) ==> {
            let id = norm_id_spec("HAZ"@, raw@);
            let o = lookup(old(project).hazards.view(), id).unwrap();
            let n = lookup(final(project).hazards.view(), id).unwrap();
            &&& r is Ok && r.unwrap()@ == id
            &&& hazard_step(*old(project), *final(project), id, ctx.now)
            &&& n == Hazard {
                consequence: Some(c), frequency: Some(f), avoidance: Some(a), probability: Some(w),
                status: if o.status == HazardStatus::Identified { HazardStatus::Assessed } else { o.status },
                history: n.history, updated: ctx.now, ..o
            }
            &&& n.history@.len() == o.history@.len() + 1 && n.history@.drop_last() == o.history@
            &&& entry_records(n.history@.last(), *ctx, "assessed"@, opt_seq(reason))
        },
{
    let id = resolve_haz(project, raw)?;
    let e = history(string_of(&chars_of("assessed")), reason, ctx);
    let mut h = project.hazards.remove(id.as_str()).unwrap();
    let ghost o = h;
    h.consequence = Some(c);
    h.frequency = Some(f);
    h.avoidance = Some(a);
    h.probability = Some(w);
    if matches!(h.status, HazardStatus::Identified) {
        h.status = HazardStatus::Assessed;
    }
    h.updated = ctx.now.clone();
    h.history.push(e);
    assert(h.history@.drop_last() =~= o.history@);
    let ghost mid = project.hazards.view();
    project.hazards.insert(h);
    proof {
        assert(!has_key(mid, id@));
    }
    project.updated = ctx.now.clone();
    Ok(id)
}

/// Update the descriptive fields, status and tags of a hazard.
pub fn op_hazard_update(project: &mut Project, raw: &str, title: Option<String>, description: Option<String>,
    context: Option<String>, harm: Option<String>, status: Option<HazardStatus>, add_tag: &Vec<String>,
    remove_tag: &Vec<String>, reason: Option<String>, ctx: &ActionContext) -> (r: Result<String, ReqError>)
    ensures
        !has_key(old(project).hazards.view(), norm_id_spec("HAZ"@, raw@)) ==> r is Err && *final(project) == *old(project),
        has_key(old(project).hazards.view(), norm_id_spec("HAZ"@, raw@)) ==> {
            let id = norm_id_spec("HAZ"@, raw@);
            let o = lookup(old(project).hazards.view(), id).unwrap();
            let n = lookup(final(project).hazards.view(), id).unwrap();
            &&& r is Ok && r.unwrap()@ == id
            &&& hazard_step(*old(project), *final(project), id, ctx.now)
            &&& n == Hazard {
                title: match title { Some(t) => t, None => o.title },
                description: match description { Some(t) => t, None => o.description },
                operating_context: match context { Some(t) => t, None => o.operating_context },
                harm: match harm { Some(t) => t, None => o.harm },
                status: match status { Some(s) => s, None => o.status },
                tags: n.tags, history: n.history, updated: ctx.now, ..o
            }
            &&& views(n.tags@) == tags_after(views(o.tags@), views(add_tag@), views(remove_tag@))
            &&& n.history@.len() == o.history@.len() + 1 && n.history@.drop_last() == o.history@
            &&& entry_records(n.history@.last(), *ctx, "updated"@, opt_seq(reason))
        },
{
    let id = resolve_haz(project, raw)?;
    let e = history(string_of(&chars_of("updated")), reason, ctx);
    let mut h = project.hazards.remove(id.as_str()).unwrap();
    let ghost o = h;
    match title { Some(t) => h.title = t, None => {} }
    match description { Some(t) => h.description = t, None => {} }
    match context { Some(t) => h.operating_context = t, None => {} }
    match harm { Some(t) => h.harm = t, None => {} }
    match status { Some(s) => h.status = s, None => {} }
    merge_tags(&mut h.tags, add_tag, remove_tag);
    h.updated = ctx.now.clone();
    h.history.push(e);
    assert(h.history@.drop_last() =~= o.history@);
    let ghost mid = project.hazards.view();
    project.hazards.insert(h);
    proof {
        assert(!has_key(mid, id@));
    }
    project.updated = ctx.now.clone();
    Ok(id)
}


// ---------------------------------------------------------------------------
// Safety functions
// ---------------------------------------------------------------------------

/// A hazard that gains its first mitigation advances to mitigated.
pub open spec fn markable(h: Hazard) -> bool {
    h.status == HazardStatus::Identified || h.status == HazardStatus::Assessed
}

/// `n` is hazard `o` marked as mitigated by `sf`.
pub open spec fn marked_mitigated(o: Hazard, n: Hazard, sf: Seq<char>, ctx: ActionContext) -> bool {
    &&& n == Hazard { status: HazardStatus::Mitigated, history: n.history, updated: ctx.now, ..o }
    &&& n.history@.len() == o.history@.len() + 1 && n.history@.drop_last() == o.history@
    &&& entry_records(n.history@.last(), ctx, "mitigated by "@ + sf, None)
}

/// The hazards after those named in `targets` gained the mitigation `sf`.
pub open spec fn hazards_marked(old: Seq<Hazard>, new: Seq<Hazard>, targets: Seq<Seq<char>>, sf: Seq<char>, ctx: ActionContext) -> bool {
    &&& new.len() == old.len()
    &&& forall|k: Seq<char>| #[trigger] has_key(new, k) == has_key(old, k)
    &&& forall|k: Seq<char>| targets.contains(k) && has_key(old, k) && markable(lookup(old, k).unwrap())
        ==> marked_mitigated(lookup(old, k).unwrap(), #[trigger] lookup(new, k).unwrap(), sf, ctx)
    &&& forall|k: Seq<char>| !(targets.contains(k) && has_key(old, k) && markable(lookup(old, k).unwrap()))
        ==> #[trigger] lookup(new, k) == lookup(old, k)
}

fn mark_one(hazards: &mut IdMap<Hazard>, haz: &str, sf: &str, ctx: &ActionContext)
    ensures
        final(hazards).view().len() == old(hazards).view().len(),
        forall|k: Seq<char>| #[trigger] has_key(final(hazards).view(), k) == has_key(old(hazards).view(), k),
        has_key(old(hazards).view(), haz@) && markable(lookup(old(hazards).view(), haz@).unwrap()) ==>
            marked_mitigated(lookup(old(hazards).view(), haz@).unwrap(), lookup(final(hazards).view(), haz@).unwrap(), sf@, *ctx),
        !(has_key(old(hazards).view(), haz@) && markable(lookup(old(hazards).view(), haz@).unwrap())) ==>
            final(hazards).view() == old(hazards).view(),
        forall|k: Seq<char>| k != haz@ ==> #[trigger] lookup(final(hazards).view(), k) == lookup(old(hazards).view(), k),
{
    let ghost before = hazards.view();
    let _ = hazards.len();
    let mark = match hazards.get(haz) {
        Some(h) => matches!(h.status, HazardStatus::Identified | HazardStatus::Assessed),
        None => false,
    };
    if !mark {
        return;
    }
    let mut a = string_of(&chars_of("mitigated by "));
    a.append(sf);
    let e = history(a, None, ctx);
    let mut h = hazards.remove(haz).unwrap();
    let ghost o = h;
    h.status = HazardStatus::Mitigated;
    h.updated = ctx.now.clone();
    h.history.push(e);
    assert(h.history@.drop_last() =~= o.history@);
    let ghost mid = hazards.view();
    hazards.insert(h);
    let _ = hazards.len();
    proof {
        assert(!has_key(mid, haz@));
        let n = lookup(hazards.view(), haz@).unwrap();
        assert forall|k: Seq<char>| k != haz@ implies #[trigger] lookup(hazards.view(), k) == lookup(before, k) by {
            crate::idmap::lemma_replaced_lookup(before, hazards.view(), n, k);
        }
        assert forall|k: Seq<char>| #[trigger] has_key(hazards.view(), k) == has_key(before, k) by {
            if k != haz@ {
                crate::idmap::lemma_replaced_lookup(before, hazards.view(), n, k);
            }
        }
    }
}

/// Mark every hazard named in `targets` as mitigated by `sf`, where it is
/// the hazard's first mitigation.
fn mark_all(hazards: &mut IdMap<Hazard>, targets: &Vec<Link>, sf: &str, ctx: &ActionContext)
    ensures
        hazards_marked(old(hazards).view(), final(hazards).view(),
            targets@.map_values(|l: Link| l.target@), sf@, *ctx),
{
    let ghost o = hazards.view();
    let ghost tv = targets@.map_values(|l: Link| l.target@);
    let mut i: usize = 0;
    while i < targets.len()
        invariant
            i <= targets@.len(),
            tv == targets@.map_values(|l: Link| l.target@),
            hazards_marked(o, hazards.view(), tv.take(i as int), sf@, *ctx),
        decreases targets@.len() - i,
    {
        let ghost cur = hazards.view();
        let ghost t = tv[i as int];
        assert(tv.take(i + 1) =~= tv.take(i as int).push(t));
        assert(targets@[i as int].target@ == t);
        mark_one(hazards, targets[i].target.as_str(), sf, ctx);
        proof {
            let done = tv.take(i + 1);
            assert forall|y: Seq<char>| #[trigger] done.contains(y) == (tv.take(i as int).contains(y) || y == t) by {
                if done.contains(y) {
                    let q = choose|q: int| 0 <= q < done.len() && done[q] == y;
                    if q < i {
                        assert(tv.take(i as int)[q] == y);
                    }
                }
                if tv.take(i as int).contains(y) {
                    let q = choose|q: int| 0 <= q < i && tv.take(i as int)[q] == y;
                    assert(done[q] == y);
                }
                if y == t {
                    assert(done[i as int] == y);
                }
            }
            if tv.take(i as int).contains(t) && has_key(o, t) && markable(lookup(o, t).unwrap()) {
                assert(!markable(lookup(cur, t).unwrap()));
            }
        }
        i = i + 1;
    }
    assert(tv.take(targets@.len() as int) =~= tv);
}

/// The safety-function counterpart of `hazards_changed`: only the safety
/// functions and hazards changed, stamped at `now`.
pub open spec fn sfs_changed(old: Project, new: Project, now: String) -> bool {
    &&& new.name == old.name && new.requirements == old.requirements
    &&& new.safety_requirements == old.safety_requirements
    &&& new.calibration == old.calibration && new.calibration_label == old.calibration_label
    &&& new.updated == now
}

/// The mitigates-links for the hazards typed in `raws`, each resolved.
pub open spec fn resolves_all(p: Project, raws: Seq<String>) -> bool {
    forall|i: int| 0 <= i < raws.len() ==> has_key(p.hazards.view(), norm_id_spec("HAZ"@, #[trigger] raws[i]@))
}

fn mitigation_links(project: &Project, raws: &Vec<String>) -> (r: Result<Vec<Link>, ReqError>)
    ensures
        r is Ok == resolves_all(*project, raws@),
        r matches Ok(ls) ==> ls@.len() == raws@.len() && forall|i: int| 0 <= i < ls@.len() ==>
            (#[trigger] ls@[i]).kind == LinkKind::Mitigates && ls@[i].target@ == norm_id_spec("HAZ"@, raws@[i]@),
{
    let mut out: Vec<Link> = Vec::new();
    let mut i: usize = 0;
    while i < raws.len()
        invariant
            i <= raws@.len(),
            out@.len() == i,
            forall|q: int| 0 <= q < i ==> has_key(project.hazards.view(), norm_id_spec("HAZ"@, #[trigger] raws@[q]@)),
            forall|q: int| 0 <= q < i ==> (#[trigger] out@[q]).kind == LinkKind::Mitigates && out@[q].target@ == norm_id_spec("HAZ"@, raws@[q]@),
        decreases raws@.len() - i,
    {
        let hid = resolve_haz(project, raws[i].as_str())?;
        out.push(Link { kind: LinkKind::Mitigates, target: hid });
        i = i + 1;
    }
    Ok(out)
}

/// Add a safety function: allocated when it mitigates hazards (each must
/// exist), else proposed; each hazard that thereby gains its first
/// mitigation advances to mitigated. The next free `SF` id.
pub fn op_sf_add(project: &mut Project, title: String, description: String, safe_state: String, mitigated: &Vec<String>,
    tags: Vec<String>, ctx: &ActionContext) -> (r: Result<String, ReqError>)
    ensures
        !resolves_all(*old(project), mitigated@) ==> r is Err && *final(project) == *old(project),
        resolves_all(*old(project), mitigated@) ==> {
            let id = next_prefixed(old(project).safety_functions.view(), "SF"@);
            let sf = lookup(final(project).safety_functions.view(), id).unwrap();
            &&& r is Ok && r.unwrap()@ == id
            &&& sfs_changed(*old(project), *final(project), ctx.now)
            &&& has_key(final(project).safety_functions.view(), id)
            &&& forall|x: SafetyFunction| #[trigger] final(project).safety_functions.view().contains(x)
                <==> (x == sf || (old(project).safety_functions.view().contains(x) && x.key() != id))
            &&& sf.id@ == id && sf.title == title && sf.description == description && sf.safe_state == safe_state
            &&& sf.tags == tags
            &&& sf.links@.len() == mitigated@.len()
            &&& forall|i: int| 0 <= i < sf.links@.len() ==> (#[trigger] sf.links@[i]).kind == LinkKind::Mitigates
                && sf.links@[i].target@ == norm_id_spec("HAZ"@, mitigated@[i]@)
            &&& sf.status == if mitigated@.len() == 0 { SafetyFunctionStatus::Proposed } else { SafetyFunctionStatus::Allocated }
            &&& sf.created == ctx.now && sf.updated == ctx.now && sf.validation is None
            &&& sf.history@.len() == 1 && entry_records(sf.history@[0], *ctx, "created"@, None)
            &&& hazards_marked(old(project).hazards.view(), final(project).hazards.view(),
                sf.links@.map_values(|l: Link| l.target@), id, *ctx)
        },
{
    let links = mitigation_links(project, mitigated)?;
    let status = if links.len() == 0 { SafetyFunctionStatus::Proposed } else { SafetyFunctionStatus::Allocated };
    let id = allocate_prefixed(&project.safety_functions, "SF");
    let e = history(string_of(&chars_of("created")), None, ctx);
    let kept = crate::links::clone_links(&links);
    let sf = SafetyFunction {
        id: id.clone(),
        title,
        description,
        safe_state,
        status,
        tags,
        links,
        validation: None,
        history: vec![e],
        created: ctx.now.clone(),
        updated: ctx.now.clone(),
    };
    project.safety_functions.insert(sf);
    mark_all(&mut project.hazards, &kept, id.as_str(), ctx);
    project.updated = ctx.now.clone();
    Ok(id)
}

/// Update the descriptive fields, status and tags of a safety function.
pub fn op_sf_update(project: &mut Project, raw: &str, title: Option<String>, description: Option<String>,
    safe_state: Option<String>, status: Option<SafetyFunctionStatus>, add_tag: &Vec<String>, remove_tag: &Vec<String>,
    reason: Option<String>, ctx: &ActionContext) -> (r: Result<String, ReqError>)
    ensures
        !has_key(old(project).safety_functions.view(), norm_id_spec("SF"@, raw@)) ==> r is Err && *final(project) == *old(project),
        has_key(old(project).safety_functions.view(), norm_id_spec("SF"@, raw@)) ==> {
            let id = norm_id_spec("SF"@, raw@);
            let o = lookup(old(project).safety_functions.view(), id).unwrap();
            let n = lookup(final(project).safety_functions.view(), id).unwrap();
            &&& r is Ok && r.unwrap()@ == id
            &&& has_key(final(project).safety_functions.view(), id)
            &&& replaced(old(project).safety_functions.view(), final(project).safety_functions.view(), n)
            &&& sfs_changed(*old(project), *final(project), ctx.now)
            &&& final(project).hazards == old(project).hazards
            &&& n == SafetyFunction {
                title: match title { Some(t) => t, None => o.title },
                description: match description { Some(t) => t, None => o.description },
                safe_state: match safe_state { Some(t) => t, None => o.safe_state },
                status: match status { Some(s) => s, None => o.status },
                tags: n.tags, history: n.history, updated: ctx.now, ..o
            }
            &&& views(n.tags@) == tags_after(views(o.tags@), views(add_tag@), views(remove_tag@))
            &&& n.history@.len() == o.history@.len() + 1 && n.history@.drop_last() == o.history@
            &&& entry_records(n.history@.last(), *ctx, "updated"@, opt_seq(reason))
        },
{
    let id = resolve_sf(project, raw)?;
    let e = history(string_of(&chars_of("updated")), reason, ctx);
    let mut sf = project.safety_functions.remove(id.as_str()).unwrap();
    let ghost o = sf;
    match title { Some(t) => sf.title = t, None => {} }
    match description { Some(t) => sf.description = t, None => {} }
    match safe_state { Some(t) => sf.safe_state = t, None => {} }
    match status { Some(s) => sf.status = s, None => {} }
    merge_tags(&mut sf.tags, add_tag, remove_tag);
    sf.updated = ctx.now.clone();
    sf.history.push(e);
    assert(sf.history@.drop_last() =~= o.history@);
    let ghost mid = project.safety_functions.view();
    project.safety_functions.insert(sf);
    proof {
        assert(!has_key(mid, id@));
    }
    project.updated = ctx.now.clone();
    Ok(id)
}

/// Link a safety function to a hazard it mitigates (or with `remove`,
/// unlink it). A new mitigation allocates a proposed function and advances
/// a hazard without one to mitigated; a duplicate is refused.
pub fn op_sf_mitigate(project: &mut Project, sf_raw: &str, haz_raw: &str, remove: bool, ctx: &ActionContext)
    -> (r: Result<(), ReqError>)
    ensures
        r is Err ==> *final(project) == *old(project),
        ({
            let sid = norm_id_spec("SF"@, sf_raw@);
            let hid = norm_id_spec("HAZ"@, haz_raw@);
            if !has_key(old(project).safety_functions.view(), sid) || !has_key(old(project).hazards.view(), hid) {
                r is Err
            } else {
                let o = lookup(old(project).safety_functions.view(), sid).unwrap();
                let n = lookup(final(project).safety_functions.view(), sid).unwrap();
                if !remove && mitigates_spec(o, hid) {
                    match r {
                        Err(ReqError::AlreadyMitigates { from, to }) => from@ == sid && to@ == hid,
                        _ => false,
                    }
                } else {
                    &&& r is Ok
                    &&& has_key(final(project).safety_functions.view(), sid)
                    &&& replaced(old(project).safety_functions.view(), final(project).safety_functions.view(), n)
                    &&& sfs_changed(*old(project), *final(project), ctx.now)
                    &&& n == SafetyFunction {
                        links: n.links, history: n.history, updated: ctx.now,
                        status: if !remove && o.status == SafetyFunctionStatus::Proposed { SafetyFunctionStatus::Allocated } else { o.status },
                        ..o
                    }
                    &&& n.links@ == if remove {
                        crate::links::without_link(o.links@, LinkKind::Mitigates, hid)
                    } else {
                        o.links@.push(n.links@.last())
                    }
                    &&& !remove ==> n.links@.last().kind == LinkKind::Mitigates && n.links@.last().target@ == hid
                    &&& n.history@.len() == o.history@.len() + 1 && n.history@.drop_last() == o.history@
                    &&& entry_records(n.history@.last(), *ctx, (if remove { "unlinked mitigates "@ } else { "mitigates "@ }) + hid, None)
                    &&& if remove {
                        final(project).hazards == old(project).hazards
                    } else {
                        hazards_marked(old(project).hazards.view(), final(project).hazards.view(), seq![hid], sid, *ctx)
                    }
                }
            }
        }),
{
    let sf_id = resolve_sf(project, sf_raw)?;
    let haz_id = resolve_haz(project, haz_raw)?;
    let cur = project.safety_functions.get(sf_id.as_str()).unwrap();
    if !remove && mitigates(cur, haz_id.as_str()) {
        return Err(ReqError::AlreadyMitigates { from: sf_id, to: haz_id });
    }
    let links = if remove {
        crate::links::drop_link(&cur.links, LinkKind::Mitigates, haz_id.as_str())
    } else {
        let mut ls = crate::links::clone_links(&cur.links);
        ls.push(Link { kind: LinkKind::Mitigates, target: haz_id.clone() });
        ls
    };
    let mut a = string_of(&chars_of(if remove { "unlinked mitigates " } else { "mitigates " }));
    a.append(haz_id.as_str());
    let e = history(a, None, ctx);
    let mut sf = project.safety_functions.remove(sf_id.as_str()).unwrap();
    let ghost o = sf;
    sf.links = links;
    if !remove && matches!(sf.status, SafetyFunctionStatus::Proposed) {
        sf.status = SafetyFunctionStatus::Allocated;
    }
    sf.updated = ctx.now.clone();
    sf.history.push(e);
    assert(sf.history@.drop_last() =~= o.history@);
    let ghost mid = project.safety_functions.view();
    project.safety_functions.insert(sf);
    proof {
        assert(!has_key(mid, sf_id@));
    }
    if !remove {
        let one = vec![Link { kind: LinkKind::Mitigates, target: haz_id.clone() }];
        assert(one@.map_values(|l: Link| l.target@) =~= seq![haz_id@]);
        mark_all(&mut project.hazards, &one, sf_id.as_str(), ctx);
    }
    project.updated = ctx.now.clone();
    Ok(())
}


// ---------------------------------------------------------------------------
// Safety requirements
// ---------------------------------------------------------------------------

/// Only the safety requirements changed, stamped at `now`.
pub open spec fn srs_changed(old: Project, new: Project, now: String) -> bool {
    &&& new.name == old.name && new.requirements == old.requirements
    &&& new.hazards == old.hazards && new.safety_functions == old.safety_functions
    &&& new.calibration == old.calibration && new.calibration_label == old.calibration_label
    &&& new.updated == now
}

/// Every typed safety-function id names an existing one.
pub open spec fn sfs_resolve(p: Project, raws: Seq<String>) -> bool {
    forall|i: int| 0 <= i < raws.len() ==> has_key(p.safety_functions.view(), norm_id_spec("SF"@, #[trigger] raws[i]@))
}

fn realization_links(project: &Project, raws: &Vec<String>) -> (r: Result<Vec<Link>, ReqError>)
    ensures
        r is Ok == sfs_resolve(*project, raws@),
        r matches Ok(ls) ==> ls@.len() == raws@.len() && forall|i: int| 0 <= i < ls@.len() ==>
            (#[trigger] ls@[i]).kind == LinkKind::Realizes && ls@[i].target@ == norm_id_spec("SF"@, raws@[i]@),
{
    let mut out: Vec<Link> = Vec::new();
    let mut i: usize = 0;
    while i < raws.len()
        invariant
            i <= raws@.len(),
            out@.len() == i,
            forall|q: int| 0 <= q < i ==> has_key(project.safety_functions.view(), norm_id_spec("SF"@, #[trigger] raws@[q]@)),
            forall|q: int| 0 <= q < i ==> (#[trigger] out@[q]).kind == LinkKind::Realizes && out@[q].target@ == norm_id_spec("SF"@, raws@[q]@),
        decreases raws@.len() - i,
    {
        let sid = resolve_sf(project, raws[i].as_str())?;
        out.push(Link { kind: LinkKind::Realizes, target: sid });
        i = i + 1;
    }
    Ok(out)
}

/// Add a safety requirement, in draft, realizing the named safety
/// functions (each must exist). The next free `SR` id.
pub fn op_sreq_add(project: &mut Project, title: String, statement: String, rationale: String, acceptance: Vec<String>,
    priority: Priority, realized: &Vec<String>, tags: Vec<String>, ctx: &ActionContext) -> (r: Result<String, ReqError>)
    ensures
        !sfs_resolve(*old(project), realized@) ==> r is Err && *final(project) == *old(project),
        sfs_resolve(*old(project), realized@) ==> {
            let id = next_prefixed(old(project).safety_requirements.view(), "SR"@);
            let sr = lookup(final(project).safety_requirements.view(), id).unwrap();
            &&& r is Ok && r.unwrap()@ == id
            &&& srs_changed(*old(project), *final(project), ctx.now)
            &&& has_key(final(project).safety_requirements.view(), id)
            &&& forall|x: SafetyRequirement| #[trigger] final(project).safety_requirements.view().contains(x)
                <==> (x == sr || (old(project).safety_requirements.view().contains(x) && x.key() != id))
            &&& sr.id@ == id && sr.title == title && sr.statement == statement && sr.rationale == rationale
            &&& sr.acceptance == acceptance && sr.priority == priority && sr.status == Status::Draft && sr.tags == tags
            &&& sr.links@.len() == realized@.len()
            &&& forall|i: int| 0 <= i < sr.links@.len() ==> (#[trigger] sr.links@[i]).kind == LinkKind::Realizes
                && sr.links@[i].target@ == norm_id_spec("SF"@, realized@[i]@)
            &&& sr.tests@.len() == 0 && sr.validation.is_none() && sr.walkthrough.is_none()
            &&& sr.created == ctx.now && sr.updated == ctx.now
            &&& sr.history@.len() == 1 && entry_records(sr.history@[0], *ctx, "created"@, None)
        },
{
    let links = realization_links(project, realized)?;
    let id = allocate_prefixed(&project.safety_requirements, "SR");
    let e = history(string_of(&chars_of("created")), None, ctx);
    let sr = SafetyRequirement {
        id: id.clone(),
        title,
        statement,
        rationale,
        acceptance,
        priority,
        status: Status::Draft,
        tags,
        links,
        tests: Vec::new(),
        validation: None,
        walkthrough: None,
        history: vec![e],
        created: ctx.now.clone(),
        updated: ctx.now.clone(),
    };
    project.safety_requirements.insert(sr);
    project.updated = ctx.now.clone();
    Ok(id)
}

/// The requested changes to a safety requirement.
pub struct SreqChanges {
    pub title: Option<String>,
    pub statement: Option<String>,
    pub rationale: Option<String>,
    pub acceptance: Option<Vec<String>>,
    pub add_acceptance: Vec<String>,
    pub priority: Option<Priority>,
    pub status: Option<Status>,
    pub add_tag: Vec<String>,
    pub remove_tag: Vec<String>,
}

/// Update the fields, acceptance criteria, priority, status and tags of a
/// safety requirement.
pub fn op_sreq_update(project: &mut Project, raw: &str, c: SreqChanges, reason: Option<String>, ctx: &ActionContext)
    -> (r: Result<String, ReqError>)
    ensures
        !has_key(old(project).safety_requirements.view(), norm_id_spec("SR"@, raw@)) ==> r is Err && *final(project) == *old(project),
        has_key(old(project).safety_requirements.view(), norm_id_spec("SR"@, raw@)) ==> {
            let id = norm_id_spec("SR"@, raw@);
            let o = lookup(old(project).safety_requirements.view(), id).unwrap();
            let n = lookup(final(project).safety_requirements.view(), id).unwrap();
            &&& r is Ok && r.unwrap()@ == id
            &&& has_key(final(project).safety_requirements.view(), id)
            &&& replaced(old(project).safety_requirements.view(), final(project).safety_requirements.view(), n)
            &&& srs_changed(*old(project), *final(project), ctx.now)
            &&& n == SafetyRequirement {
                title: match c.title { Some(t) => t, None => o.title },
                statement: match c.statement { Some(t) => t, None => o.statement },
                rationale: match c.rationale { Some(t) => t, None => o.rationale },
                priority: match c.priority { Some(p) => p, None => o.priority },
                status: match c.status { Some(s) => s, None => o.status },
                acceptance: n.acceptance, tags: n.tags, history: n.history, updated: ctx.now, ..o
            }
            &&& views(n.acceptance@) == (match c.acceptance { Some(a) => views(a@), None => views(o.acceptance@) })
                + views(c.add_acceptance@)
            &&& views(n.tags@) == tags_after(views(o.tags@), views(c.add_tag@), views(c.remove_tag@))
            &&& n.history@.len() == o.history@.len() + 1 && n.history@.drop_last() == o.history@
            &&& entry_records(n.history@.last(), *ctx, "updated"@, opt_seq(reason))
        },
{
    let id = resolve_sr(project, raw)?;
    let e = history(string_of(&chars_of("updated")), reason, ctx);
    let SreqChanges { title, statement, rationale, acceptance, add_acceptance, priority, status, add_tag, remove_tag } = c;
    let mut sr = project.safety_requirements.remove(id.as_str()).unwrap();
    let ghost o = sr;
    match title { Some(t) => sr.title = t, None => {} }
    match statement { Some(t) => sr.statement = t, None => {} }
    match rationale { Some(t) => sr.rationale = t, None => {} }
    match acceptance { Some(a) => sr.acceptance = a, None => {} }
    crate::batch::append_all(&mut sr.acceptance, &add_acceptance);
    match priority { Some(p) => sr.priority = p, None => {} }
    match status { Some(s) => sr.status = s, None => {} }
    merge_tags(&mut sr.tags, &add_tag, &remove_tag);
    sr.updated = ctx.now.clone();
    sr.history.push(e);
    assert(sr.history@.drop_last() =~= o.history@);
    let ghost mid = project.safety_requirements.view();
    project.safety_requirements.insert(sr);
    proof {
        assert(!has_key(mid, id@));
    }
    project.updated = ctx.now.clone();
    Ok(id)
}

/// Link a safety requirement to a safety function it realizes (or with
/// `remove`, unlink it); a duplicate is refused.
pub fn op_sreq_realize(project: &mut Project, sr_raw: &str, sf_raw: &str, remove: bool, ctx: &ActionContext)
    -> (r: Result<(), ReqError>)
    ensures
        r is Err ==> *final(project) == *old(project),
        ({
            let rid = norm_id_spec("SR"@, sr_raw@);
            let fid = norm_id_spec("SF"@, sf_raw@);
            if !has_key(old(project).safety_requirements.view(), rid) || !has_key(old(project).safety_functions.view(), fid) {
                r is Err
            } else {
                let o = lookup(old(project).safety_requirements.view(), rid).unwrap();
                let n = lookup(final(project).safety_requirements.view(), rid).unwrap();
                if !remove && realizes_spec(o, fid) {
                    match r {
                        Err(ReqError::AlreadyRealizes { from, to }) => from@ == rid && to@ == fid,
                        _ => false,
                    }
                } else {
                    &&& r is Ok
                    &&& has_key(final(project).safety_requirements.view(), rid)
                    &&& replaced(old(project).safety_requirements.view(), final(project).safety_requirements.view(), n)
                    &&& srs_changed(*old(project), *final(project), ctx.now)
                    &&& n == SafetyRequirement { links: n.links, history: n.history, updated: ctx.now, ..o }
                    &&& n.links@ == if remove {
                        crate::links::without_link(o.links@, LinkKind::Realizes, fid)
                    } else {
                        o.links@.push(n.links@.last())
                    }
                    &&& !remove ==> n.links@.last().kind == LinkKind::Realizes && n.links@.last().target@ == fid
                    &&& n.history@.len() == o.history@.len() + 1 && n.history@.drop_last() == o.history@
                    &&& entry_records(n.history@.last(), *ctx, (if remove { "unlinked realizes "@ } else { "realizes "@ }) + fid, None)
                }
            }
        }),
{
    let sr_id = resolve_sr(project, sr_raw)?;
    let sf_id = resolve_sf(project, sf_raw)?;
    let cur = project.safety_requirements.get(sr_id.as_str()).unwrap();
    if !remove && realizes(cur, sf_id.as_str()) {
        return Err(ReqError::AlreadyRealizes { from: sr_id, to: sf_id });
    }
    let links = if remove {
        crate::links::drop_link(&cur.links, LinkKind::Realizes, sf_id.as_str())
    } else {
        let mut ls = crate::links::clone_links(&cur.links);
        ls.push(Link { kind: LinkKind::Realizes, target: sf_id.clone() });
        ls
    };
    let mut a = string_of(&chars_of(if remove { "unlinked realizes " } else { "realizes " }));
    a.append(sf_id.as_str());
    let e = history(a, None, ctx);
    let mut sr = project.safety_requirements.remove(sr_id.as_str()).unwrap();
    let ghost o = sr;
    sr.links = links;
    sr.updated = ctx.now.clone();
    sr.history.push(e);
    assert(sr.history@.drop_last() =~= o.history@);
    let ghost mid = project.safety_requirements.view();
    project.safety_requirements.insert(sr);
    proof {
        assert(!has_key(mid, sr_id@));
    }
    project.updated = ctx.now.clone();
    Ok(())
}

/// The notes of safety evidence: the citations, then the notes, marked as
/// an exception when forced through the SIL gate on inspection.
pub open spec fn sr_notes(cites: Seq<Seq<char>>, notes: Seq<char>, exception: bool) -> Seq<char> {
    let base = if cites.len() == 0 { notes } else { "cites "@ + crate::text::join_seq(cites, ", "@) + " — "@ + notes };
    if exception { "[SIL-gate exception] "@ + base } else { base }
}

/// Record passing evidence of `kind` for a safety requirement, optionally
/// promoting it to Verified: promotion climbs the status ladder only from
/// Implemented unless forced; any other status stays as it was. The
/// SIL-rigour gate: one that inherits SIL 3 or above is refused
/// inspection-only evidence unless forced, and a forced exception is marked
/// on the record and in its notes.
pub fn op_sreq_verify(project: &mut Project, raw: &str, kind: EvidenceKind, notes: String, cites: &Vec<String>,
    promote: bool, force: bool, ctx: &ActionContext) -> (r: Result<(), ReqError>)
    ensures
        r is Err ==> *final(project) == *old(project),
        !has_key(old(project).safety_requirements.view(), norm_id_spec("SR"@, raw@)) ==> r is Err,
        has_key(old(project).safety_requirements.view(), norm_id_spec("SR"@, raw@)) ==> {
            let id = norm_id_spec("SR"@, raw@);
            let o = lookup(old(project).safety_requirements.view(), id).unwrap();
            let inherited = old(project).inherited_sil_spec(o);
            let gated = match inherited { Some(s) => s.rank_of() >= Sil::Sil3.rank_of(), None => false };
            let exception = force && kind == EvidenceKind::Inspection;
            let promoted = promote && (o.status == Status::Implemented || force);
            if gated && kind == EvidenceKind::Inspection && !force {
                match r {
                    Err(ReqError::SilRigour { id: x, sil }) => x@ == id && Some(sil) == inherited,
                    _ => false,
                }
            } else {
                let n = lookup(final(project).safety_requirements.view(), id).unwrap();
                let t = n.tests@.last();
                &&& r is Ok
                &&& has_key(final(project).safety_requirements.view(), id)
                &&& replaced(old(project).safety_requirements.view(), final(project).safety_requirements.view(), n)
                &&& srs_changed(*old(project), *final(project), ctx.now)
                &&& n == SafetyRequirement { tests: n.tests, history: n.history, updated: ctx.now,
                    status: if promoted { Status::Verified } else { o.status }, ..o }
                &&& n.tests@.len() == o.tests@.len() + 1 && n.tests@.drop_last() == o.tests@
                &&& t.at == ctx.now && t.actor == ctx.actor && t.commit@ == ctx.commit_view()
                &&& t.outcome == TestOutcome::Pass && t.kind == kind
                &&& t.notes@ == sr_notes(views(cites@), notes@, exception)
                &&& t.content_hash.is_none() && t.linked_files.is_none()
                &&& t.sil_gate_exception == exception && t.sil_at_verification == inherited
                &&& n.history@.len() == o.history@.len() + 1 && n.history@.drop_last() == o.history@
                &&& entry_records(n.history@.last(), *ctx, if promoted { "verified (promoted)"@ } else { "evidence recorded"@ }, None)
            }
        },
{
    let id = resolve_sr(project, raw)?;
    let inherited = project.inherited_sil(project.safety_requirements.get(id.as_str()).unwrap());
    match inherited {
        Some(sil) => if sil.rank() >= Sil::Sil3.rank() && matches!(kind, EvidenceKind::Inspection) && !force {
            return Err(ReqError::SilRigour { id, sil });
        },
        None => {},
    }
    let exception = force && matches!(kind, EvidenceKind::Inspection);
    let mut base = if cites.len() == 0 {
        string_of(&chars_of(""))
    } else {
        let mut p = string_of(&chars_of("cites "));
        let j = crate::text::join(cites, ", ");
        p.append(j.as_str());
        p.append(" — ");
        p
    };
    base.append(notes.as_str());
    proof {
        reveal_strlit("");
        if cites@.len() == 0 {
            assert(base@ =~= notes@);
        }
    }
    let full = if exception {
        let mut x = string_of(&chars_of("[SIL-gate exception] "));
        x.append(base.as_str());
        x
    } else {
        base
    };
    let record = TestRecord {
        at: ctx.now.clone(),
        actor: ctx.actor.clone(),
        commit: crate::model::commit_of(ctx),
        outcome: TestOutcome::Pass,
        notes: full,
        kind,
        content_hash: None,
        linked_files: None,
        sil_gate_exception: exception,
        sil_at_verification: inherited,
        external: None,
    };
    let promoted = promote && (matches!(project.safety_requirements.get(id.as_str()).unwrap().status, Status::Implemented) || force);
    let e = history(string_of(&chars_of(if promoted { "verified (promoted)" } else { "evidence recorded" })), None, ctx);
    let mut sr = project.safety_requirements.remove(id.as_str()).unwrap();
    let ghost o = sr;
    sr.tests.push(record);
    if promoted {
        sr.status = Status::Verified;
    }
    sr.updated = ctx.now.clone();
    sr.history.push(e);
    assert(sr.history@.drop_last() =~= o.history@);
    assert(sr.tests@.drop_last() =~= o.tests@);
    let ghost mid = project.safety_requirements.view();
    project.safety_requirements.insert(sr);
    proof {
        assert(!has_key(mid, id@));
    }
    project.updated = ctx.now.clone();
    Ok(())
}

} // verus!
