//! `req import`: requirement candidates read from markdown (or from JSON
//! the caller has parsed), added to the project as Draft requirements under
//! freshly allocated ids.
use vstd::prelude::*;

use crate::idmap::{has_key, lookup, IdMap};
use crate::ids::{allocate_id, next_id_spec};
use crate::model::{entry_records, history, ActionContext, Kind, Priority, Project, Requirement, Status};
use crate::text::{
    chars_of, is_prefix, lines, lines_of, lower_seq, split_char, split_on, split_once_char,
    split_once_spec, str_eq, string_of, to_lower, trim, trim_seq, views,
};

verus! {

/// A requirement read from an import source.
pub struct Candidate {
    pub title: String,
    pub statement: String,
    pub rationale: String,
    pub acceptance: Vec<String>,
    pub kind: Kind,
    pub priority: Priority,
    pub tags: Vec<String>,
}

/// A candidate as plain values.
pub struct CandView {
    pub title: Seq<char>,
    pub statement: Seq<char>,
    pub rationale: Seq<char>,
    pub acceptance: Seq<Seq<char>>,
    pub kind: Kind,
    pub priority: Priority,
    pub tags: Seq<Seq<char>>,
}

pub open spec fn cand_view(c: Candidate) -> CandView {
    CandView {
        title: c.title@,
        statement: c.statement@,
        rationale: c.rationale@,
        acceptance: views(c.acceptance@),
        kind: c.kind,
        priority: c.priority,
        tags: views(c.tags@),
    }
}

/// Which part of a candidate prose lines go to.
#[derive(Copy, Clone, Debug, PartialEq, Eq, Structural)]
pub enum Section {
    Statement,
    Rationale,
    Acceptance,
}

/// The reading state: the candidates finished, the one being read, and
/// where its prose goes.
pub struct MdState {
    pub out: Seq<CandView>,
    pub cur: Option<CandView>,
    pub section: Section,
}

/// `s` without the leading run of `c`.
pub open spec fn strip_lead(s: Seq<char>, c: char) -> Seq<char>
    decreases s.len(),
{
    if s.len() > 0 && s[0] == c { strip_lead(s.drop_first(), c) } else { s }
}

/// The text after the first `:` (empty when there is none).
pub open spec fn after_colon(t: Seq<char>) -> Seq<char> {
    match split_once_spec(t, ':') {
        Some((_, b)) => b,
        None => Seq::empty(),
    }
}

/// The trimmed, non-empty pieces of a comma-separated list.
pub open spec fn tag_list(ps: Seq<Seq<char>>) -> Seq<Seq<char>>
    decreases ps.len(),
{
    if ps.len() == 0 {
        Seq::empty()
    } else {
        let rest = tag_list(ps.drop_last());
        let t = trim_seq(ps.last());
        if t.len() > 0 { rest.push(t) } else { rest }
    }
}

/// A fresh candidate titled `title`: functional, should-priority, empty.
pub open spec fn fresh(title: Seq<char>) -> CandView {
    CandView {
        title,
        statement: Seq::empty(),
        rationale: Seq::empty(),
        acceptance: Seq::empty(),
        kind: Kind::Functional,
        priority: Priority::Should,
        tags: Seq::empty(),
    }
}

/// The finished candidates with `cur` added, unless it has no title.
pub open spec fn flushed(out: Seq<CandView>, cur: Option<CandView>) -> Seq<CandView> {
    match cur {
        Some(c) => if c.title.len() > 0 { out.push(c) } else { out },
        None => out,
    }
}

/// A level-2 or level-3 heading starts a candidate titled by its text; a
/// `Rationale:` line (its text, if any, the rationale) or a `Rationale`
/// line turns prose into rationale, an `Acceptance:` line into acceptance
/// criteria (bullets), a `Tags:` line sets the tags; otherwise the first
/// prose line is the statement. Blank lines and lines before the first
/// heading are skipped.
pub open spec fn md_step(st: MdState, line: Seq<char>) -> MdState {
    let t = trim_seq(line);
    if is_prefix("## "@, t) || is_prefix("### "@, t) {
        MdState { out: flushed(st.out, st.cur), cur: Some(fresh(trim_seq(strip_lead(t, '#')))), section: Section::Statement }
    } else {
        match st.cur {
            None => st,
            Some(c) => {
                let lower = lower_seq(t);
                if is_prefix("rationale:"@, lower) || lower == "rationale"@ {
                    let rest = trim_seq(after_colon(t));
                    MdState {
                        out: st.out,
                        cur: Some(if rest.len() > 0 { CandView { rationale: rest, ..c } } else { c }),
                        section: Section::Rationale,
                    }
                } else if is_prefix("acceptance:"@, lower) || lower == "acceptance"@ {
                    MdState { out: st.out, cur: st.cur, section: Section::Acceptance }
                } else if is_prefix("tags:"@, lower) {
                    MdState { out: st.out, cur: Some(CandView { tags: tag_list(split_on(after_colon(t), ',')), ..c }), section: st.section }
                } else if t.len() == 0 {
                    st
                } else {
                    MdState {
                        out: st.out,
                        cur: Some(match st.section {
                            Section::Statement => if c.statement.len() == 0 { CandView { statement: t, ..c } } else { c },
                            Section::Rationale => CandView {
                                rationale: if c.rationale.len() > 0 { c.rationale + seq![' '] + t } else { c.rationale + t },
                                ..c
                            },
                            Section::Acceptance => {
                                let b = trim_seq(strip_lead(strip_lead(t, '-'), '*'));
                                if b.len() > 0 { CandView { acceptance: c.acceptance.push(b), ..c } } else { c }
                            },
                        }),
                        section: st.section,
                    }
                }
            },
        }
    }
}

/// The state after reading `ls` in order.
pub open spec fn md_fold(ls: Seq<Seq<char>>) -> MdState
    decreases ls.len(),
{
    if ls.len() == 0 {
        MdState { out: Seq::empty(), cur: None, section: Section::Statement }
    } else {
        md_step(md_fold(ls.drop_last()), ls.last())
    }
}

/// The candidates a markdown source describes, in order.
pub open spec fn markdown_candidates(src: Seq<char>) -> Seq<CandView> {
    let st = md_fold(lines_of(src));
    flushed(st.out, st.cur)
}

fn strip_lead_exec(s: &Vec<char>, c: char) -> (r: Vec<char>)
    ensures
        r@ == strip_lead(s@, c),
{
    let mut i: usize = 0;
    assert(s@.skip(0) =~= s@);
    while i < s.len() && s[i] == c
        invariant
            i <= s@.len(),
            strip_lead(s@, c) == strip_lead(s@.skip(i as int), c),
        decreases s@.len() - i,
    {
        assert(s@.skip(i as int).drop_first() =~= s@.skip(i + 1));
        i = i + 1;
    }
    crate::text::suffix_from(s, i)
}

fn after_colon_exec(t: &str) -> (r: String)
    ensures
        r@ == after_colon(t@),
{
    match split_once_char(t, ':') {
        Some((_, b)) => b,
        None => String::new(),
    }
}

fn tags_of(rest: &str) -> (r: Vec<String>)
    ensures
        views(r@) == tag_list(split_on(rest@, ',')),
{
    let ps = split_char(rest, ',');
    let ghost pv = views(ps@);
    let mut out: Vec<String> = Vec::new();
    let mut i: usize = 0;
    while i < ps.len()
        invariant
            i <= ps@.len(),
            pv == views(ps@),
            pv == split_on(rest@, ','),
            views(out@) == tag_list(pv.take(i as int)),
        decreases ps@.len() - i,
    {
        assert(pv.take(i + 1).drop_last() =~= pv.take(i as int));
        assert(pv.take(i + 1).last() == ps@[i as int]@);
        let cs = chars_of(ps[i].as_str());
        let t = trim(&cs);
        if t.len() > 0 {
            let ghost pre = views(out@);
            out.push(string_of(&t));
            assert(views(out@) =~= pre.push(t@));
        }
        i = i + 1;
    }
    assert(pv.take(ps@.len() as int) =~= pv);
    out
}

fn fresh_candidate(title: String) -> (c: Candidate)
    ensures
        cand_view(c) == fresh(title@),
{
    let c = Candidate {
        title,
        statement: String::new(),
        rationale: String::new(),
        acceptance: Vec::new(),
        kind: Kind::Functional,
        priority: Priority::Should,
        tags: Vec::new(),
    };
    assert(views(c.acceptance@) =~= Seq::<Seq<char>>::empty());
    assert(views(c.tags@) =~= Seq::<Seq<char>>::empty());
    c
}

pub open spec fn cands_view(v: Seq<Candidate>) -> Seq<CandView> {
    v.map_values(|c: Candidate| cand_view(c))
}

pub open spec fn cur_view(c: Option<Candidate>) -> Option<CandView> {
    match c {
        Some(x) => Some(cand_view(x)),
        None => None,
    }
}

fn flush_into(out: &mut Vec<Candidate>, cur: Option<Candidate>)
    ensures
        cands_view(final(out)@) == flushed(cands_view(old(out)@), cur_view(cur)),
{
    match cur {
        Some(c) => if chars_of(c.title.as_str()).len() > 0 {
            let ghost pre = cands_view(out@);
            let ghost cv = cand_view(c);
            out.push(c);
            assert(cands_view(out@) =~= pre.push(cv));
        },
        None => {},
    }
}

/// Apply one prose line to the candidate being read.
fn prose_line(c: &mut Candidate, section: Section, t: &Vec<char>)
    requires
        t@.len() > 0,
    ensures
        cand_view(*final(c)) == match section {
            Section::Statement => if cand_view(*old(c)).statement.len() == 0 { CandView { statement: t@, ..cand_view(*old(c)) } } else { cand_view(*old(c)) },
            Section::Rationale => CandView {
                rationale: if old(c).rationale@.len() > 0 { old(c).rationale@ + seq![' '] + t@ } else { old(c).rationale@ + t@ },
                ..cand_view(*old(c))
            },
            Section::Acceptance => {
                let b = trim_seq(strip_lead(strip_lead(t@, '-'), '*'));
                if b.len() > 0 { CandView { acceptance: cand_view(*old(c)).acceptance.push(b), ..cand_view(*old(c)) } } else { cand_view(*old(c)) }
            },
        },
{
    let ghost o = cand_view(*c);
    match section {
        Section::Statement => {
            if chars_of(c.statement.as_str()).len() == 0 {
                c.statement = string_of(t);
                assert(cand_view(*c) == CandView { statement: t@, ..o });
            }
        },
        Section::Rationale => {
            let ghost r0 = c.rationale@;
            if chars_of(c.rationale.as_str()).len() > 0 {
                crate::text::push_char(&mut c.rationale, ' ');
                c.rationale.append(string_of(t).as_str());
                assert(c.rationale@ =~= r0 + seq![' '] + t@);
            } else {
                c.rationale.append(string_of(t).as_str());
                assert(c.rationale@ =~= r0 + t@);
            }
            assert(cand_view(*c) == CandView { rationale: c.rationale@, ..o });
        },
        Section::Acceptance => {
            let a = strip_lead_exec(t, '-');
            let b = strip_lead_exec(&a, '*');
            let bt = trim(&b);
            if bt.len() > 0 {
                let ghost pre = views(c.acceptance@);
                c.acceptance.push(string_of(&bt));
                assert(views(c.acceptance@) =~= pre.push(bt@));
                assert(cand_view(*c) == CandView { acceptance: o.acceptance.push(bt@), ..o });
            }
        },
    }
}

/// Parse a markdown import source into requirement candidates.
pub fn parse_markdown(src: &str) -> (r: Vec<Candidate>)
    ensures
        cands_view(r@) == markdown_candidates(src@),
{
    let ls = lines(src);
    let ghost lv = views(ls@);
    let mut out: Vec<Candidate> = Vec::new();
    let mut cur: Option<Candidate> = None;
    let mut section = Section::Statement;
    let mut i: usize = 0;
    assert(cands_view(out@) =~= Seq::<CandView>::empty());
    while i < ls.len()
        invariant
            i <= ls@.len(),
            lv == views(ls@),
            lv == lines_of(src@),
            ({
                let st = md_fold(lv.take(i as int));
                &&& st.out == cands_view(out@)
                &&& st.cur == cur_view(cur)
                &&& st.section == section
            }),
        decreases ls@.len() - i,
    {
        assert(lv.take(i + 1).drop_last() =~= lv.take(i as int));
        assert(lv.take(i + 1).last() == ls@[i as int]@);
        let lc = chars_of(ls[i].as_str());
        let t = trim(&lc);
        let ts = string_of(&t);
        if crate::text::starts_with(&t, &chars_of("## ")) || crate::text::starts_with(&t, &chars_of("### ")) {
            let taken = cur;
            flush_into(&mut out, taken);
            let h = strip_lead_exec(&t, '#');
            let title = string_of(&trim(&h));
            cur = Some(fresh_candidate(title));
            section = Section::Statement;
        } else {
            match cur {
                None => {},
                Some(mut c) => {
                    let lower = to_lower(ts.as_str());
                    let lv2 = chars_of(lower.as_str());
                    if crate::text::starts_with(&lv2, &chars_of("rationale:")) || str_eq(lower.as_str(), "rationale") {
                        let rest_s = after_colon_exec(ts.as_str());
                        let rv = chars_of(rest_s.as_str());
                        let rest = trim(&rv);
                        if rest.len() > 0 {
                            c.rationale = string_of(&rest);
                        }
                        section = Section::Rationale;
                    } else if crate::text::starts_with(&lv2, &chars_of("acceptance:")) || str_eq(lower.as_str(), "acceptance") {
                        section = Section::Acceptance;
                    } else if crate::text::starts_with(&lv2, &chars_of("tags:")) {
                        let rest_s = after_colon_exec(ts.as_str());
                        c.tags = tags_of(rest_s.as_str());
                    } else if t.len() > 0 {
                        prose_line(&mut c, section, &t);
                    }
                    cur = Some(c);
                },
            }
        }
        i = i + 1;
    }
    assert(lv.take(ls@.len() as int) =~= lv);
    flush_into(&mut out, cur);
    out
}

// ---------------------------------------------------------------------------
// Kind and priority named in a JSON candidate
// ---------------------------------------------------------------------------

/// The kind a JSON candidate names (functional when absent or unknown).
pub open spec fn import_kind_spec(s: Option<Seq<char>>) -> Kind {
    match s {
        None => Kind::Functional,
        Some(k) => if k == "non-functional"@ || k == "nonfunctional"@ || k == "NonFunctional"@ {
            Kind::NonFunctional
        } else if k == "constraint"@ || k == "Constraint"@ {
            Kind::Constraint
        } else if k == "interface"@ || k == "Interface"@ {
            Kind::Interface
        } else if k == "business"@ || k == "Business"@ {
            Kind::Business
        } else {
            Kind::Functional
        },
    }
}

pub fn import_kind(s: Option<&str>) -> (k: Kind)
    ensures
        k == import_kind_spec(match s { Some(x) => Some(x@), None => None }),
        forall|named: Kind| (s matches Some(x) && x@ == #[trigger] named.name()) ==> k == named,
        s is None ==> k == Kind::Functional,
{
    proof {
        assert forall|named: Kind| #[trigger] named.name() == named.name() implies import_kind_spec(Some(named.name())) == named by {
            lemma_import_kind_by_name(named);
        }
    }
    match s {
        None => Kind::Functional,
        Some(k) => if str_eq(k, "non-functional") || str_eq(k, "nonfunctional") || str_eq(k, "NonFunctional") {
            Kind::NonFunctional
        } else if str_eq(k, "constraint") || str_eq(k, "Constraint") {
            Kind::Constraint
        } else if str_eq(k, "interface") || str_eq(k, "Interface") {
            Kind::Interface
        } else if str_eq(k, "business") || str_eq(k, "Business") {
            Kind::Business
        } else {
            Kind::Functional
        },
    }
}

/// The priority a JSON candidate names (should when absent or unknown).
pub open spec fn import_priority_spec(s: Option<Seq<char>>) -> Priority {
    match s {
        None => Priority::Should,
        Some(p) => if p == "must"@ || p == "Must"@ {
            Priority::Must
        } else if p == "could"@ || p == "Could"@ {
            Priority::Could
        } else if p == "wont"@ || p == "Wont"@ {
            Priority::Wont
        } else {
            Priority::Should
        },
    }
}

pub fn import_priority(s: Option<&str>) -> (p: Priority)
    ensures
        p == import_priority_spec(match s { Some(x) => Some(x@), None => None }),
        forall|named: Priority| (s matches Some(x) && x@ == #[trigger] named.name()) ==> p == named,
        s is None ==> p == Priority::Should,
{
    proof {
        assert forall|named: Priority| #[trigger] named.name() == named.name() implies import_priority_spec(Some(named.name())) == named by {
            lemma_import_priority_by_name(named);
        }
    }
    match s {
        None => Priority::Should,
        Some(p) => if str_eq(p, "must") || str_eq(p, "Must") {
            Priority::Must
        } else if str_eq(p, "could") || str_eq(p, "Could") {
            Priority::Could
        } else if str_eq(p, "wont") || str_eq(p, "Wont") {
            Priority::Wont
        } else {
            Priority::Should
        },
    }
}

// ---------------------------------------------------------------------------
// Adding the candidates
// ---------------------------------------------------------------------------

/// `r` is candidate `c` imported under `id`: a Draft requirement with no
/// links, evidence or dossier, created now, its history the import from
/// `source`.
pub open spec fn imported_as(r: Requirement, c: CandView, id: Seq<char>, source: Seq<char>, ctx: ActionContext) -> bool {
    &&& r.id@ == id && r.title@ == c.title && r.statement@ == c.statement && r.rationale@ == c.rationale
    &&& views(r.acceptance@) == c.acceptance && r.kind == c.kind && r.priority == c.priority
    &&& views(r.tags@) == c.tags && r.status == Status::Draft
    &&& r.links@.len() == 0 && r.tests@.len() == 0 && r.validation is None
    &&& r.created == ctx.now && r.updated == ctx.now
    &&& r.history@.len() == 1 && entry_records(r.history@[0], ctx, "imported"@, Some("source: "@ + source))
}

/// One candidate imported into `s`, giving `s2`, under the next free id.
pub open spec fn import_step(s: Project, s2: Project, c: CandView, id: Seq<char>, source: Seq<char>, ctx: ActionContext) -> bool {
    &&& id == next_id_spec(s.requirements.view())
    &&& s2 == Project { requirements: s2.requirements, ..s }
    &&& has_key(s2.requirements.view(), id)
    &&& imported_as(lookup(s2.requirements.view(), id).unwrap(), c, id, source, ctx)
    &&& forall|x: Requirement| #[trigger] s2.requirements.view().contains(x) <==> (x == lookup(s2.requirements.view(), id).unwrap()
        || (s.requirements.view().contains(x) && x.id@ != id))
}

/// The candidates imported in turn through the projects `states` under
/// `ids`.
pub open spec fn import_run(states: Seq<Project>, cands: Seq<CandView>, ids: Seq<Seq<char>>, source: Seq<char>, ctx: ActionContext) -> bool {
    &&& states.len() == cands.len() + 1 && ids.len() == cands.len()
    &&& forall|i: int| 0 <= i < cands.len() ==> import_step(#[trigger] states[i], states[i + 1], cands[i], ids[i], source, ctx)
}

/// Import the candidates (`req import`): each becomes a Draft requirement
/// under the next free id, in order; with `dry_run` nothing changes. Gives
/// the ids allocated (none on a dry run). The project is stamped when
/// anything was imported.
pub fn import_candidates(project: &mut Project, cands: &Vec<Candidate>, dry_run: bool, source: &str, ctx: &ActionContext) -> (r: Vec<String>)
    ensures
        dry_run ==> *final(project) == *old(project) && r@.len() == 0,
        !dry_run ==> exists|states: Seq<Project>| #![trigger import_run(states, cands_view(cands@), views(r@), source@, *ctx)]
            import_run(states, cands_view(cands@), views(r@), source@, *ctx) && states[0] == *old(project)
            && *final(project) == if cands@.len() == 0 { states.last() } else { Project { updated: ctx.now, ..states.last() } },
{
    let mut ids: Vec<String> = Vec::new();
    if dry_run {
        return ids;
    }
    let ghost cv = cands_view(cands@);
    let ghost p0 = *project;
    let ghost mut states: Seq<Project> = seq![*project];
    let mut reason = string_of(&chars_of("source: "));
    reason.append(source);
    let mut i: usize = 0;
    while i < cands.len()
        invariant
            i <= cands@.len(),
            cv == cands_view(cands@),
            reason@ == "source: "@ + source@,
            states.len() == i + 1,
            states[0] == p0,
            states.last() == *project,
            import_run(states, cv.take(i as int), views(ids@), source@, *ctx),
        decreases cands@.len() - i,
    {
        let c = &cands[i];
        let id = allocate_id(project);
        let e = history(string_of(&chars_of("imported")), Some(reason.clone()), ctx);
        let req = Requirement {
            id: id.clone(),
            title: c.title.clone(),
            statement: c.statement.clone(),
            rationale: c.rationale.clone(),
            acceptance: crate::text::clone_strings(&c.acceptance),
            kind: c.kind,
            priority: c.priority,
            status: Status::Draft,
            tags: crate::text::clone_strings(&c.tags),
            links: Vec::new(),
            tests: Vec::new(),
            validation: None,
            history: vec![e],
            created: ctx.now.clone(),
            updated: ctx.now.clone(),
        };
        let ghost rv = req;
        let ghost before = *project;
        project.requirements.insert(req);
        let ghost idv = id@;
        let ghost pre_ids = views(ids@);
        ids.push(id);
        proof {
            assert(views(ids@) =~= pre_ids.push(idv));
            assert(lookup(project.requirements.view(), idv) == Some(rv));
            assert(import_step(before, *project, cv[i as int], idv, source@, *ctx));
            let ns = states.push(*project);
            assert forall|k: int| 0 <= k < i + 1 implies import_step(#[trigger] ns[k], ns[k + 1], cv.take(i + 1)[k], views(ids@)[k], source@, *ctx) by {
                if k < i {
                    assert(ns[k] == states[k] && ns[k + 1] == states[k + 1]);
                    assert(cv.take(i + 1)[k] == cv.take(i as int)[k]);
                    assert(views(ids@)[k] == pre_ids[k]);
                }
            }
            states = ns;
        }
        i = i + 1;
    }
    assert(cv.take(cands@.len() as int) =~= cv);
    if cands.len() > 0 {
        project.updated = ctx.now.clone();
    }
    ids
}


/// Importing a kind by its name gives that kind, for every kind; an absent
/// kind imports as functional.
pub proof fn lemma_import_kind_by_name(k: Kind)
    ensures
        import_kind_spec(Some(k.name())) == k,
        import_kind_spec(None) == Kind::Functional,
{
    reveal_strlit("functional");
    reveal_strlit("non-functional");
    reveal_strlit("nonfunctional");
    reveal_strlit("NonFunctional");
    reveal_strlit("constraint");
    reveal_strlit("Constraint");
    reveal_strlit("interface");
    reveal_strlit("Interface");
    reveal_strlit("business");
    reveal_strlit("Business");
    match k {
        Kind::Functional => {
            assert(k.name() == "functional"@);
            assert("functional"@[0] != "constraint"@[0] && "functional"@[0] != "Constraint"@[0]);
            assert("functional"@.len() != "interface"@.len() && "functional"@.len() != "business"@.len());
            assert("functional"@.len() != "nonfunctional"@.len() && "functional"@.len() != "non-functional"@.len());
            assert("functional"@.len() != "NonFunctional"@.len());
        },
        Kind::NonFunctional => assert(k.name() == "non-functional"@),
        Kind::Constraint => assert(k.name() == "constraint"@),
        Kind::Interface => assert(k.name() == "interface"@),
        Kind::Business => assert(k.name() == "business"@),
    }
}

/// Importing a priority by its name gives that priority, for every
/// priority; an absent priority imports as should.
pub proof fn lemma_import_priority_by_name(q: Priority)
    ensures
        import_priority_spec(Some(q.name())) == q,
        import_priority_spec(None) == Priority::Should,
{
    reveal_strlit("must");
    reveal_strlit("Must");
    reveal_strlit("should");
    reveal_strlit("could");
    reveal_strlit("Could");
    reveal_strlit("wont");
    reveal_strlit("Wont");
    match q {
        Priority::Must => assert(q.name() == "must"@),
        Priority::Should => {
            assert(q.name() == "should"@);
            assert("should"@.len() != "must"@.len() && "should"@.len() != "wont"@.len());
            assert("should"@[0] != "could"@[0] && "should"@[0] != "Could"@[0]);
        },
        Priority::Wont => {
            assert(q.name() == "wont"@);
            assert("wont"@[0] != "must"@[0] && "wont"@[0] != "Must"@[0]);
            assert("wont"@.len() != "could"@.len() && "wont"@.len() != "Could"@.len());
        },
        Priority::Could => {
            assert(q.name() == "could"@);
            assert("could"@.len() != "must"@.len() && "could"@.len() != "Must"@.len());
        },
    }
}

} // verus!
