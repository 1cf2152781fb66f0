//! Marker coverage (`req coverage`): which requirements the source cites
//! with `REQ-NNNN` markers, which it cites only from tests, which it never
//! cites, and which ids it cites that are unknown or retired.
use vstd::prelude::*;

use crate::idmap::{has_key, lookup};
use crate::model::{Project, Requirement, Status};
use crate::queries::{is_test_path, test_path_spec};
use crate::patterns::{matches_in, matches_of};
use crate::review::REQ_TOKEN;
use crate::testrun::SourceText;
use crate::text::{contains_str, dec_seq, dec_string, lines, lines_of, views};

verus! {

/// The `path:line` places that cite one id.
pub struct Hit {
    pub id: String,
    pub refs: Vec<String>,
}

pub open spec fn hit_view(h: Hit) -> (Seq<char>, Seq<Seq<char>>) {
    (h.id@, views(h.refs@))
}

pub open spec fn hits_view(hs: Seq<Hit>) -> Seq<(Seq<char>, Seq<Seq<char>>)> {
    hs.map_values(|h: Hit| hit_view(h))
}

/// What the scan found.
pub struct CoverageReport {
    /// Known requirements cited from implementation code.
    pub referenced: Vec<Hit>,
    /// Known requirements cited only from test files.
    pub test_only: Vec<Hit>,
    /// Requirements past Draft, not Obsolete, that nothing cites.
    pub orphans: Vec<String>,
    /// Draft requirements that nothing cites yet.
    pub drafts_unmarked: Vec<String>,
    /// Cited ids the project does not hold.
    pub ghosts: Vec<Hit>,
    /// Obsolete requirements still cited.
    pub obsolete_referenced: Vec<Hit>,
}

/// Some citation is from implementation code.
pub open spec fn has_impl(refs: Seq<Seq<char>>) -> bool {
    exists|i: int| 0 <= i < refs.len() && !test_path_spec(#[trigger] refs[i])
}

/// Which bucket a cited id falls in: 0 referenced, 1 test-only, 2 ghost,
/// 3 obsolete.
pub open spec fn bucket(reqs: Seq<Requirement>, h: (Seq<char>, Seq<Seq<char>>)) -> int {
    match lookup(reqs, h.0) {
        Some(r) => if r.status == Status::Obsolete { 3 } else if !has_impl(h.1) { 1 } else { 0 },
        None => 2,
    }
}

/// The hits of `hs` in bucket `b`, in order.
pub open spec fn in_bucket(reqs: Seq<Requirement>, hs: Seq<(Seq<char>, Seq<Seq<char>>)>, b: int) -> Seq<(Seq<char>, Seq<Seq<char>>)>
    decreases hs.len(),
{
    if hs.len() == 0 {
        Seq::empty()
    } else {
        let rest = in_bucket(reqs, hs.drop_last(), b);
        if bucket(reqs, hs.last()) == b { rest.push(hs.last()) } else { rest }
    }
}

/// Some hit cites `id`.
pub open spec fn cited(hs: Seq<(Seq<char>, Seq<Seq<char>>)>, id: Seq<char>) -> bool {
    exists|i: int| 0 <= i < hs.len() && (#[trigger] hs[i]).0 == id
}

/// The uncited requirements of `rs` with status `st` (orphans: any status
/// past Draft but Obsolete), in order.
pub open spec fn uncited(rs: Seq<Requirement>, hs: Seq<(Seq<char>, Seq<Seq<char>>)>, drafts: bool) -> Seq<Seq<char>>
    decreases rs.len(),
{
    if rs.len() == 0 {
        Seq::empty()
    } else {
        let rest = uncited(rs.drop_last(), hs, drafts);
        let r = rs.last();
        let wanted = if drafts { r.status == Status::Draft } else { r.status != Status::Draft && r.status != Status::Obsolete };
        if wanted && !cited(hs, r.id@) { rest.push(r.id@) } else { rest }
    }
}

/// `rep` is the coverage of project `p` given the citations `hs`.
pub open spec fn coverage_of(rep: CoverageReport, p: Project, hs: Seq<(Seq<char>, Seq<Seq<char>>)>) -> bool {
    let rs = p.requirements.view();
    &&& hits_view(rep.referenced@) == in_bucket(rs, hs, 0)
    &&& hits_view(rep.test_only@) == in_bucket(rs, hs, 1)
    &&& hits_view(rep.ghosts@) == in_bucket(rs, hs, 2)
    &&& hits_view(rep.obsolete_referenced@) == in_bucket(rs, hs, 3)
    &&& views(rep.orphans@) == uncited(rs, hs, false)
    &&& views(rep.drafts_unmarked@) == uncited(rs, hs, true)
}

fn any_impl(refs: &Vec<String>) -> (b: bool)
    ensures
        b == has_impl(views(refs@)),
{
    let mut i: usize = 0;
    while i < refs.len()
        invariant
            i <= refs@.len(),
            forall|k: int| 0 <= k < i ==> test_path_spec(#[trigger] views(refs@)[k]),
        decreases refs@.len() - i,
    {
        if !is_test_path(refs[i].as_str()) {
            assert(!test_path_spec(views(refs@)[i as int]));
            return true;
        }
        i = i + 1;
    }
    false
}

fn copy_hit(h: &Hit) -> (r: Hit)
    ensures
        hit_view(r) == hit_view(*h),
{
    Hit { id: crate::text::string_of(&crate::text::chars_of(h.id.as_str())), refs: crate::text::clone_strings(&h.refs) }
}

fn push_hit(v: &mut Vec<Hit>, h: &Hit)
    ensures
        hits_view(final(v)@) == hits_view(old(v)@).push(hit_view(*h)),
{
    let ghost pre = hits_view(v@);
    v.push(copy_hit(h));
    assert(hits_view(v@) =~= pre.push(hit_view(*h)));
}

fn is_cited(hits: &Vec<Hit>, id: &str) -> (b: bool)
    ensures
        b == cited(hits_view(hits@), id@),
{
    let mut i: usize = 0;
    while i < hits.len()
        invariant
            i <= hits@.len(),
            forall|k: int| 0 <= k < i ==> (#[trigger] hits_view(hits@)[k]).0 != id@,
        decreases hits@.len() - i,
    {
        if crate::text::str_eq(hits[i].id.as_str(), id) {
            assert(hits_view(hits@)[i as int].0 == id@);
            return true;
        }
        i = i + 1;
    }
    false
}

/// Sort the citations `hits` into the coverage buckets of `project`.
pub fn coverage_report(project: &Project, hits: &Vec<Hit>) -> (rep: CoverageReport)
    ensures
        coverage_of(rep, *project, hits_view(hits@)),
{
    let ghost rs = project.requirements.view();
    let ghost hv = hits_view(hits@);
    let mut referenced: Vec<Hit> = Vec::new();
    let mut test_only: Vec<Hit> = Vec::new();
    let mut ghosts: Vec<Hit> = Vec::new();
    let mut obsolete: Vec<Hit> = Vec::new();
    let mut i: usize = 0;
    while i < hits.len()
        invariant
            i <= hits@.len(),
            rs == project.requirements.view(),
            hv == hits_view(hits@),
            hits_view(referenced@) == in_bucket(rs, hv.take(i as int), 0),
            hits_view(test_only@) == in_bucket(rs, hv.take(i as int), 1),
            hits_view(ghosts@) == in_bucket(rs, hv.take(i as int), 2),
            hits_view(obsolete@) == in_bucket(rs, hv.take(i as int), 3),
        decreases hits@.len() - i,
    {
        assert(hv.take(i + 1).drop_last() =~= hv.take(i as int));
        assert(hv.take(i + 1).last() == hv[i as int]);
        let h = &hits[i];
        match project.requirements.get(h.id.as_str()) {
            Some(r) => {
                if matches!(r.status, Status::Obsolete) {
                    push_hit(&mut obsolete, h);
                } else if !any_impl(&h.refs) {
                    push_hit(&mut test_only, h);
                } else {
                    push_hit(&mut referenced, h);
                }
            },
            None => {
                push_hit(&mut ghosts, h);
            },
        }
        i = i + 1;
    }
    assert(hv.take(hits@.len() as int) =~= hv);
    let n = project.requirements.len();
    let mut orphans: Vec<String> = Vec::new();
    let mut drafts: Vec<String> = Vec::new();
    let mut j: usize = 0;
    while j < n
        invariant
            j <= n,
            n == rs.len(),
            rs == project.requirements.view(),
            hv == hits_view(hits@),
            views(orphans@) == uncited(rs.take(j as int), hv, false),
            views(drafts@) == uncited(rs.take(j as int), hv, true),
        decreases n - j,
    {
        assert(rs.take(j + 1).drop_last() =~= rs.take(j as int));
        assert(rs.take(j + 1).last() == rs[j as int]);
        let r = project.requirements.at(j);
        if !is_cited(hits, r.id.as_str()) {
            if matches!(r.status, Status::Draft) {
                let ghost b0 = views(drafts@);
                drafts.push(r.id.clone());
                assert(views(drafts@) =~= b0.push(r.id@));
            } else if !matches!(r.status, Status::Obsolete) {
                let ghost b0 = views(orphans@);
                orphans.push(r.id.clone());
                assert(views(orphans@) =~= b0.push(r.id@));
            }
        }
        j = j + 1;
    }
    assert(rs.take(n as int) =~= rs);
    CoverageReport {
        referenced,
        test_only,
        orphans,
        drafts_unmarked: drafts,
        ghosts,
        obsolete_referenced: obsolete,
    }
}

/// How many of `ids` `allow` does not list.
pub open spec fn unallowed(ids: Seq<Seq<char>>, allow: Seq<Seq<char>>) -> nat
    decreases ids.len(),
{
    if ids.len() == 0 {
        0
    } else {
        unallowed(ids.drop_last(), allow) + if allow.contains(ids.last()) { 0nat } else { 1nat }
    }
}

/// The number of findings that fail `--strict`: orphans not allowed by
/// `allow`, ghosts, and obsolete requirements still cited.
pub open spec fn strict_findings_spec(rep: CoverageReport, allow: Seq<Seq<char>>) -> nat {
    unallowed(views(rep.orphans@), allow) + rep.ghosts@.len() + rep.obsolete_referenced@.len()
}

/// Count the findings that fail `req coverage --strict`.
pub fn strict_findings(rep: &CoverageReport, allow: &Vec<String>) -> (n: usize)
    requires
        rep.orphans@.len() + rep.ghosts@.len() + rep.obsolete_referenced@.len() <= usize::MAX,
    ensures
        n == strict_findings_spec(*rep, views(allow@)),
{
    let ghost ov = views(rep.orphans@);
    let ghost al = views(allow@);
    let mut k: usize = 0;
    let mut i: usize = 0;
    while i < rep.orphans.len()
        invariant
            i <= rep.orphans@.len(),
            ov == views(rep.orphans@),
            al == views(allow@),
            k == unallowed(ov.take(i as int), al),
            k <= i,
        decreases rep.orphans@.len() - i,
    {
        assert(ov.take(i + 1).drop_last() =~= ov.take(i as int));
        assert(ov.take(i + 1).last() == ov[i as int]);
        if !contains_str(allow, rep.orphans[i].as_str()) {
            k = k + 1;
        }
        i = i + 1;
    }
    assert(ov.take(rep.orphans@.len() as int) =~= ov);
    k + rep.ghosts.len() + rep.obsolete_referenced.len()
}


// ---------------------------------------------------------------------------
// Collecting the markers
// ---------------------------------------------------------------------------

/// The place `path:line` of line number `n` (counting from 1).
pub open spec fn place(path: Seq<char>, n: nat) -> Seq<char> {
    path + ":"@ + dec_seq(n)
}

/// The ids cited on the lines `ls` of `path`, each with its place, in order.
pub open spec fn line_cites(path: Seq<char>, ls: Seq<Seq<char>>) -> Seq<(Seq<char>, Seq<char>)>
    decreases ls.len(),
{
    if ls.len() == 0 {
        Seq::empty()
    } else {
        let n = (ls.len() - 1) as nat;
        line_cites(path, ls.drop_last()) + matches_of(REQ_TOKEN@, ls.last()).map_values(|id: Seq<char>| (id, place(path, n + 1)))
    }
}

/// Every id cited in the sources, with its place, in order.
pub open spec fn source_cites(srcs: Seq<SourceText>) -> Seq<(Seq<char>, Seq<char>)>
    decreases srcs.len(),
{
    if srcs.len() == 0 {
        Seq::empty()
    } else {
        source_cites(srcs.drop_last()) + line_cites(srcs.last().path@, lines_of(srcs.last().text@))
    }
}

/// The places citing `id`, in order.
pub open spec fn places_of(cites: Seq<(Seq<char>, Seq<char>)>, id: Seq<char>) -> Seq<Seq<char>>
    decreases cites.len(),
{
    if cites.len() == 0 {
        Seq::empty()
    } else {
        let rest = places_of(cites.drop_last(), id);
        if cites.last().0 == id { rest.push(cites.last().1) } else { rest }
    }
}

/// The ids of a list of cites.
pub open spec fn cited_ids(cites: Seq<(Seq<char>, Seq<char>)>) -> Set<Seq<char>> {
    cites.map_values(|c: (Seq<char>, Seq<char>)| c.0).to_set()
}

fn cites_in(srcs: &Vec<SourceText>) -> (r: Vec<(String, String)>)
    ensures
        r@.map_values(|c: (String, String)| (c.0@, c.1@)) == source_cites(srcs@),
{
    let mut out: Vec<(String, String)> = Vec::new();
    let mut k: usize = 0;
    while k < srcs.len()
        invariant
            k <= srcs@.len(),
            out@.map_values(|c: (String, String)| (c.0@, c.1@)) == source_cites(srcs@.take(k as int)),
        decreases srcs@.len() - k,
    {
        let src = &srcs[k];
        let ls = lines(src.text.as_str());
        let ghost lv = views(ls@);
        let ghost before = out@.map_values(|c: (String, String)| (c.0@, c.1@));
        let mut n: usize = 0;
        while n < ls.len()
            invariant
                n <= ls@.len(),
                lv == views(ls@),
                out@.map_values(|c: (String, String)| (c.0@, c.1@)) == before + line_cites(src.path@, lv.take(n as int)),
            decreases ls@.len() - n,
        {
            let ids = matches_in(REQ_TOKEN, ls[n].as_str());
            let mut pl = src.path.clone();
            pl.append(":");
            let num = dec_string((n as u64) + 1);
            pl.append(num.as_str());
            let ghost mid = out@.map_values(|c: (String, String)| (c.0@, c.1@));
            let ghost m = matches_of(REQ_TOKEN@, lv[n as int]);
            let mut j: usize = 0;
            while j < ids.len()
                invariant
                    j <= ids@.len(),
                    views(ids@) == m,
                    pl@ == place(src.path@, (n + 1) as nat),
                    out@.map_values(|c: (String, String)| (c.0@, c.1@)) == mid + m.take(j as int).map_values(
                        |id: Seq<char>| (id, place(src.path@, (n + 1) as nat))),
                decreases ids@.len() - j,
            {
                let ghost pre = out@;
                out.push((ids[j].clone(), pl.clone()));
                proof {
                    assert(out@.map_values(|c: (String, String)| (c.0@, c.1@)) =~= pre.map_values(
                        |c: (String, String)| (c.0@, c.1@)).push((ids@[j as int]@, pl@)));
                    assert(m.take(j + 1).map_values(|id: Seq<char>| (id, place(src.path@, (n + 1) as nat))) =~= m.take(
                        j as int).map_values(|id: Seq<char>| (id, place(src.path@, (n + 1) as nat))).push(
                        (m[j as int], place(src.path@, (n + 1) as nat))));
                }
                j = j + 1;
            }
            proof {
                assert(m.take(m.len() as int) =~= m);
                assert(lv.take(n + 1).drop_last() =~= lv.take(n as int));
                assert(lv.take(n + 1).last() == lv[n as int]);
                assert(line_cites(src.path@, lv.take(n + 1)) == line_cites(src.path@, lv.take(n as int)) + m.map_values(
                    |id: Seq<char>| (id, place(src.path@, (n + 1) as nat))));
                assert(out@.map_values(|c: (String, String)| (c.0@, c.1@)) =~= before + line_cites(src.path@, lv.take(n + 1)));
            }
            n = n + 1;
        }
        proof {
            assert(lv.take(lv.len() as int) =~= lv);
            assert(srcs@.take(k + 1).drop_last() =~= srcs@.take(k as int));
            assert(srcs@.take(k + 1).last() == srcs@[k as int]);
        }
        k = k + 1;
    }
    assert(srcs@.take(srcs@.len() as int) =~= srcs@);
    out
}

/// Group the `REQ-NNNN` citations of the sources by id: one hit per cited
/// id, in id order, each with the places citing it (`path:line`, in source
/// and line order).
pub fn collect_hits(srcs: &Vec<SourceText>) -> (r: Vec<Hit>)
    ensures
        crate::sets::strictly_sorted(r@.map_values(|h: Hit| h.id@)),
        r@.map_values(|h: Hit| h.id@).to_set() == cited_ids(source_cites(srcs@)),
        forall|i: int| 0 <= i < r@.len() ==> views((#[trigger] r@[i]).refs@) == places_of(source_cites(srcs@), r@[i].id@),
{
    let cites = cites_in(srcs);
    let ghost cv = cites@.map_values(|c: (String, String)| (c.0@, c.1@));
    let mut ids: Vec<String> = Vec::new();
    let mut k: usize = 0;
    while k < cites.len()
        invariant
            k <= cites@.len(),
            cv == cites@.map_values(|c: (String, String)| (c.0@, c.1@)),
            crate::sets::strictly_sorted(views(ids@)),
            views(ids@).to_set() == cited_ids(cv.take(k as int)),
        decreases cites@.len() - k,
    {
        let ghost pre = views(ids@).to_set();
        crate::sets::set_insert(&mut ids, cites[k].0.clone());
        proof {
            assert(cv.take(k + 1).map_values(|c: (Seq<char>, Seq<char>)| c.0) =~= cv.take(k as int).map_values(
                |c: (Seq<char>, Seq<char>)| c.0).push(cv[k as int].0));
            cv.take(k as int).map_values(|c: (Seq<char>, Seq<char>)| c.0).lemma_push_to_set_commute(cv[k as int].0);
            assert(cited_ids(cv.take(k + 1)) =~= cited_ids(cv.take(k as int)).insert(cv[k as int].0));
        }
        k = k + 1;
    }
    assert(cv.take(cv.len() as int) =~= cv);
    let mut out: Vec<Hit> = Vec::new();
    let mut i: usize = 0;
    while i < ids.len()
        invariant
            i <= ids@.len(),
            cv == cites@.map_values(|c: (String, String)| (c.0@, c.1@)),
            out@.len() == i,
            forall|q: int| 0 <= q < i ==> (#[trigger] out@[q]).id@ == ids@[q]@,
            forall|q: int| 0 <= q < i ==> views((#[trigger] out@[q]).refs@) == places_of(cv, out@[q].id@),
        decreases ids@.len() - i,
    {
        let id = &ids[i];
        let mut refs: Vec<String> = Vec::new();
        let mut k: usize = 0;
        while k < cites.len()
            invariant
                k <= cites@.len(),
                cv == cites@.map_values(|c: (String, String)| (c.0@, c.1@)),
                views(refs@) == places_of(cv.take(k as int), id@),
            decreases cites@.len() - k,
        {
            let ghost pre = views(refs@);
            if crate::text::str_eq(cites[k].0.as_str(), id.as_str()) {
                refs.push(cites[k].1.clone());
            }
            proof {
                assert(cv.take(k + 1).drop_last() =~= cv.take(k as int));
                assert(cv.take(k + 1).last() == cv[k as int]);
                assert(views(refs@) =~= places_of(cv.take(k + 1), id@));
            }
            k = k + 1;
        }
        assert(cv.take(cv.len() as int) =~= cv);
        out.push(Hit { id: id.clone(), refs });
        i = i + 1;
    }
    assert(out@.map_values(|h: Hit| h.id@) =~= views(ids@));
    out
}

} // verus!
