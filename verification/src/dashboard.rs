//! Project-level summaries: the status report (`req status`), counts per
//! lifecycle status with the delivered share and the verified bucket's
//! provenance, and the session-start brief (`req brief`), a snapshot with
//! the suggested next requirement and the loose ends.
use vstd::prelude::*;

use crate::idmap::{keys_sorted, Keyed};
use crate::lint::{count_status, status_at};
use crate::markdown::{head_chars, head_of};
use crate::model::{Project, Requirement, Status};
use crate::next::{before, rank_of_priority, rank_of_status};
use crate::provenance::{classify, classify_spec, Provenance};
use crate::queries::defective;
use crate::text::{chars_of, contains_seq, contains_str, dec_seq, dec_string, join, join_seq, seq_lt, str_contains, string_of, views};

verus! {

// ---------------------------------------------------------------------------
// Counting
// ---------------------------------------------------------------------------

/// `r` carries every tag of `tags`.
pub open spec fn has_tags(r: Requirement, tags: Seq<Seq<char>>) -> bool {
    forall|t: int| 0 <= t < tags.len() ==> views(r.tags@).contains(#[trigger] tags[t])
}

/// The members of `rs` carrying every tag of `tags`, in order.
pub open spec fn scoped(rs: Seq<Requirement>, tags: Seq<Seq<char>>) -> Seq<Requirement>
    decreases rs.len(),
{
    if rs.len() == 0 {
        Seq::empty()
    } else {
        let rest = scoped(rs.drop_last(), tags);
        if has_tags(rs.last(), tags) { rest.push(rs.last()) } else { rest }
    }
}

/// How many of `rs` are Verified with a genuine dossier.
pub open spec fn count_genuine(rs: Seq<Requirement>) -> nat
    decreases rs.len(),
{
    if rs.len() == 0 {
        0
    } else {
        count_genuine(rs.drop_last()) + if rs.last().status == Status::Verified
            && classify_spec(rs.last().validation, None) == Provenance::Genuine { 1nat } else { 0nat }
    }
}

/// The ids of the defective members of `rs` (Verified, latest evidence a
/// failure), in order.
pub open spec fn defective_in(rs: Seq<Requirement>) -> Seq<Seq<char>>
    decreases rs.len(),
{
    if rs.len() == 0 {
        Seq::empty()
    } else {
        let rest = defective_in(rs.drop_last());
        if defective(rs.last()) { rest.push(rs.last().id@) } else { rest }
    }
}

proof fn lemma_counts_bounded(rs: Seq<Requirement>)
    ensures
        count_status(rs, Status::Implemented) + count_status(rs, Status::Verified) <= rs.len(),
        count_status(rs, Status::Obsolete) <= rs.len(),
        count_genuine(rs) <= count_status(rs, Status::Verified),
    decreases rs.len(),
{
    if rs.len() > 0 {
        lemma_counts_bounded(rs.drop_last());
    }
}

fn has_all_tags(r: &Requirement, tags: &Vec<String>) -> (b: bool)
    ensures
        b == has_tags(*r, views(tags@)),
{
    let mut t: usize = 0;
    while t < tags.len()
        invariant
            t <= tags@.len(),
            forall|k: int| 0 <= k < t ==> views(r.tags@).contains(#[trigger] views(tags@)[k]),
        decreases tags@.len() - t,
    {
        if !contains_str(&r.tags, tags[t].as_str()) {
            assert(!views(r.tags@).contains(views(tags@)[t as int]));
            return false;
        }
        t = t + 1;
    }
    true
}

/// The numbers of `req status`, over the requirements in scope.
pub struct StatusSummary {
    pub total: usize,
    /// Requirements per status: draft, proposed, approved, implemented,
    /// verified, obsolete.
    pub by_status: Vec<usize>,
    /// The non-obsolete requirements, and those of them implemented or
    /// verified: the delivered share is `done / non_obsolete`.
    pub non_obsolete: usize,
    pub done: usize,
    /// The verified requirements resting on a genuine dossier, and the rest.
    pub verified_genuine: usize,
    pub verified_exempt: usize,
    /// The verified requirements whose latest test record failed.
    pub defective: Vec<String>,
}

/// `s` summarises the requirements of `p` carrying every tag of `tags`.
pub open spec fn summary_of(s: StatusSummary, p: Project, tags: Seq<Seq<char>>) -> bool {
    let sc = scoped(p.requirements.view(), tags);
    &&& s.total == sc.len()
    &&& s.by_status@.len() == 6
    &&& forall|i: int| 0 <= i < 6 ==> #[trigger] s.by_status@[i] == count_status(sc, status_at(i))
    &&& s.non_obsolete == sc.len() - count_status(sc, Status::Obsolete)
    &&& s.done == count_status(sc, Status::Implemented) + count_status(sc, Status::Verified)
    &&& s.verified_genuine == count_genuine(sc)
    &&& s.verified_exempt == count_status(sc, Status::Verified) - count_genuine(sc)
    &&& views(s.defective@) == defective_in(sc)
}

/// Summarise the project's status (`req status`), scoped to the
/// requirements carrying every tag of `tags`.
pub fn status_summary(project: &Project, tags: &Vec<String>) -> (s: StatusSummary)
    ensures
        summary_of(s, *project, views(tags@)),
{
    let ghost rs = project.requirements.view();
    let ghost tv = views(tags@);
    let n = project.requirements.len();
    let mut by_status: Vec<usize> = vec![0, 0, 0, 0, 0, 0];
    let mut total: usize = 0;
    let mut genuine: usize = 0;
    let mut bad: Vec<String> = Vec::new();
    let mut i: usize = 0;
    while i < n
        invariant
            n == rs.len(),
            rs == project.requirements.view(),
            tv == views(tags@),
            i <= n,
            total == scoped(rs.take(i as int), tv).len(),
            total <= i,
            by_status@.len() == 6,
            forall|k: int| 0 <= k < 6 ==> #[trigger] by_status@[k] == count_status(scoped(rs.take(i as int), tv), status_at(k)),
            forall|k: int| 0 <= k < 6 ==> #[trigger] by_status@[k] <= total,
            genuine == count_genuine(scoped(rs.take(i as int), tv)),
            genuine <= total,
            views(bad@) == defective_in(scoped(rs.take(i as int), tv)),
        decreases n - i,
    {
        let ghost pre = rs.take(i as int);
        assert(rs.take(i + 1).drop_last() =~= pre);
        assert(rs.take(i + 1).last() == rs[i as int]);
        let r = project.requirements.at(i);
        if has_all_tags(r, tags) {
            let ghost sp = scoped(pre, tv);
            assert(scoped(rs.take(i + 1), tv) == sp.push(*r));
            assert(sp.push(*r).drop_last() =~= sp);
            total = total + 1;
            let si: usize = match r.status {
                Status::Draft => 0,
                Status::Proposed => 1,
                Status::Approved => 2,
                Status::Implemented => 3,
                Status::Verified => 4,
                Status::Obsolete => 5,
            };
            let c = by_status[si];
            by_status.set(si, c + 1);
            if matches!(r.status, Status::Verified) {
                if matches!(classify(r.validation.as_ref(), None), Provenance::Genuine) {
                    genuine = genuine + 1;
                }
                if r.tests.len() > 0 && matches!(r.tests[r.tests.len() - 1].outcome, crate::model::TestOutcome::Fail) {
                    let ghost b0 = views(bad@);
                    bad.push(r.id.clone());
                    assert(views(bad@) =~= b0.push(r.id@));
                }
            }
        }
        i = i + 1;
    }
    assert(rs.take(n as int) =~= rs);
    let ghost sc = scoped(rs, tv);
    proof {
        lemma_counts_bounded(sc);
        assert(by_status@[5] == count_status(sc, status_at(5)));
        assert(by_status@[3] == count_status(sc, status_at(3)));
        assert(by_status@[4] == count_status(sc, status_at(4)));
    }
    let non_obsolete = total - by_status[5];
    let done = by_status[3] + by_status[4];
    let exempt = by_status[4] - genuine;
    StatusSummary {
        total,
        by_status,
        non_obsolete,
        done,
        verified_genuine: genuine,
        verified_exempt: exempt,
        defective: bad,
    }
}

// ---------------------------------------------------------------------------
// The brief
// ---------------------------------------------------------------------------

/// Open work: neither verified nor obsolete.
pub open spec fn active(r: Requirement) -> bool {
    r.status != Status::Verified && r.status != Status::Obsolete
}

/// The ids of the members of `rs` with status `st`, in order.
pub open spec fn ids_with(rs: Seq<Requirement>, st: Status) -> Seq<Seq<char>>
    decreases rs.len(),
{
    if rs.len() == 0 {
        Seq::empty()
    } else {
        let rest = ids_with(rs.drop_last(), st);
        if rs.last().status == st { rest.push(rs.last().id@) } else { rest }
    }
}

/// A snapshot of the project for the brief.
pub struct Snapshot {
    pub name: String,
    pub total: usize,
    /// Requirements per status: draft, proposed, approved, implemented,
    /// verified, obsolete.
    pub by_status: Vec<usize>,
    /// The delivered share is `done / non_obsolete`.
    pub non_obsolete: usize,
    pub done: usize,
    /// The suggested next requirement: id, title, status and priority.
    pub next_pick: Option<(String, String, String, String)>,
    pub implemented_unverified: Vec<String>,
    pub drafts: Vec<String>,
    /// How the pre-commit hook is installed, if it is.
    pub hook_mode: Option<String>,
    /// When the project file last changed, as git tells it.
    pub last_change: Option<String>,
}

/// `x` is open work that comes before every other open requirement of
/// `rs` (highest priority, then least advanced status, then smallest id).
pub open spec fn first_open(rs: Seq<Requirement>, x: Requirement) -> bool {
    &&& rs.contains(x)
    &&& active(x)
    &&& forall|i: int| 0 <= i < rs.len() && active(#[trigger] rs[i]) && rs[i] != x ==> before(x, rs[i])
}

/// `s` is the snapshot of `p` with the given hook mode and last change.
pub open spec fn snapshot_of(s: Snapshot, p: Project, hook_mode: Option<String>, last_change: Option<String>) -> bool {
    let rs = p.requirements.view();
    &&& s.name == p.name
    &&& s.total == rs.len()
    &&& s.by_status@.len() == 6
    &&& forall|i: int| 0 <= i < 6 ==> #[trigger] s.by_status@[i] == count_status(rs, status_at(i))
    &&& s.non_obsolete == rs.len() - count_status(rs, Status::Obsolete)
    &&& s.done == count_status(rs, Status::Implemented) + count_status(rs, Status::Verified)
    &&& match s.next_pick {
        None => forall|i: int| 0 <= i < rs.len() ==> !active(#[trigger] rs[i]),
        Some(t) => exists|x: Requirement| #[trigger] first_open(rs, x) && t.0@ == x.id@ && t.1@ == x.title@
            && t.2@ == x.status.name() && t.3@ == x.priority.name(),
    }
    &&& views(s.implemented_unverified@) == ids_with(rs, Status::Implemented)
    &&& views(s.drafts@) == ids_with(rs, Status::Draft)
    &&& s.hook_mode == hook_mode
    &&& s.last_change == last_change
}

fn first_open_req(project: &Project) -> (r: Option<&Requirement>)
    ensures
        match r {
            None => forall|i: int| 0 <= i < project.requirements.view().len() ==> !active(#[trigger] project.requirements.view()[i]),
            Some(x) => first_open(project.requirements.view(), *x),
        },
{
    let ghost s = project.requirements.view();
    let n = project.requirements.len();
    let mut best: Option<usize> = None;
    let mut i: usize = 0;
    while i < n
        invariant
            n == s.len(),
            s == project.requirements.view(),
            keys_sorted(s),
            i <= n,
            match best {
                None => forall|k: int| 0 <= k < i ==> !active(#[trigger] s[k]),
                Some(b) => b < i && active(s[b as int])
                    && forall|k: int| 0 <= k < i && active(#[trigger] s[k]) && k != b ==> before(s[b as int], s[k]),
            },
        decreases n - i,
    {
        let r = project.requirements.at(i);
        if !matches!(r.status, Status::Verified) && !matches!(r.status, Status::Obsolete) {
            match best {
                None => best = Some(i),
                Some(b) => {
                    let cur = project.requirements.at(b);
                    let pc = rank_of_priority(cur.priority);
                    let pr = rank_of_priority(r.priority);
                    let sc = rank_of_status(cur.status);
                    let sr = rank_of_status(r.status);
                    proof {
                        assert(seq_lt(s[b as int].key(), s[i as int].key()));
                    }
                    if pr < pc || (pr == pc && sr < sc) {
                        proof {
                            assert forall|k: int| 0 <= k < i + 1 && active(#[trigger] s[k]) && k != i
                                implies before(s[i as int], s[k]) by {
                                if k != b {
                                    assert(before(s[b as int], s[k]));
                                    if seq_lt(s[b as int].id@, s[k].id@) && seq_lt(s[i as int].id@, s[b as int].id@) {
                                        crate::text::lemma_lt_transitive(s[i as int].id@, s[b as int].id@, s[k].id@);
                                    }
                                }
                            }
                        }
                        best = Some(i);
                    } else {
                        proof {
                            assert(before(s[b as int], s[i as int]));
                        }
                    }
                },
            }
        }
        i = i + 1;
    }
    match best {
        None => None,
        Some(b) => {
            proof {
                assert(s.contains(s[b as int]));
                assert forall|k: int| 0 <= k < s.len() && active(#[trigger] s[k]) && s[k] != s[b as int]
                    implies before(s[b as int], s[k]) by {
                    assert(k != b);
                }
            }
            Some(project.requirements.at(b))
        },
    }
}

/// Take the snapshot of the project for the brief; `hook_mode` and
/// `last_change` are what the repository shows.
pub fn snapshot(project: &Project, hook_mode: Option<String>, last_change: Option<String>) -> (s: Snapshot)
    ensures
        snapshot_of(s, *project, hook_mode, last_change),
{
    let all: Vec<String> = Vec::new();
    let sum = status_summary(project, &all);
    let ghost rs = project.requirements.view();
    proof {
        assert(views(all@) =~= Seq::<Seq<char>>::empty());
        lemma_scoped_all(rs);
    }
    let next_pick = match first_open_req(project) {
        Some(r) => Some((r.id.clone(), r.title.clone(), string_of(&chars_of(r.status.as_str())),
            string_of(&chars_of(r.priority.as_str())))),
        None => None,
    };
    let n = project.requirements.len();
    let mut iu: Vec<String> = Vec::new();
    let mut drafts: Vec<String> = Vec::new();
    let mut i: usize = 0;
    while i < n
        invariant
            n == rs.len(),
            rs == project.requirements.view(),
            i <= n,
            views(iu@) == ids_with(rs.take(i as int), Status::Implemented),
            views(drafts@) == ids_with(rs.take(i as int), Status::Draft),
        decreases n - i,
    {
        assert(rs.take(i + 1).drop_last() =~= rs.take(i as int));
        assert(rs.take(i + 1).last() == rs[i as int]);
        let r = project.requirements.at(i);
        if matches!(r.status, Status::Implemented) {
            let ghost b0 = views(iu@);
            iu.push(r.id.clone());
            assert(views(iu@) =~= b0.push(r.id@));
        }
        if matches!(r.status, Status::Draft) {
            let ghost b0 = views(drafts@);
            drafts.push(r.id.clone());
            assert(views(drafts@) =~= b0.push(r.id@));
        }
        i = i + 1;
    }
    assert(rs.take(n as int) =~= rs);
    Snapshot {
        name: project.name.clone(),
        total: sum.total,
        by_status: sum.by_status,
        non_obsolete: sum.non_obsolete,
        done: sum.done,
        next_pick,
        implemented_unverified: iu,
        drafts,
        hook_mode,
        last_change,
    }
}

proof fn lemma_scoped_all(rs: Seq<Requirement>)
    ensures
        scoped(rs, Seq::empty()) == rs,
    decreases rs.len(),
{
    if rs.len() > 0 {
        lemma_scoped_all(rs.drop_last());
        assert(rs.drop_last().push(rs.last()) =~= rs);
    }
}

/// How the pre-commit hook's text says it was installed.
pub open spec fn hook_mode_spec(body: Seq<char>) -> Option<Seq<char>> {
    if contains_seq(body, "# mode: strict"@) {
        Some("strict"@)
    } else if contains_seq(body, "# mode: default"@) {
        Some("default"@)
    } else if contains_seq(body, "# managed-by: req-hooks"@) {
        Some("managed (mode unknown)"@)
    } else {
        None
    }
}

/// The installation mode the pre-commit hook's text names, if it is ours.
pub fn hook_mode_of(body: &str) -> (r: Option<String>)
    ensures
        match r { Some(m) => Some(m@), None => None } == hook_mode_spec(body@),
{
    if str_contains(body, "# mode: strict") {
        Some(string_of(&chars_of("strict")))
    } else if str_contains(body, "# mode: default") {
        Some(string_of(&chars_of("default")))
    } else if str_contains(body, "# managed-by: req-hooks") {
        Some(string_of(&chars_of("managed (mode unknown)")))
    } else {
        None
    }
}

// ---------------------------------------------------------------------------
// Rendering the brief
// ---------------------------------------------------------------------------

/// The headline of the brief, with the delivered share rendered as `pct`.
pub open spec fn brief_headline(s: Snapshot, pct: Seq<char>) -> Seq<char> {
    "req brief: "@ + s.name@ + " — "@ + dec_seq(s.total as nat) + " req(s), "@ + pct + "% delivered"@
        + (if s.by_status@.len() > 0 && s.by_status@[0] > 0 { ", "@ + dec_seq(s.by_status@[0] as nat) + " draft"@ } else { Seq::empty() })
        + ".\n"@
}

/// The brief's line on the next pick.
pub open spec fn brief_next(s: Snapshot) -> Seq<char> {
    match s.next_pick {
        Some(t) => "  next : "@ + t.0@ + " ["@ + t.3@ + " / "@ + t.2@ + "] — "@ + head_chars(t.1@, 60) + "\n"@,
        None => "  next : nothing queued. Add one with `req add` or relax filters with `req next`.\n"@,
    }
}

/// The first three of `v` (all of it when shorter).
pub open spec fn first_three(v: Seq<Seq<char>>) -> Seq<Seq<char>> {
    if v.len() <= 3 { v } else { v.take(3) }
}

/// The brief's line on the implemented but unverified requirements.
pub open spec fn brief_loose(s: Snapshot) -> Seq<char> {
    let iu = views(s.implemented_unverified@);
    if iu.len() == 0 {
        Seq::empty()
    } else {
        "  loose: "@ + dec_seq(iu.len()) + " implemented but not verified — "@ + join_seq(first_three(iu), ", "@)
            + (if iu.len() > 3 { " +"@ + dec_seq((iu.len() - 3) as nat) + " more"@ } else { Seq::empty() }) + "\n"@
    }
}

/// The short brief, with the delivered share already rendered as `pct`.
pub open spec fn short_brief(s: Snapshot, pct: Seq<char>) -> Seq<char> {
    brief_headline(s, pct) + brief_next(s) + brief_loose(s)
        + "        `req brief --full` for the dashboard · `req next` to start work\n"@
}

impl Snapshot {
    fn push_headline(&self, out: &mut String, pct: &str)
        ensures
            final(out)@ == old(out)@ + brief_headline(*self, pct@),
    {
        let ghost b = out@;
        out.append("req brief: ");
        out.append(self.name.as_str());
        out.append(" — ");
        out.append(dec_string(self.total as u64).as_str());
        out.append(" req(s), ");
        out.append(pct);
        out.append("% delivered");
        let ghost b1 = out@;
        if self.by_status.len() > 0 && self.by_status[0] > 0 {
            out.append(", ");
            out.append(dec_string(self.by_status[0] as u64).as_str());
            out.append(" draft");
        }
        out.append(".\n");
        assert(out@ =~= b + brief_headline(*self, pct@));
    }

    fn push_next(&self, out: &mut String)
        ensures
            final(out)@ == old(out)@ + brief_next(*self),
    {
        let ghost b = out@;
        match &self.next_pick {
            Some(t) => {
                out.append("  next : ");
                out.append(t.0.as_str());
                out.append(" [");
                out.append(t.3.as_str());
                out.append(" / ");
                out.append(t.2.as_str());
                out.append("] — ");
                out.append(head_of(t.1.as_str(), 60).as_str());
                out.append("\n");
            },
            None => out.append("  next : nothing queued. Add one with `req add` or relax filters with `req next`.\n"),
        }
        assert(out@ =~= b + brief_next(*self));
    }

    fn push_loose(&self, out: &mut String)
        ensures
            final(out)@ == old(out)@ + brief_loose(*self),
    {
        let ghost b = out@;
        let ghost iu = views(self.implemented_unverified@);
        let n = self.implemented_unverified.len();
        if n == 0 {
            return;
        }
        let mut first: Vec<String> = Vec::new();
        let mut k: usize = 0;
        while k < n && k < 3
            invariant
                n == self.implemented_unverified@.len(),
                iu == views(self.implemented_unverified@),
                k <= n,
                k <= 3,
                views(first@) == iu.take(k as int),
            decreases 3 - k,
        {
            let ghost b0 = views(first@);
            let x = string_of(&chars_of(self.implemented_unverified[k].as_str()));
            first.push(x);
            assert(views(first@) =~= b0.push(iu[k as int]));
            assert(iu.take(k + 1) =~= iu.take(k as int).push(iu[k as int]));
            k = k + 1;
        }
        if n <= 3 {
            assert(iu.take(n as int) =~= iu);
        }
        assert(views(first@) == first_three(iu));
        out.append("  loose: ");
        out.append(dec_string(n as u64).as_str());
        out.append(" implemented but not verified — ");
        out.append(join(&first, ", ").as_str());
        let ghost b1 = out@;
        if n > 3 {
            out.append(" +");
            out.append(dec_string((n - 3) as u64).as_str());
            out.append(" more");
        }
        out.append("\n");
        assert(out@ =~= b + brief_loose(*self));
    }

    /// The short brief: the headline, the next pick and the loose ends;
    /// `pct` is the delivered share as it is to be shown.
    pub fn to_short(&self, pct: &str) -> (out: String)
        ensures
            out@ == short_brief(*self, pct@),
    {
        let mut out = String::new();
        self.push_headline(&mut out, pct);
        self.push_next(&mut out);
        self.push_loose(&mut out);
        out.append("        `req brief --full` for the dashboard · `req next` to start work\n");
        out
    }
}

/// A status name right-aligned in twelve columns.
pub open spec fn padded_label(i: int) -> Seq<char> {
    if i == 0 {
        "       draft"@
    } else if i == 1 {
        "    proposed"@
    } else if i == 2 {
        "    approved"@
    } else if i == 3 {
        " implemented"@
    } else if i == 4 {
        "    verified"@
    } else {
        "    obsolete"@
    }
}

fn padded_label_str(i: usize) -> (r: &'static str)
    ensures
        r@ == padded_label(i as int),
{
    if i == 0 {
        "       draft"
    } else if i == 1 {
        "    proposed"
    } else if i == 2 {
        "    approved"
    } else if i == 3 {
        " implemented"
    } else if i == 4 {
        "    verified"
    } else {
        "    obsolete"
    }
}

/// The breakdown lines of the statuses below `n` that have members.
pub open spec fn breakdown(bs: Seq<usize>, n: int) -> Seq<char>
    decreases n,
{
    if n <= 0 {
        Seq::empty()
    } else {
        breakdown(bs, n - 1) + if bs[n - 1] > 0 {
            "  - "@ + padded_label(n - 1) + ": "@ + dec_seq(bs[n - 1] as nat) + "\n"@
        } else {
            Seq::empty()
        }
    }
}

/// Each id of `ids` the project holds, with its title.
pub open spec fn titled_lines(ids: Seq<Seq<char>>, p: Project) -> Seq<char>
    decreases ids.len(),
{
    if ids.len() == 0 {
        Seq::empty()
    } else {
        titled_lines(ids.drop_last(), p) + match crate::idmap::lookup(p.requirements.view(), ids.last()) {
            Some(r) => "  - "@ + ids.last() + " — "@ + r.title@ + "\n"@,
            None => Seq::empty(),
        }
    }
}

/// The dashboard's heading and status breakdown.
pub open spec fn full_head(s: Snapshot, pct: Seq<char>) -> Seq<char> {
    "# req brief — "@ + s.name@ + "\n\n"@ + "**"@ + dec_seq(s.total as nat) + " requirements · "@ + pct
        + "% delivered**\n\n"@ + "## Status breakdown\n\n"@ + breakdown(s.by_status@, 6) + "\n"@
}

/// The dashboard's suggested next requirement.
pub open spec fn full_next(s: Snapshot) -> Seq<char> {
    "## Suggested next\n\n"@ + match s.next_pick {
        Some(t) => "  **"@ + t.0@ + "** — "@ + t.1@ + "\n  status: "@ + t.2@ + " · priority: "@ + t.3@ + "\n"@,
        None => "  nothing queued.\n"@,
    } + "\n"@
}

/// The dashboard's drafts and implemented-but-unverified sections.
pub open spec fn full_lists(s: Snapshot, p: Project) -> Seq<char> {
    let d = views(s.drafts@);
    let iu = views(s.implemented_unverified@);
    (if d.len() == 0 { Seq::empty() } else {
        "## Drafts ("@ + dec_seq(d.len()) + ")\n\n"@ + titled_lines(d, p) + "\n"@
    }) + (if iu.len() == 0 { Seq::empty() } else {
        "## Implemented but not Verified ("@ + dec_seq(iu.len()) + ")\n\n"@
            + "  next step on each: `req verify <id> --by inspection --notes \"...\" --promote`\n\n"@
            + titled_lines(iu, p) + "\n"@
    })
}

/// The dashboard's tooling section.
pub open spec fn full_tooling(s: Snapshot) -> Seq<char> {
    "## Tooling\n\n"@ + "  pre-commit hook: "@ + (match s.hook_mode { Some(m) => m@, None => "not installed"@ }) + "\n"@
        + "  last spec change: "@ + (match s.last_change { Some(c) => c@, None => "(no git history)"@ }) + "\n"@
        + "\n  `req lint` for quality audit · `req review` for PR-style report\n"@
}

/// The full brief (the dashboard), with the delivered share rendered as
/// `pct`.
pub open spec fn full_brief(s: Snapshot, p: Project, pct: Seq<char>) -> Seq<char> {
    full_head(s, pct) + full_next(s) + full_lists(s, p) + full_tooling(s)
}

fn push_titled(out: &mut String, ids: &Vec<String>, p: &Project)
    ensures
        final(out)@ == old(out)@ + titled_lines(views(ids@), *p),
{
    let ghost b = out@;
    let mut i: usize = 0;
    while i < ids.len()
        invariant
            i <= ids@.len(),
            out@ == b + titled_lines(views(ids@).take(i as int), *p),
        decreases ids@.len() - i,
    {
        assert(views(ids@).take(i + 1).drop_last() =~= views(ids@).take(i as int));
        if let Some(r) = p.requirements.get(ids[i].as_str()) {
            out.append("  - ");
            out.append(ids[i].as_str());
            out.append(" — ");
            out.append(r.title.as_str());
            out.append("\n");
        }
        i = i + 1;
    }
    assert(views(ids@).take(ids@.len() as int) =~= views(ids@));
}

impl Snapshot {
    fn push_full_head(&self, out: &mut String, pct: &str)
        requires
            self.by_status@.len() == 6,
        ensures
            final(out)@ == old(out)@ + full_head(*self, pct@),
    {
        let ghost b = out@;
        out.append("# req brief — ");
        out.append(self.name.as_str());
        out.append("\n\n");
        out.append("**");
        out.append(dec_string(self.total as u64).as_str());
        out.append(" requirements · ");
        out.append(pct);
        out.append("% delivered**\n\n");
        out.append("## Status breakdown\n\n");
        let ghost b1 = out@;
        let mut i: usize = 0;
        while i < 6
            invariant
                i <= 6,
                self.by_status@.len() == 6,
                out@ == b1 + breakdown(self.by_status@, i as int),
            decreases 6 - i,
        {
            if self.by_status[i] > 0 {
                out.append("  - ");
                out.append(padded_label_str(i));
                out.append(": ");
                out.append(dec_string(self.by_status[i] as u64).as_str());
                out.append("\n");
            }
            i = i + 1;
        }
        out.append("\n");
        assert(out@ =~= b + full_head(*self, pct@));
    }

    fn push_full_next(&self, out: &mut String)
        ensures
            final(out)@ == old(out)@ + full_next(*self),
    {
        let ghost b = out@;
        out.append("## Suggested next\n\n");
        match &self.next_pick {
            Some(t) => {
                out.append("  **");
                out.append(t.0.as_str());
                out.append("** — ");
                out.append(t.1.as_str());
                out.append("\n  status: ");
                out.append(t.2.as_str());
                out.append(" · priority: ");
                out.append(t.3.as_str());
                out.append("\n");
            },
            None => out.append("  nothing queued.\n"),
        }
        out.append("\n");
        assert(out@ =~= b + full_next(*self));
    }

    fn push_full_lists(&self, out: &mut String, p: &Project)
        ensures
            final(out)@ == old(out)@ + full_lists(*self, *p),
    {
        let ghost b = out@;
        if self.drafts.len() > 0 {
            out.append("## Drafts (");
            out.append(dec_string(self.drafts.len() as u64).as_str());
            out.append(")\n\n");
            push_titled(out, &self.drafts, p);
            out.append("\n");
        }
        let ghost b1 = out@;
        if self.implemented_unverified.len() > 0 {
            out.append("## Implemented but not Verified (");
            out.append(dec_string(self.implemented_unverified.len() as u64).as_str());
            out.append(")\n\n");
            out.append("  next step on each: `req verify <id> --by inspection --notes \"...\" --promote`\n\n");
            push_titled(out, &self.implemented_unverified, p);
            out.append("\n");
        }
        assert(out@ =~= b + full_lists(*self, *p));
    }

    fn push_tooling(&self, out: &mut String)
        ensures
            final(out)@ == old(out)@ + full_tooling(*self),
    {
        let ghost b = out@;
        out.append("## Tooling\n\n");
        out.append("  pre-commit hook: ");
        match &self.hook_mode {
            Some(m) => out.append(m.as_str()),
            None => out.append("not installed"),
        }
        out.append("\n");
        out.append("  last spec change: ");
        match &self.last_change {
            Some(c) => out.append(c.as_str()),
            None => out.append("(no git history)"),
        }
        out.append("\n");
        out.append("\n  `req lint` for quality audit · `req review` for PR-style report\n");
        assert(out@ =~= b + full_tooling(*self));
    }

    /// The dashboard: status breakdown, suggested next, drafts,
    /// implemented-but-unverified requirements and tooling; `pct` is the
    /// delivered share as it is to be shown.
    pub fn to_full(&self, project: &Project, pct: &str) -> (out: String)
        requires
            self.by_status@.len() == 6,
        ensures
            out@ == full_brief(*self, *project, pct@),
    {
        let mut out = String::new();
        self.push_full_head(&mut out, pct);
        self.push_full_next(&mut out);
        self.push_full_lists(&mut out, project);
        self.push_tooling(&mut out);
        out
    }
}

} // verus!
