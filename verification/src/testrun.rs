//! `req test run`: read a test run's output, group the verdicts by the
//! requirement each test names, and record one piece of automated evidence
//! per requirement (optionally promoting those with fresh passing evidence).
//! Running the command and reading files is the caller's part; the text it
//! produced, the test-name map and the source files come in as values.
use vstd::prelude::*;

use crate::model::{entry_records, history, ActionContext, EvidenceKind, Project, Requirement, Status, TestOutcome, TestRecord};
use crate::review::REQ_TOKEN;
use crate::idmap::{has_key, keys_sorted, lemma_insert_lookup, lookup, IdMap, Keyed};
use crate::patterns::{captures_in, captures_of, group_at, group_views, matches_in, matches_of, opt_views};
use crate::text::{
    chars_of, contains, contains_seq, contains_str, dec_seq, dec_string, join, join_seq, lines,
    lines_of, seq_lt, string_of, views,
};

verus! {

/// A test result line of `cargo test`: the test's name (group 1), the four
/// digits of the requirement it names (group 2) and the verdict (group 3).
pub const TEST_LINE: &'static str = "(?m)^test\\s+(?:[\\w:]+::)?(req_(\\d{4})\\w*)\\s+\\.\\.\\.\\s+(ok|FAILED|ignored)";

/// A verdict event: (requirement id, test name, verdict `ok`/`FAILED`/`ignored`).
pub type Event = (Seq<char>, Seq<char>, Seq<char>);

/// The event one `TEST_LINE` match reports.
pub open spec fn cargo_event(m: Seq<Option<Seq<char>>>) -> Option<Event> {
    match (group_at(m, 1), group_at(m, 2), group_at(m, 3)) {
        (Some(n), Some(d), Some(v)) => Some(("REQ-"@ + d, n, v)),
        _ => None,
    }
}

pub open spec fn cargo_events_from(ms: Seq<Seq<Option<Seq<char>>>>) -> Seq<Event>
    decreases ms.len(),
{
    if ms.len() == 0 {
        Seq::empty()
    } else {
        let rest = cargo_events_from(ms.drop_last());
        match cargo_event(ms.last()) {
            Some(e) => rest.push(e),
            None => rest,
        }
    }
}

/// The events of the `req_NNNN_*` test lines in a run's output, in order.
pub open spec fn cargo_events(text: Seq<char>) -> Seq<Event> {
    cargo_events_from(captures_of(TEST_LINE@, text))
}

/// The verdict a generic reporter's line shows, if any: a failure word
/// first, then a pass word, then a skip word.
pub open spec fn line_verdict(line: Seq<char>) -> Option<Seq<char>> {
    if contains_seq(line, "FAILED"@) || contains_seq(line, "FAIL"@) {
        Some("FAILED"@)
    } else if contains_seq(line, " ok"@) || contains_seq(line, "PASS"@) || contains_seq(line, "pass"@) {
        Some("ok"@)
    } else if contains_seq(line, "ignored"@) || contains_seq(line, "SKIP"@) || contains_seq(line, "skip"@) {
        Some("ignored"@)
    } else {
        None
    }
}

/// The verdict of the first line that names test `name` and shows one.
pub open spec fn first_verdict(name: Seq<char>, ls: Seq<Seq<char>>) -> Option<Seq<char>>
    decreases ls.len(),
{
    if ls.len() == 0 {
        None
    } else if contains_seq(ls[0], name) && line_verdict(ls[0]) is Some {
        line_verdict(ls[0])
    } else {
        first_verdict(name, ls.drop_first())
    }
}

/// The events a test-name map yields: for each mapped test (in the map's
/// order) whose verdict shows, one event per requirement it maps to.
pub open spec fn map_events(map: Seq<(Seq<char>, Seq<Seq<char>>)>, ls: Seq<Seq<char>>) -> Seq<Event>
    decreases map.len(),
{
    if map.len() == 0 {
        Seq::empty()
    } else {
        let rest = map_events(map.drop_last(), ls);
        let name = map.last().0;
        match first_verdict(name, ls) {
            Some(v) => rest + map.last().1.map_values(|id: Seq<char>| (id, name, v)),
            None => rest,
        }
    }
}

/// One entry of a test-name map: a test and the requirements it verifies.
pub struct MapEntry {
    pub test: String,
    pub ids: Vec<String>,
}

pub open spec fn map_view(m: Seq<MapEntry>) -> Seq<(Seq<char>, Seq<Seq<char>>)> {
    m.map_values(|e: MapEntry| (e.test@, views(e.ids@)))
}

/// Every verdict event of a run: the `req_NNNN_*` test lines, then the
/// mapped tests.
pub open spec fn all_events(text: Seq<char>, map: Seq<(Seq<char>, Seq<Seq<char>>)>) -> Seq<Event> {
    cargo_events(text) + map_events(map, lines_of(text))
}

pub struct Ev {
    pub id: String,
    pub name: String,
    pub verdict: String,
}

pub open spec fn ev_view(e: Ev) -> Event {
    (e.id@, e.name@, e.verdict@)
}

pub open spec fn evs_view(v: Seq<Ev>) -> Seq<Event> {
    v.map_values(|e: Ev| ev_view(e))
}

fn some_str(o: &Option<String>) -> (r: Option<String>)
    ensures
        match *o {
            Some(s) => r is Some && r->Some_0@ == s@,
            None => r is None,
        },
{
    match o {
        Some(s) => Some(s.clone()),
        None => None,
    }
}

fn group(m: &Vec<Option<String>>, i: usize) -> (r: Option<String>)
    ensures
        match group_at(opt_views(m@), i as int) {
            Some(s) => r is Some && r->Some_0@ == s,
            None => r is None,
        },
{
    if i < m.len() {
        some_str(&m[i])
    } else {
        None
    }
}

fn cargo_lines(text: &str, out: &mut Vec<Ev>)
    ensures
        evs_view(final(out)@) == evs_view(old(out)@) + cargo_events(text@),
{
    let ms = captures_in(TEST_LINE, text);
    let ghost mv = group_views(ms@);
    let ghost start = evs_view(out@);
    let mut i: usize = 0;
    while i < ms.len()
        invariant
            i <= ms@.len(),
            mv == group_views(ms@),
            mv == captures_of(TEST_LINE@, text@),
            evs_view(out@) == start + cargo_events_from(mv.take(i as int)),
        decreases ms@.len() - i,
    {
        assert(mv.take(i + 1).drop_last() =~= mv.take(i as int));
        assert(mv.take(i + 1).last() == opt_views(ms@[i as int]@));
        let m = &ms[i];
        match (group(m, 1), group(m, 2), group(m, 3)) {
            (Some(n), Some(d), Some(v)) => {
                let mut id = string_of(&chars_of("REQ-"));
                id.append(d.as_str());
                let ghost pre = evs_view(out@);
                out.push(Ev { id, name: n, verdict: v });
                assert(evs_view(out@) =~= pre.push(ev_view(out@.last())));
            },
            _ => {},
        }
        i = i + 1;
    }
    assert(mv.take(ms@.len() as int) =~= mv);
}

fn verdict_of_line(line: &str) -> (r: Option<&'static str>)
    ensures
        match line_verdict(line@) {
            Some(v) => r is Some && r->Some_0@ == v,
            None => r is None,
        },
{
    let l = chars_of(line);
    if contains(&l, &chars_of("FAILED")) || contains(&l, &chars_of("FAIL")) {
        Some("FAILED")
    } else if contains(&l, &chars_of(" ok")) || contains(&l, &chars_of("PASS")) || contains(&l, &chars_of("pass")) {
        Some("ok")
    } else if contains(&l, &chars_of("ignored")) || contains(&l, &chars_of("SKIP")) || contains(&l, &chars_of("skip")) {
        Some("ignored")
    } else {
        None
    }
}

fn verdict_for(name: &str, ls: &Vec<String>) -> (r: Option<&'static str>)
    ensures
        match first_verdict(name@, views(ls@)) {
            Some(v) => r is Some && r->Some_0@ == v,
            None => r is None,
        },
{
    let ghost lv = views(ls@);
    let nv = chars_of(name);
    let mut i: usize = 0;
    assert(lv.skip(0) =~= lv);
    while i < ls.len()
        invariant
            i <= ls@.len(),
            lv == views(ls@),
            nv@ == name@,
            first_verdict(name@, lv) == first_verdict(name@, lv.skip(i as int)),
        decreases ls@.len() - i,
    {
        assert(lv.skip(i as int)[0] == ls@[i as int]@);
        assert(lv.skip(i as int).drop_first() =~= lv.skip(i + 1));
        let l = chars_of(ls[i].as_str());
        if contains(&l, &nv) {
            match verdict_of_line(ls[i].as_str()) {
                Some(v) => return Some(v),
                None => {},
            }
        }
        i = i + 1;
    }
    None
}

fn map_lines(text: &str, map: &Vec<MapEntry>, out: &mut Vec<Ev>)
    ensures
        evs_view(final(out)@) == evs_view(old(out)@) + map_events(map_view(map@), lines_of(text@)),
{
    let ls = lines(text);
    let ghost mv = map_view(map@);
    let ghost start = evs_view(out@);
    let mut i: usize = 0;
    while i < map.len()
        invariant
            i <= map@.len(),
            mv == map_view(map@),
            views(ls@) == lines_of(text@),
            evs_view(out@) == start + map_events(mv.take(i as int), lines_of(text@)),
        decreases map@.len() - i,
    {
        assert(mv.take(i + 1).drop_last() =~= mv.take(i as int));
        assert(mv.take(i + 1).last() == (map@[i as int].test@, views(map@[i as int].ids@)));
        let e = &map[i];
        match verdict_for(e.test.as_str(), &ls) {
            Some(v) => {
                let ghost pre = evs_view(out@);
                let ghost idv = views(e.ids@);
                let mut k: usize = 0;
                while k < e.ids.len()
                    invariant
                        k <= e.ids@.len(),
                        idv == views(e.ids@),
                        evs_view(out@) == pre + idv.take(k as int).map_values(|id: Seq<char>| (id, e.test@, v@)),
                    decreases e.ids@.len() - k,
                {
                    let ghost before = evs_view(out@);
                    out.push(Ev { id: e.ids[k].clone(), name: e.test.clone(), verdict: string_of(&chars_of(v)) });
                    assert(evs_view(out@) =~= before.push((idv[k as int], e.test@, v@)));
                    assert(idv.take(k + 1).map_values(|id: Seq<char>| (id, e.test@, v@))
                        =~= idv.take(k as int).map_values(|id: Seq<char>| (id, e.test@, v@)).push((idv[k as int], e.test@, v@)));
                    k = k + 1;
                }
                assert(idv.take(e.ids@.len() as int) =~= idv);
                assert(evs_view(out@) =~= start + map_events(mv.take(i + 1), lines_of(text@)));
            },
            None => {},
        }
        i = i + 1;
    }
    assert(mv.take(map@.len() as int) =~= mv);
}

/// Every verdict event of a run's output and test-name map, in order.
pub fn events_of(text: &str, map: &Vec<MapEntry>) -> (r: Vec<Ev>)
    ensures
        evs_view(r@) == all_events(text@, map_view(map@)),
{
    let mut out: Vec<Ev> = Vec::new();
    assert(evs_view(out@) =~= Seq::<Event>::empty());
    cargo_lines(text, &mut out);
    map_lines(text, map, &mut out);
    assert(evs_view(out@) =~= all_events(text@, map_view(map@)));
    out
}

// ---------------------------------------------------------------------------
// Verdicts grouped by requirement
// ---------------------------------------------------------------------------

/// Some event names requirement `k`.
pub open spec fn in_events(evs: Seq<Event>, k: Seq<char>) -> bool
    decreases evs.len(),
{
    if evs.len() == 0 {
        false
    } else {
        in_events(evs.drop_last(), k) || evs.last().0 == k
    }
}

/// The names of the tests that gave requirement `k` verdict `v`, in order.
pub open spec fn names_with(evs: Seq<Event>, k: Seq<char>, v: Seq<char>) -> Seq<Seq<char>>
    decreases evs.len(),
{
    if evs.len() == 0 {
        Seq::empty()
    } else {
        let rest = names_with(evs.drop_last(), k, v);
        if evs.last().0 == k && evs.last().2 == v { rest.push(evs.last().1) } else { rest }
    }
}

proof fn lemma_no_events_no_names(evs: Seq<Event>, k: Seq<char>, v: Seq<char>)
    requires
        !in_events(evs, k),
    ensures
        names_with(evs, k, v) == Seq::<Seq<char>>::empty(),
    decreases evs.len(),
{
    if evs.len() > 0 {
        lemma_no_events_no_names(evs.drop_last(), k, v);
    }
}

/// The verdicts of one requirement's tests.
pub struct ReqResult {
    pub id: String,
    pub passed: Vec<String>,
    pub failed: Vec<String>,
    pub ignored: Vec<String>,
}

impl Keyed for ReqResult {
    open spec fn key(&self) -> Seq<char> {
        self.id@
    }

    fn key_str(&self) -> (r: &str) {
        self.id.as_str()
    }
}

/// `b` holds requirement `k`'s verdicts from `evs`.
pub open spec fn bucket_ok(b: ReqResult, evs: Seq<Event>, k: Seq<char>) -> bool {
    &&& views(b.passed@) == names_with(evs, k, "ok"@)
    &&& views(b.failed@) == names_with(evs, k, "FAILED"@)
    &&& views(b.ignored@) == names_with(evs, k, "ignored"@)
}

/// The grouping holds a bucket for exactly the requirements the events
/// name, each with its verdicts.
pub open spec fn buckets_ok(bv: Seq<ReqResult>, evs: Seq<Event>) -> bool {
    forall|k: Seq<char>| #[trigger] has_key(bv, k) == in_events(evs, k)
        && (has_key(bv, k) ==> bucket_ok(lookup(bv, k).unwrap(), evs, k))
}

/// Group the verdict events by requirement.
pub fn group_by_requirement(evs: &Vec<Ev>) -> (r: IdMap<ReqResult>)
    ensures
        buckets_ok(r.view(), evs_view(evs@)),
{
    let ghost ev = evs_view(evs@);
    let mut b: IdMap<ReqResult> = IdMap::new();
    let mut i: usize = 0;
    proof {
        assert forall|k: Seq<char>| #[trigger] has_key(b.view(), k) == in_events(ev.take(0), k)
            && (has_key(b.view(), k) ==> bucket_ok(lookup(b.view(), k).unwrap(), ev.take(0), k)) by {
            assert(ev.take(0).len() == 0);
        }
    }
    while i < evs.len()
        invariant
            i <= evs@.len(),
            ev == evs_view(evs@),
            buckets_ok(b.view(), ev.take(i as int)),
        decreases evs@.len() - i,
    {
        let e = &evs[i];
        let ghost pre = ev.take(i as int);
        let ghost nxt = ev.take(i + 1);
        assert(nxt.drop_last() =~= pre);
        assert(nxt.last() == ev_view(*e));
        let ghost before = b.view();
        let _ = b.len();
        let mut r = if b.contains_key(e.id.as_str()) {
            b.remove(e.id.as_str()).unwrap()
        } else {
            proof {
                lemma_no_events_no_names(pre, e.id@, "ok"@);
                lemma_no_events_no_names(pre, e.id@, "FAILED"@);
                lemma_no_events_no_names(pre, e.id@, "ignored"@);
            }
            let r0 = ReqResult { id: e.id.clone(), passed: Vec::new(), failed: Vec::new(), ignored: Vec::new() };
            assert(views(r0.passed@) =~= Seq::<Seq<char>>::empty());
            assert(views(r0.failed@) =~= Seq::<Seq<char>>::empty());
            assert(views(r0.ignored@) =~= Seq::<Seq<char>>::empty());
            r0
        };
        assert(bucket_ok(r, pre, e.id@));
        let ghost r0 = r;
        if crate::text::str_eq(e.verdict.as_str(), "ok") {
            r.passed.push(e.name.clone());
            assert(views(r.passed@) =~= views(r0.passed@).push(e.name@));
        } else if crate::text::str_eq(e.verdict.as_str(), "FAILED") {
            r.failed.push(e.name.clone());
            assert(views(r.failed@) =~= views(r0.failed@).push(e.name@));
        } else if crate::text::str_eq(e.verdict.as_str(), "ignored") {
            r.ignored.push(e.name.clone());
            assert(views(r.ignored@) =~= views(r0.ignored@).push(e.name@));
        }
        proof {
            reveal_strlit("ok");
            reveal_strlit("FAILED");
            reveal_strlit("ignored");
            assert("ok"@ != "FAILED"@ && "ok"@ != "ignored"@ && "FAILED"@ != "ignored"@) by {
                assert("ok"@.len() != "FAILED"@.len());
                assert("ok"@[0] != "ignored"@[0]);
                assert("FAILED"@.len() != "ignored"@.len());
            }
            let k = e.id@;
            assert(names_with(nxt, k, "ok"@) == if e.verdict@ == "ok"@ { names_with(pre, k, "ok"@).push(e.name@) } else { names_with(pre, k, "ok"@) });
            assert(names_with(nxt, k, "FAILED"@) == if e.verdict@ == "FAILED"@ { names_with(pre, k, "FAILED"@).push(e.name@) } else { names_with(pre, k, "FAILED"@) });
            assert(names_with(nxt, k, "ignored"@) == if e.verdict@ == "ignored"@ { names_with(pre, k, "ignored"@).push(e.name@) } else { names_with(pre, k, "ignored"@) });
        }
        assert(bucket_ok(r, nxt, e.id@));
        let ghost rv = r;
        b.insert(r);
        let _ = b.len();
        proof {
            assert forall|k: Seq<char>| #[trigger] has_key(b.view(), k) == in_events(nxt, k)
                && (has_key(b.view(), k) ==> bucket_ok(lookup(b.view(), k).unwrap(), nxt, k)) by {
                if k != e.id@ {
                    lemma_insert_lookup(before, b.view(), rv, k);
                    assert(has_key(before, k) == has_key(b.view(), k));
                }
            }
        }
        i = i + 1;
    }
    assert(ev.take(evs@.len() as int) =~= ev);
    b
}

// ---------------------------------------------------------------------------
// The per-requirement summary
// ---------------------------------------------------------------------------

/// The notes of a requirement's automated evidence: the counts, then the
/// failing tests, or (when none failed) the passing and ignored ones.
pub open spec fn notes_spec(passed: Seq<Seq<char>>, failed: Seq<Seq<char>>, ignored: Seq<Seq<char>>) -> Seq<char> {
    "cargo test: "@ + dec_seq(passed.len()) + " pass / "@ + dec_seq(failed.len()) + " fail / "@
        + dec_seq(ignored.len()) + " ignored — "@
        + if failed.len() == 0 { join_seq(passed + ignored, ", "@) } else { join_seq(failed, ", "@) }
}

/// The outcome a requirement's verdicts come to: a failure if any test
/// failed, else a pass.
pub open spec fn outcome_spec(evs: Seq<Event>, k: Seq<char>) -> TestOutcome {
    if names_with(evs, k, "FAILED"@).len() > 0 { TestOutcome::Fail } else { TestOutcome::Pass }
}

/// One requirement's line of the run summary.
pub struct ReqRun {
    pub id: String,
    /// The requirement exists in the project (else nothing is recorded).
    pub exists: bool,
    pub outcome: TestOutcome,
    pub passed: Vec<String>,
    pub failed: Vec<String>,
    pub ignored: Vec<String>,
    /// The notes the evidence record carries.
    pub notes: String,
}

pub open spec fn run_ok(r: ReqRun, p: Project, evs: Seq<Event>) -> bool {
    &&& r.exists == has_key(p.requirements.view(), r.id@)
    &&& views(r.passed@) == names_with(evs, r.id@, "ok"@)
    &&& views(r.failed@) == names_with(evs, r.id@, "FAILED"@)
    &&& views(r.ignored@) == names_with(evs, r.id@, "ignored"@)
    &&& r.outcome == outcome_spec(evs, r.id@)
    &&& r.notes@ == notes_spec(views(r.passed@), views(r.failed@), views(r.ignored@))
}

/// The summary has one line per requirement the events name, in id order.
pub open spec fn runs_ok(rs: Seq<ReqRun>, p: Project, evs: Seq<Event>) -> bool {
    &&& forall|i: int, j: int| 0 <= i < j < rs.len() ==> seq_lt(#[trigger] rs[i].id@, #[trigger] rs[j].id@)
    &&& forall|i: int| 0 <= i < rs.len() ==> run_ok(#[trigger] rs[i], p, evs)
    &&& forall|k: Seq<char>| #[trigger] in_events(evs, k) <==> exists|i: int| 0 <= i < rs.len() && (#[trigger] rs[i]).id@ == k
}

fn notes_of(passed: &Vec<String>, failed: &Vec<String>, ignored: &Vec<String>) -> (r: String)
    ensures
        r@ == notes_spec(views(passed@), views(failed@), views(ignored@)),
{
    let mut s = string_of(&chars_of("cargo test: "));
    s.append(dec_string(passed.len() as u64).as_str());
    s.append(" pass / ");
    s.append(dec_string(failed.len() as u64).as_str());
    s.append(" fail / ");
    s.append(dec_string(ignored.len() as u64).as_str());
    s.append(" ignored — ");
    if failed.len() == 0 {
        let mut both = crate::text::clone_strings(passed);
        let mut k: usize = 0;
        while k < ignored.len()
            invariant
                k <= ignored@.len(),
                views(both@) == views(passed@) + views(ignored@).take(k as int),
            decreases ignored@.len() - k,
        {
            let ghost pre = views(both@);
            both.push(ignored[k].clone());
            assert(views(both@) =~= pre.push(ignored@[k as int]@));
            assert(views(ignored@).take(k + 1) =~= views(ignored@).take(k as int).push(ignored@[k as int]@));
            k = k + 1;
        }
        assert(views(ignored@).take(ignored@.len() as int) =~= views(ignored@));
        s.append(join(&both, ", ").as_str());
    } else {
        s.append(join(failed, ", ").as_str());
    }
    s
}

/// The run summary: one line per requirement named by the verdicts, in id
/// order, with whether it exists in the project.
pub(crate) fn summarize(b: &IdMap<ReqResult>, p: &Project, Ghost(evs): Ghost<Seq<Event>>) -> (rs: Vec<ReqRun>)
    requires
        buckets_ok(b.view(), evs),
    ensures
        runs_ok(rs@, *p, evs),
{
    let ghost bv = b.view();
    let n = b.len();
    let mut out: Vec<ReqRun> = Vec::new();
    let mut i: usize = 0;
    while i < n
        invariant
            n == bv.len(),
            bv == b.view(),
            keys_sorted(bv),
            buckets_ok(bv, evs),
            i <= n,
            out@.len() == i,
            forall|t: int| 0 <= t < i ==> (#[trigger] out@[t]).id@ == bv[t].id@,
            forall|t: int| 0 <= t < i ==> run_ok(#[trigger] out@[t], *p, evs),
        decreases n - i,
    {
        let r = b.at(i);
        proof {
            crate::impact::lemma_lookup_own(bv, i as int);
            assert(has_key(bv, r.id@));
            assert(bucket_ok(*r, evs, r.id@));
        }
        let exists = p.requirements.contains_key(r.id.as_str());
        let outcome = if r.failed.len() > 0 { TestOutcome::Fail } else { TestOutcome::Pass };
        let notes = notes_of(&r.passed, &r.failed, &r.ignored);
        let line = ReqRun {
            id: r.id.clone(),
            exists,
            outcome,
            passed: crate::text::clone_strings(&r.passed),
            failed: crate::text::clone_strings(&r.failed),
            ignored: crate::text::clone_strings(&r.ignored),
            notes,
        };
        out.push(line);
        i = i + 1;
    }
    proof {
        assert forall|s: int, u: int| 0 <= s < u < out@.len() implies seq_lt(#[trigger] out@[s].id@, #[trigger] out@[u].id@) by {
            assert(seq_lt(bv[s].key(), bv[u].key()));
        }
        assert forall|k: Seq<char>| #[trigger] in_events(evs, k) implies exists|t: int| 0 <= t < out@.len() && (#[trigger] out@[t]).id@ == k by {
            assert(has_key(bv, k));
            let j = choose|j: int| 0 <= j < bv.len() && #[trigger] bv[j].key() == k;
            assert(out@[j].id@ == k);
        }
        assert forall|k: Seq<char>| (exists|t: int| 0 <= t < out@.len() && (#[trigger] out@[t]).id@ == k) implies #[trigger] in_events(evs, k) by {
            let t = choose|t: int| 0 <= t < out@.len() && (#[trigger] out@[t]).id@ == k;
            assert(bv[t].key() == k);
            assert(has_key(bv, k));
        }
    }
    out
}

// ---------------------------------------------------------------------------
// Linked source files and their content anchor
// ---------------------------------------------------------------------------

/// A source file and its text, as the caller read it.
pub struct SourceText {
    pub path: String,
    pub text: String,
}

/// `text` mentions requirement `id` as a `REQ-NNNN` token.
pub open spec fn references(text: Seq<char>, id: Seq<char>) -> bool {
    matches_of(REQ_TOKEN@, text).contains(id)
}

/// The sources that mention `id`, in the order given.
pub open spec fn linked_sources(srcs: Seq<SourceText>, id: Seq<char>) -> Seq<SourceText>
    decreases srcs.len(),
{
    if srcs.len() == 0 {
        Seq::empty()
    } else {
        let rest = linked_sources(srcs.drop_last(), id);
        if references(srcs.last().text@, id) { rest.push(srcs.last()) } else { rest }
    }
}

pub open spec fn paths_of(srcs: Seq<SourceText>) -> Seq<Seq<char>> {
    srcs.map_values(|x: SourceText| x.path@)
}

/// The bytes hashed for the linked sources: for each, its path, a NUL byte,
/// its text and a newline.
pub open spec fn linked_input(srcs: Seq<SourceText>) -> Seq<u8>
    decreases srcs.len(),
{
    if srcs.len() == 0 {
        Seq::empty()
    } else {
        let f = srcs.last();
        linked_input(srcs.drop_last()) + vstd::utf8::encode_utf8(f.path@) + seq![0u8]
            + vstd::utf8::encode_utf8(f.text@) + seq![10u8]
    }
}

fn linked_of(req_id: &str, sources: &Vec<SourceText>) -> (r: Vec<SourceText>)
    ensures
        r@ == linked_sources(sources@, req_id@),
{
    let mut out: Vec<SourceText> = Vec::new();
    let mut i: usize = 0;
    while i < sources.len()
        invariant
            i <= sources@.len(),
            out@ == linked_sources(sources@.take(i as int), req_id@),
        decreases sources@.len() - i,
    {
        assert(sources@.take(i + 1).drop_last() =~= sources@.take(i as int));
        assert(sources@.take(i + 1).last() == sources@[i as int]);
        let toks = matches_in(REQ_TOKEN, sources[i].text.as_str());
        if contains_str(&toks, req_id) {
            out.push(SourceText { path: sources[i].path.clone(), text: sources[i].text.clone() });
            assert(out@.last() == sources@[i as int]);
        }
        assert(out@ =~= linked_sources(sources@.take(i + 1), req_id@));
        i = i + 1;
    }
    assert(sources@.take(sources@.len() as int) =~= sources@);
    out
}

/// The files that mention requirement `req_id` (as a `REQ-NNNN` token),
/// in the order given: the caller passes the source tree in path order.
pub fn auto_linked_files(req_id: &str, sources: &Vec<SourceText>) -> (r: Vec<String>)
    ensures
        views(r@) == paths_of(linked_sources(sources@, req_id@)),
{
    let linked = linked_of(req_id, sources);
    let mut out: Vec<String> = Vec::new();
    let mut i: usize = 0;
    while i < linked.len()
        invariant
            i <= linked@.len(),
            views(out@) == paths_of(linked@.take(i as int)),
        decreases linked@.len() - i,
    {
        let ghost pre = views(out@);
        out.push(linked[i].path.clone());
        assert(views(out@) =~= pre.push(linked@[i as int].path@));
        assert(paths_of(linked@.take(i + 1)) =~= paths_of(linked@.take(i as int)).push(linked@[i as int].path@));
        i = i + 1;
    }
    assert(linked@.take(linked@.len() as int) =~= linked@);
    out
}

/// The content anchor of some sources: SHA-256 over each one's path, a NUL
/// byte, its text and a newline, as lowercase hex.
pub fn hash_sources(srcs: &Vec<SourceText>) -> (r: String)
    ensures
        r@ == crate::staleness::hex_seq(crate::staleness::sha256_of(linked_input(srcs@))),
{
    let mut data: Vec<u8> = Vec::new();
    let mut i: usize = 0;
    while i < srcs.len()
        invariant
            i <= srcs@.len(),
            data@ == linked_input(srcs@.take(i as int)),
        decreases srcs@.len() - i,
    {
        assert(srcs@.take(i + 1).drop_last() =~= srcs@.take(i as int));
        assert(srcs@.take(i + 1).last() == srcs@[i as int]);
        let f = &srcs[i];
        crate::staleness::append_bytes(&mut data, f.path.as_str().as_bytes());
        data.push(0u8);
        crate::staleness::append_bytes(&mut data, f.text.as_str().as_bytes());
        data.push(10u8);
        assert(data@ =~= linked_input(srcs@.take(i + 1)));
        i = i + 1;
    }
    assert(srcs@.take(srcs@.len() as int) =~= srcs@);
    let digest = crate::staleness::sha256(data.as_slice());
    crate::staleness::to_hex(digest.as_slice())
}

// ---------------------------------------------------------------------------
// Recording the evidence
// ---------------------------------------------------------------------------

/// The commit automated evidence is recorded against.
pub open spec fn commit_text(ctx: ActionContext) -> Seq<char> {
    match ctx.head {
        Some(h) => h@,
        None => "(no git)"@,
    }
}

/// Recording `run` makes requirement `o` eligible for promotion: asked
/// for, Implemented, and a passing record exists at HEAD (the new one, or
/// an earlier one).
pub open spec fn promotes(o: Requirement, run: ReqRun, ctx: ActionContext, promote: bool) -> bool {
    &&& promote
    &&& o.status == Status::Implemented
    &&& ctx.head is Some
    &&& (run.outcome == TestOutcome::Pass
        || exists|j: int| 0 <= j < o.tests@.len() && (#[trigger] o.tests@[j]).outcome == TestOutcome::Pass
            && o.tests@[j].commit@ == ctx.head.unwrap()@)
}

/// The history line of recorded automated evidence.
pub open spec fn recorded_line(run: ReqRun, ctx: ActionContext) -> Seq<char> {
    "test "@ + run.outcome.name() + " recorded against commit "@ + crate::staleness::short_spec(commit_text(ctx)) + " via req test run"@
}

pub open spec fn promoted_line() -> Seq<char> {
    "status promoted to verified (req test run --promote, fresh passing record on HEAD)"@
}

/// `n` is `o` after recording `run`'s evidence (and promoting it when
/// eligible), the linked sources being `linked`.
pub open spec fn applied(o: Requirement, n: Requirement, run: ReqRun, linked: Seq<SourceText>, ctx: ActionContext, promote: bool) -> bool {
    let t = n.tests@.last();
    let up = promotes(o, run, ctx, promote);
    &&& n == Requirement { tests: n.tests, history: n.history, updated: ctx.now,
        status: if up { Status::Verified } else { o.status }, ..o }
    &&& n.tests@.len() == o.tests@.len() + 1 && n.tests@.drop_last() == o.tests@
    &&& t.at == ctx.now && t.actor == ctx.actor && t.commit@ == commit_text(ctx)
    &&& t.outcome == run.outcome && t.notes@ == run.notes@ && t.kind == EvidenceKind::Automated
    &&& !t.sil_gate_exception && t.sil_at_verification is None && t.external is None
    &&& if linked.len() == 0 {
        t.content_hash is None && t.linked_files is None
    } else {
        &&& t.content_hash matches Some(h) && h@ == crate::staleness::hex_seq(crate::staleness::sha256_of(linked_input(linked)))
        &&& t.linked_files matches Some(fs) && views(fs@) == paths_of(linked)
    }
    &&& n.history@.len() == o.history@.len() + if up { 2int } else { 1int }
    &&& n.history@.take(o.history@.len() as int) == o.history@
    &&& entry_records(n.history@[o.history@.len() as int], ctx, recorded_line(run, ctx), None)
    &&& up ==> entry_records(n.history@.last(), ctx, promoted_line(), None)
}

fn fresh_at(tests: &Vec<TestRecord>, head: &str) -> (b: bool)
    ensures
        b == exists|j: int| 0 <= j < tests@.len() && (#[trigger] tests@[j]).outcome == TestOutcome::Pass && tests@[j].commit@ == head@,
{
    let mut j: usize = 0;
    while j < tests.len()
        invariant
            j <= tests@.len(),
            forall|q: int| 0 <= q < j ==> !((#[trigger] tests@[q]).outcome == TestOutcome::Pass && tests@[q].commit@ == head@),
        decreases tests@.len() - j,
    {
        if matches!(tests[j].outcome, TestOutcome::Pass) && crate::text::str_eq(tests[j].commit.as_str(), head) {
            return true;
        }
        j = j + 1;
    }
    false
}

/// Record one requirement's automated evidence; gives whether it was
/// promoted.
fn apply_run(project: &mut Project, run: &ReqRun, sources: &Vec<SourceText>, ctx: &ActionContext, promote: bool) -> (up: bool)
    requires
        has_key(old(project).requirements.view(), run.id@),
    ensures
        up == promotes(lookup(old(project).requirements.view(), run.id@).unwrap(), *run, *ctx, promote),
        applied(lookup(old(project).requirements.view(), run.id@).unwrap(),
            lookup(final(project).requirements.view(), run.id@).unwrap(), *run, linked_sources(sources@, run.id@), *ctx, promote),
        has_key(final(project).requirements.view(), run.id@),
        forall|k: Seq<char>| k != run.id@ ==> #[trigger] lookup(final(project).requirements.view(), k) == lookup(old(project).requirements.view(), k),
        forall|k: Seq<char>| #[trigger] has_key(final(project).requirements.view(), k) == has_key(old(project).requirements.view(), k),
        final(project).name == old(project).name && final(project).hazards == old(project).hazards,
        final(project).safety_functions == old(project).safety_functions,
        final(project).safety_requirements == old(project).safety_requirements,
        final(project).calibration == old(project).calibration,
        final(project).calibration_label == old(project).calibration_label,
        final(project).updated == old(project).updated,
{
    let linked = linked_of(run.id.as_str(), sources);
    let (content_hash, linked_files) = if linked.len() == 0 {
        (None, None)
    } else {
        let h = hash_sources(&linked);
        let fs = auto_linked_files(run.id.as_str(), sources);
        (Some(h), Some(fs))
    };
    let commit = match &ctx.head {
        Some(h) => h.clone(),
        None => string_of(&chars_of("(no git)")),
    };
    let mut line = string_of(&chars_of("test "));
    line.append(run.outcome.as_str());
    line.append(" recorded against commit ");
    line.append(crate::staleness::short(commit.as_str()).as_str());
    line.append(" via req test run");
    let e1 = history(line, None, ctx);
    let record = TestRecord {
        at: ctx.now.clone(),
        actor: ctx.actor.clone(),
        commit,
        outcome: run.outcome,
        notes: run.notes.clone(),
        kind: EvidenceKind::Automated,
        content_hash,
        linked_files,
        sil_gate_exception: false,
        sil_at_verification: None,
        external: None,
    };
    let ghost before = project.requirements.view();
    let _ = project.requirements.len();
    let mut r = project.requirements.remove(run.id.as_str()).unwrap();
    let ghost o = r;
    r.tests.push(record);
    r.history.push(e1);
    r.updated = ctx.now.clone();
    assert(r.tests@.drop_last() =~= o.tests@);
    assert(r.history@.take(o.history@.len() as int) =~= o.history@);
    let mut up = false;
    if promote && matches!(r.status, Status::Implemented) {
        match &ctx.head {
            Some(h) => {
                let fresh = fresh_at(&r.tests, h.as_str());
                proof {
                    if run.outcome == TestOutcome::Pass {
                        assert(r.tests@[o.tests@.len() as int].outcome == TestOutcome::Pass);
                    }
                    assert forall|j: int| 0 <= j < o.tests@.len() implies r.tests@[j] == o.tests@[j] by {}
                }
                if fresh {
                    let e2 = history(string_of(&chars_of("status promoted to verified (req test run --promote, fresh passing record on HEAD)")), None, ctx);
                    r.status = Status::Verified;
                    let ghost h1 = r.history@;
                    r.history.push(e2);
                    assert(r.history@.take(o.history@.len() as int) =~= o.history@);
                    assert(r.history@[o.history@.len() as int] == h1[o.history@.len() as int]);
                    up = true;
                }
            },
            None => {},
        }
    }
    let ghost rv = r;
    project.requirements.insert(r);
    let _ = project.requirements.len();
    proof {
        assert forall|k: Seq<char>| k != run.id@ implies #[trigger] lookup(project.requirements.view(), k) == lookup(before, k) by {
            lemma_insert_lookup(before, project.requirements.view(), rv, k);
        }
        assert forall|k: Seq<char>| #[trigger] has_key(project.requirements.view(), k) == has_key(before, k) by {
            if k != run.id@ {
                lemma_insert_lookup(before, project.requirements.view(), rv, k);
            }
        }
    }
    up
}

/// How many summary lines name a requirement of the project.
pub open spec fn recorded_count(rs: Seq<ReqRun>) -> nat
    decreases rs.len(),
{
    if rs.len() == 0 {
        0
    } else {
        recorded_count(rs.drop_last()) + if rs.last().exists { 1nat } else { 0nat }
    }
}

/// The requirements promoted, in summary order.
pub open spec fn promoted_seq(rs: Seq<ReqRun>, p: Project, ctx: ActionContext, promote: bool) -> Seq<Seq<char>>
    decreases rs.len(),
{
    if rs.len() == 0 {
        Seq::empty()
    } else {
        let rest = promoted_seq(rs.drop_last(), p, ctx, promote);
        let r = rs.last();
        if r.exists && promotes(lookup(p.requirements.view(), r.id@).unwrap(), r, ctx, promote) {
            rest.push(r.id@)
        } else {
            rest
        }
    }
}

/// What `req test run` did: the per-requirement summary, how many records
/// it wrote, and which requirements it promoted.
pub struct RunReport {
    pub results: Vec<ReqRun>,
    pub recorded: usize,
    pub promoted: Vec<String>,
}

/// Apply a test run's output to the project (`req test run`): group the
/// verdicts of the `req_NNNN_*` test lines and of the mapped tests by
/// requirement, and, unless `dry_run`, record one piece of automated
/// evidence per requirement that exists (a failure if any of its tests
/// failed), anchored to the sources that mention it; with `promote`,
/// promote each such requirement that is Implemented and has a passing
/// record at HEAD to Verified.
pub fn run_suite(project: &mut Project, dry_run: bool, promote: bool, output: &str, map: &Vec<MapEntry>,
    sources: &Vec<SourceText>, ctx: &ActionContext) -> (r: RunReport)
    ensures
        runs_ok(r.results@, *old(project), all_events(output@, map_view(map@))),
        dry_run ==> *final(project) == *old(project) && r.recorded == 0 && r.promoted@.len() == 0,
        !dry_run ==> {
            &&& r.recorded == recorded_count(r.results@)
            &&& views(r.promoted@) == promoted_seq(r.results@, *old(project), *ctx, promote)
            &&& forall|i: int| 0 <= i < r.results@.len() && (#[trigger] r.results@[i]).exists ==> applied(
                lookup(old(project).requirements.view(), r.results@[i].id@).unwrap(),
                lookup(final(project).requirements.view(), r.results@[i].id@).unwrap(),
                r.results@[i], linked_sources(sources@, r.results@[i].id@), *ctx, promote)
            &&& forall|k: Seq<char>| #[trigger] lookup(final(project).requirements.view(), k) == lookup(old(project).requirements.view(), k)
                || exists|i: int| 0 <= i < r.results@.len() && (#[trigger] r.results@[i]).id@ == k && r.results@[i].exists
            &&& forall|k: Seq<char>| #[trigger] has_key(final(project).requirements.view(), k) == has_key(old(project).requirements.view(), k)
            &&& final(project).name == old(project).name && final(project).hazards == old(project).hazards
            &&& final(project).safety_functions == old(project).safety_functions
            &&& final(project).safety_requirements == old(project).safety_requirements
            &&& final(project).calibration == old(project).calibration
            &&& final(project).calibration_label == old(project).calibration_label
            &&& final(project).updated == if r.recorded > 0 { ctx.now } else { old(project).updated }
        },
{
    let evs = events_of(output, map);
    let buckets = group_by_requirement(&evs);
    let results = summarize(&buckets, project, Ghost(evs_view(evs@)));
    let ghost rs = results@;
    let mut promoted: Vec<String> = Vec::new();
    if dry_run {
        return RunReport { results, recorded: 0, promoted };
    }
    let ghost p0 = *project;
    let mut recorded: usize = 0;
    let mut i: usize = 0;
    assert(rs.take(0) =~= Seq::<ReqRun>::empty());
    while i < results.len()
        invariant
            i <= rs.len(),
            rs == results@,
            runs_ok(rs, p0, all_events(output@, map_view(map@))),
            recorded == recorded_count(rs.take(i as int)),
            recorded <= i,
            views(promoted@) == promoted_seq(rs.take(i as int), p0, *ctx, promote),
            forall|t: int| 0 <= t < i && (#[trigger] rs[t]).exists ==> applied(
                lookup(p0.requirements.view(), rs[t].id@).unwrap(),
                lookup(project.requirements.view(), rs[t].id@).unwrap(),
                rs[t], linked_sources(sources@, rs[t].id@), *ctx, promote),
            forall|k: Seq<char>| #[trigger] lookup(project.requirements.view(), k) == lookup(p0.requirements.view(), k)
                || exists|t: int| 0 <= t < i && (#[trigger] rs[t]).id@ == k && rs[t].exists,
            forall|k: Seq<char>| #[trigger] has_key(project.requirements.view(), k) == has_key(p0.requirements.view(), k),
            project.name == p0.name && project.hazards == p0.hazards,
            project.safety_functions == p0.safety_functions,
            project.safety_requirements == p0.safety_requirements,
            project.calibration == p0.calibration,
            project.calibration_label == p0.calibration_label,
            project.updated == p0.updated,
        decreases rs.len() - i,
    {
        assert(rs.take(i + 1).drop_last() =~= rs.take(i as int));
        assert(rs.take(i + 1).last() == rs[i as int]);
        let run = &results[i];
        if run.exists {
            let ghost cur = project.requirements.view();
            let ghost k = run.id@;
            proof {
                assert(run_ok(rs[i as int], p0, all_events(output@, map_view(map@))));
                assert(has_key(cur, k));
                if lookup(cur, k) != lookup(p0.requirements.view(), k) {
                    let t = choose|t: int| 0 <= t < i && (#[trigger] rs[t]).id@ == k && rs[t].exists;
                    assert(seq_lt(rs[t].id@, rs[i as int].id@));
                    crate::text::lemma_lt_irreflexive(k);
                }
            }
            let up = apply_run(project, run, sources, ctx, promote);
            proof {
                assert forall|t: int| 0 <= t < i + 1 && (#[trigger] rs[t]).exists implies applied(
                    lookup(p0.requirements.view(), rs[t].id@).unwrap(),
                    lookup(project.requirements.view(), rs[t].id@).unwrap(),
                    rs[t], linked_sources(sources@, rs[t].id@), *ctx, promote) by {
                    if t < i {
                        assert(seq_lt(rs[t].id@, rs[i as int].id@));
                        crate::text::lemma_lt_irreflexive(rs[t].id@);
                        assert(rs[t].id@ != k);
                    }
                }
                assert forall|q: Seq<char>| #[trigger] lookup(project.requirements.view(), q) == lookup(p0.requirements.view(), q)
                    || exists|t: int| 0 <= t < i + 1 && (#[trigger] rs[t]).id@ == q && rs[t].exists by {
                    if q == k {
                        assert(rs[i as int].id@ == q && rs[i as int].exists);
                    } else if lookup(cur, q) != lookup(p0.requirements.view(), q) {
                        let t = choose|t: int| 0 <= t < i && (#[trigger] rs[t]).id@ == q && rs[t].exists;
                        assert(rs[t].id@ == q);
                    }
                }
            }
            if up {
                let ghost pre = views(promoted@);
                promoted.push(run.id.clone());
                assert(views(promoted@) =~= pre.push(k));
            }
            recorded = recorded + 1;
        } else {
            proof {
                assert forall|q: Seq<char>| #[trigger] lookup(project.requirements.view(), q) == lookup(p0.requirements.view(), q)
                    || exists|t: int| 0 <= t < i + 1 && (#[trigger] rs[t]).id@ == q && rs[t].exists by {
                    if lookup(project.requirements.view(), q) != lookup(p0.requirements.view(), q) {
                        let t = choose|t: int| 0 <= t < i && (#[trigger] rs[t]).id@ == q && rs[t].exists;
                        assert(rs[t].id@ == q);
                    }
                }
            }
        }
        i = i + 1;
    }
    assert(rs.take(rs.len() as int) =~= rs);
    if recorded > 0 {
        project.updated = ctx.now.clone();
    }
    RunReport { results, recorded, promoted }
}

} // verus!
