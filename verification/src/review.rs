//! The pull-request review: which requirements a range of commits added,
//! removed or changed, which changed source files cite no requirement, which
//! cite ids that do not exist, and whether the range passes the check.
use vstd::prelude::*;

use crate::idmap::{has_key, lookup, IdMap, Keyed};
use crate::model::{Project, Requirement, Status};
use crate::queries::{defective_ids, verified_but_defective};
use crate::lint::{Finding, FindingGroup};
use crate::glob::{glob, glob_match};
use crate::patterns::{groups_in, groups_of, matches_in, matches_of};
use crate::sets::{pair_set_insert, pair_views, pairs_sorted, set_insert, strictly_sorted};
use crate::text::{
    chars_of, find_char, first_of, is_prefix, lines, lines_of, parse_uint, parse_uint_spec, starts_with, str_eq,
    string_of, suffix_from, prefix_upto, views, lower_seq, to_lower,
};
use crate::validation::{forward_slashed, to_forward_slashes};

verus! {

// ---------------------------------------------------------------------------
// Requirement changes between two revisions
// ---------------------------------------------------------------------------

/// The ids of `s`'s entries whose id is not a key of `other`, in order.
pub open spec fn ids_missing_from(s: Seq<Requirement>, other: Seq<Requirement>) -> Seq<Seq<char>>
    decreases s.len(),
{
    if s.len() == 0 {
        Seq::empty()
    } else {
        let rest = ids_missing_from(s.drop_last(), other);
        if has_key(other, s.last().id@) { rest } else { rest.push(s.last().id@) }
    }
}

/// A requirement changed between two revisions: its time stamp, title,
/// statement, status, acceptance criteria or number of links differ.
pub open spec fn req_changed(base: Requirement, cur: Requirement) -> bool {
    base.updated@ != cur.updated@ || base.title@ != cur.title@ || base.statement@ != cur.statement@
        || base.status != cur.status || views(base.acceptance@) != views(cur.acceptance@)
        || base.links@.len() != cur.links@.len()
}

/// The ids present in both revisions whose requirement changed, in order.
pub open spec fn ids_changed(cur: Seq<Requirement>, base: Seq<Requirement>) -> Seq<Seq<char>>
    decreases cur.len(),
{
    if cur.len() == 0 {
        Seq::empty()
    } else {
        let rest = ids_changed(cur.drop_last(), base);
        let c = cur.last();
        if has_key(base, c.id@) && req_changed(lookup(base, c.id@).unwrap(), c) { rest.push(c.id@) } else { rest }
    }
}

fn same_strings(a: &Vec<String>, b: &Vec<String>) -> (r: bool)
    ensures
        r == (views(a@) == views(b@)),
{
    if a.len() != b.len() {
        assert(views(a@).len() != views(b@).len());
        return false;
    }
    let mut i: usize = 0;
    while i < a.len()
        invariant
            a@.len() == b@.len(),
            i <= a@.len(),
            forall|j: int| 0 <= j < i ==> a@[j]@ == b@[j]@,
        decreases a@.len() - i,
    {
        if !str_eq(a[i].as_str(), b[i].as_str()) {
            assert(views(a@)[i as int] != views(b@)[i as int]);
            return false;
        }
        i = i + 1;
    }
    assert(views(a@) =~= views(b@));
    true
}

fn changed_between(base: &Requirement, cur: &Requirement) -> (r: bool)
    ensures
        r == req_changed(*base, *cur),
{
    !str_eq(base.updated.as_str(), cur.updated.as_str()) || !str_eq(base.title.as_str(), cur.title.as_str())
        || !str_eq(base.statement.as_str(), cur.statement.as_str()) || base.status != cur.status
        || !same_strings(&base.acceptance, &cur.acceptance) || base.links.len() != cur.links.len()
}

fn missing_from(s: &IdMap<Requirement>, other: &IdMap<Requirement>) -> (r: Vec<String>)
    ensures
        views(r@) == ids_missing_from(s.view(), other.view()),
{
    let n = s.len();
    let ghost sv = s.view();
    let mut out: Vec<String> = Vec::new();
    let mut i: usize = 0;
    while i < n
        invariant
            n == sv.len(),
            sv == s.view(),
            i <= n,
            views(out@) == ids_missing_from(sv.take(i as int), other.view()),
        decreases n - i,
    {
        let r = s.at(i);
        assert(sv.take(i as int + 1).drop_last() =~= sv.take(i as int));
        assert(sv.take(i as int + 1).last() == sv[i as int]);
        if !other.contains_key(r.id.as_str()) {
            let ghost before = views(out@);
            out.push(r.id.clone());
            assert(views(out@) =~= before.push(r.id@));
        }
        i = i + 1;
    }
    assert(sv.take(n as int) =~= sv);
    out
}

fn changed_in(cur: &IdMap<Requirement>, base: &IdMap<Requirement>) -> (r: Vec<String>)
    ensures
        views(r@) == ids_changed(cur.view(), base.view()),
{
    let n = cur.len();
    let ghost sv = cur.view();
    let mut out: Vec<String> = Vec::new();
    let mut i: usize = 0;
    while i < n
        invariant
            n == sv.len(),
            sv == cur.view(),
            i <= n,
            views(out@) == ids_changed(sv.take(i as int), base.view()),
        decreases n - i,
    {
        let c = cur.at(i);
        assert(sv.take(i as int + 1).drop_last() =~= sv.take(i as int));
        assert(sv.take(i as int + 1).last() == sv[i as int]);
        match base.get(c.id.as_str()) {
            Some(b) => if changed_between(b, c) {
                let ghost before = views(out@);
                out.push(c.id.clone());
                assert(views(out@) =~= before.push(c.id@));
            },
            None => {},
        }
        i = i + 1;
    }
    assert(sv.take(n as int) =~= sv);
    out
}

/// The requirements added, removed and changed between the base revision
/// (none when it could not be read) and the current one, each in id order.
pub fn diff_buckets(base: Option<&Project>, current: &Project) -> (r: (Vec<String>, Vec<String>, Vec<String>))
    ensures
        match base {
            Some(b) => {
                &&& views(r.0@) == ids_missing_from(current.requirements.view(), b.requirements.view())
                &&& views(r.1@) == ids_missing_from(b.requirements.view(), current.requirements.view())
                &&& views(r.2@) == ids_changed(current.requirements.view(), b.requirements.view())
            },
            None => {
                &&& views(r.0@) == ids_missing_from(current.requirements.view(), Seq::empty())
                &&& r.1@.len() == 0
                &&& r.2@.len() == 0
            },
        },
{
    match base {
        Some(b) => {
            let added = missing_from(&current.requirements, &b.requirements);
            let removed = missing_from(&b.requirements, &current.requirements);
            let changed = changed_in(&current.requirements, &b.requirements);
            (added, removed, changed)
        },
        None => {
            let empty: IdMap<Requirement> = IdMap::new();
            let added = missing_from(&current.requirements, &empty);
            (added, Vec::new(), Vec::new())
        },
    }
}

// ---------------------------------------------------------------------------
// Hunks of a zero-context diff
// ---------------------------------------------------------------------------

/// The new-side `(start, length)` of a `@@ -a,b +c,d @@` header line: after
/// the first `+`, up to the next space, split at the first comma (a missing
/// length is 1); both must parse and the length must be positive.
pub open spec fn hunk_of_line(line: Seq<char>) -> Option<(nat, nat)> {
    if !is_prefix("@@ "@, line) {
        None
    } else {
        let after = line.skip(3);
        match first_of(after, '+') {
            None => None,
            Some(p) => {
                let ap = after.skip(p + 1);
                let end = match first_of(ap, ' ') {
                    Some(e) => e,
                    None => ap.len() as int,
                };
                let range = ap.take(end);
                let parts: (Seq<char>, Seq<char>) = match first_of(range, ',') {
                    Some(c) => (range.take(c), range.skip(c + 1)),
                    None => (range, "1"@),
                };
                match (parse_uint_spec(parts.0, usize::MAX as nat), parse_uint_spec(parts.1, usize::MAX as nat)) {
                    (Some(a), Some(b)) => if b > 0 { Some((a, b)) } else { None },
                    _ => None,
                }
            },
        }
    }
}

/// The hunks of the header lines among `lines`, in order.
pub open spec fn hunks_of(lines: Seq<Seq<char>>) -> Seq<(nat, nat)>
    decreases lines.len(),
{
    if lines.len() == 0 {
        Seq::empty()
    } else {
        let rest = hunks_of(lines.drop_last());
        match hunk_of_line(lines.last()) {
            Some(h) => rest.push(h),
            None => rest,
        }
    }
}

pub open spec fn hunk_view(h: (usize, usize)) -> (nat, nat) {
    (h.0 as nat, h.1 as nat)
}

fn hunk_line(line: &str) -> (r: Option<(usize, usize)>)
    ensures
        match hunk_of_line(line@) {
            Some(h) => r.is_some() && hunk_view(r.unwrap()) == h,
            None => r.is_none(),
        },
{
    let l = chars_of(line);
    let head = chars_of("@@ ");
    proof {
        reveal_strlit("@@ ");
    }
    if !starts_with(&l, &head) {
        return None;
    }
    let after = suffix_from(&l, 3);
    assert(after@ =~= line@.skip(3));
    let p = match find_char(&after, '+') {
        Some(p) => p,
        None => return None,
    };
    assert(p < after.len());
    let ap = suffix_from(&after, p + 1);
    assert(ap@ =~= after@.skip(p + 1));
    let end = match find_char(&ap, ' ') {
        Some(e) => e,
        None => ap.len(),
    };
    let range = prefix_upto(&ap, end);
    assert(range@ =~= ap@.take(end as int));
    let (a, b) = match find_char(&range, ',') {
        Some(c) => {
            let a = prefix_upto(&range, c);
            let b = suffix_from(&range, c + 1);
            assert(a@ =~= range@.take(c as int));
            assert(b@ =~= range@.skip(c + 1));
            (a, b)
        },
        None => {
            let one = chars_of("1");
            proof {
                reveal_strlit("1");
            }
            assert(range@ =~= range@);
            (range, one)
        },
    };
    match (parse_uint(&a, usize::MAX as u64), parse_uint(&b, usize::MAX as u64)) {
        (Some(x), Some(y)) => if y > 0 {
            Some((x as usize, y as usize))
        } else {
            None
        },
        _ => None,
    }
}

/// The new-side hunks of a `git diff -U0` output.
pub fn parse_hunks(diff: &str) -> (r: Vec<(usize, usize)>)
    ensures
        r@.map_values(|h: (usize, usize)| hunk_view(h)) == hunks_of(lines_of(diff@)),
{
    let ls = lines(diff);
    let ghost lv = views(ls@);
    let mut out: Vec<(usize, usize)> = Vec::new();
    let mut i: usize = 0;
    while i < ls.len()
        invariant
            i <= ls@.len(),
            lv == views(ls@),
            lv == lines_of(diff@),
            out@.map_values(|h: (usize, usize)| hunk_view(h)) == hunks_of(lv.take(i as int)),
        decreases ls@.len() - i,
    {
        assert(lv.take(i + 1).drop_last() =~= lv.take(i as int));
        assert(lv.take(i + 1).last() == ls@[i as int]@);
        let ghost before = out@;
        match hunk_line(ls[i].as_str()) {
            Some(h) => {
                out.push(h);
                assert(out@.map_values(|h: (usize, usize)| hunk_view(h)) =~= before.map_values(|h: (usize, usize)| hunk_view(h)).push(hunk_view(h)));
            },
            None => {},
        }
        i = i + 1;
    }
    assert(lv.take(ls@.len() as int) =~= lv);
    out
}

// ---------------------------------------------------------------------------
// Markers near changed hunks
// ---------------------------------------------------------------------------

/// Some marker line lies within `window` lines of the hunk `(start, len)`:
/// between `start - window` (at least 0) and `start + len + window`.
pub open spec fn hunk_covered(h: (nat, nat), markers: Seq<nat>, window: nat) -> bool {
    let lo = if h.0 >= window { h.0 - window } else { 0 };
    let hi = h.0 + h.1 + window;
    exists|k: int| 0 <= k < markers.len() && lo <= #[trigger] markers[k] && markers[k] <= hi
}

/// Whether a changed file counts as marked when markers must sit near the
/// hunks: every hunk has a marker line within `window`; when there are no
/// hunks (a rename, a deletion, no repository), any marker line suffices.
pub open spec fn marked_near(hunks: Seq<(nat, nat)>, markers: Seq<nat>, window: nat) -> bool {
    if hunks.len() > 0 {
        forall|i: int| 0 <= i < hunks.len() ==> hunk_covered(#[trigger] hunks[i], markers, window)
    } else {
        markers.len() > 0
    }
}

pub open spec fn nats(v: Seq<usize>) -> Seq<nat> {
    v.map_values(|x: usize| x as nat)
}

fn covered(start: usize, len: usize, markers: &Vec<usize>, window: usize) -> (b: bool)
    ensures
        b == hunk_covered((start as nat, len as nat), nats(markers@), window as nat),
{
    let lo: usize = if start >= window { start - window } else { 0 };
    let hi: u128 = start as u128 + len as u128 + window as u128;
    let mut k: usize = 0;
    while k < markers.len()
        invariant
            k <= markers@.len(),
            lo == (if start >= window { start - window } else { 0 }),
            hi == start + len + window,
            forall|j: int| 0 <= j < k ==> !(lo <= markers@[j] && markers@[j] <= hi),
        decreases markers@.len() - k,
    {
        let m = markers[k];
        if lo <= m && (m as u128) <= hi {
            assert(nats(markers@)[k as int] == m as nat);
            assert(hunk_covered((start as nat, len as nat), nats(markers@), window as nat));
            return true;
        }
        k = k + 1;
    }
    assert forall|j: int| 0 <= j < nats(markers@).len() implies !(lo <= #[trigger] nats(markers@)[j] && nats(markers@)[j] <= hi) by {
        assert(nats(markers@)[j] == markers@[j] as nat);
    }
    false
}

/// Whether every hunk has a marker line within `window` (or, without hunks,
/// whether there is any marker line at all).
pub fn marked_near_hunks(hunks: &Vec<(usize, usize)>, markers: &Vec<usize>, window: usize) -> (b: bool)
    ensures
        b == marked_near(hunks@.map_values(|h: (usize, usize)| hunk_view(h)), nats(markers@), window as nat),
        hunks@.len() > 0 ==> (b <==> forall|i: int| 0 <= i < hunks@.len()
            ==> marker_between(nats(markers@), (#[trigger] hunks@[i]).0 - window, hunks@[i].0 + hunks@[i].1 + window)),
{
    let ghost hv = hunks@.map_values(|h: (usize, usize)| hunk_view(h));
    proof {
        lemma_marked_near_window(hv, nats(markers@), window as nat);
    }
    if hunks.len() == 0 {
        return markers.len() > 0;
    }
    let mut i: usize = 0;
    while i < hunks.len()
        invariant
            i <= hunks@.len(),
            hv == hunks@.map_values(|h: (usize, usize)| hunk_view(h)),
            forall|j: int| 0 <= j < i ==> hunk_covered(#[trigger] hv[j], nats(markers@), window as nat),
        decreases hunks@.len() - i,
    {
        let (s, l) = hunks[i];
        if !covered(s, l, markers, window) {
            assert(hv[i as int] == (s as nat, l as nat));
            return false;
        }
        i = i + 1;
    }
    proof {
        assert forall|j: int| 0 <= j < hunks@.len() implies marker_between(nats(markers@), (#[trigger] hunks@[j]).0 - window,
            hunks@[j].0 + hunks@[j].1 + window) by {
            assert(hv[j] == (hunks@[j].0 as nat, hunks@[j].1 as nat));
            lemma_hunk_window(hv[j], nats(markers@), window as nat);
        }
    }
    true
}

// ---------------------------------------------------------------------------
// Verdicts
// ---------------------------------------------------------------------------

/// The headline of the report: FAIL on validator errors, WARN on warnings,
/// ghost references or markerless changed source, else OK.
pub open spec fn headline_spec(val_errors: nat, val_warnings: nat, ghosts: nat, markerless: nat) -> Seq<char> {
    if val_errors > 0 {
        "FAIL"@
    } else if val_warnings > 0 || ghosts > 0 || markerless > 0 {
        "WARN"@
    } else {
        "OK"@
    }
}

/// The headline of the report.
pub fn headline(val_errors: usize, val_warnings: usize, ghosts: usize, markerless: usize) -> (r: &'static str)
    ensures
        r@ == headline_spec(val_errors as nat, val_warnings as nat, ghosts as nat, markerless as nat),
{
    if val_errors > 0 {
        "FAIL"
    } else if val_warnings > 0 || ghosts > 0 || markerless > 0 {
        "WARN"
    } else {
        "OK"
    }
}

/// Whether the review exits with failure: validator errors always do; in
/// gate mode so do ghost references, markerless changed source, and (when
/// asked) Verified requirements whose latest evidence failed.
pub open spec fn fails_spec(val_errors: nat, ghosts: nat, markerless: nat, defects: nat, no_defects: bool, gate: bool) -> bool {
    val_errors > 0 || (gate && (ghosts > 0 || markerless > 0 || (no_defects && defects > 0)))
}

/// Whether the review exits with failure.
pub fn review_fails(val_errors: usize, ghosts: usize, markerless: usize, defects: usize, no_defects: bool, gate: bool) -> (b: bool)
    ensures
        b == fails_spec(val_errors as nat, ghosts as nat, markerless as nat, defects as nat, no_defects, gate),
{
    let gate_fail = val_errors > 0 || ghosts > 0 || markerless > 0 || (no_defects && defects > 0);
    val_errors > 0 || (gate && gate_fail)
}

/// The legal next move for a cited requirement in its current status.
pub open spec fn next_move(id: Seq<char>, s: Status) -> Seq<char> {
    match s {
        Status::Draft => "advance with `req update "@ + id + " --status proposed --reason \"...\"`"@,
        Status::Proposed => "advance with `req update "@ + id + " --status approved --reason \"...\"`"@,
        Status::Approved => "mark implemented with `req update "@ + id + " --status implemented --reason \"...\"`"@,
        Status::Implemented => "verify with `req verify "@ + id + " --by inspection --notes \"...\" --promote`"@,
        Status::Verified => "(already verified — no action)"@,
        Status::Obsolete => "(retired — no action)"@,
    }
}

/// Propose the legal next move for a cited requirement.
pub fn suggestion(id: &str, s: Status) -> (r: String)
    ensures
        r@ == next_move(id@, s),
{
    let (pre, post): (&str, &str) = match s {
        Status::Draft => ("advance with `req update ", " --status proposed --reason \"...\"`"),
        Status::Proposed => ("advance with `req update ", " --status approved --reason \"...\"`"),
        Status::Approved => ("mark implemented with `req update ", " --status implemented --reason \"...\"`"),
        Status::Implemented => ("verify with `req verify ", " --by inspection --notes \"...\" --promote`"),
        Status::Verified => return string_of(&chars_of("(already verified — no action)")),
        Status::Obsolete => return string_of(&chars_of("(retired — no action)")),
    };
    let mut out = string_of(&chars_of(pre));
    out.append(id);
    out.append(post);
    out
}


// ---------------------------------------------------------------------------
// Scanning the changed files
// ---------------------------------------------------------------------------

/// A requirement id as it appears in text.
pub const REQ_TOKEN: &'static str = "REQ-\\d{4}";

/// A requirement id on a comment line: after a line-leading `//`, `#`,
/// `--`, `;`, `/*` or `*`, or after a `//` or `#` further along.
pub const MARKER_LINE: &'static str = "(?m)^\\s*(?:(?://|#|--|;|/\\*|\\*)|.*?(?://|#))\\s*.*?(REQ-\\d{4})";

/// `s` without trailing slashes.
pub open spec fn strip_slashes(s: Seq<char>) -> Seq<char>
    decreases s.len(),
{
    if s.len() > 0 && s.last() == '/' { strip_slashes(s.drop_last()) } else { s }
}

/// The part of `s` after its last slash (all of it without one).
pub open spec fn last_segment(s: Seq<char>) -> Seq<char>
    decreases s.len(),
{
    if s.len() == 0 {
        s
    } else if s.last() == '/' {
        Seq::empty()
    } else {
        last_segment(s.drop_last()).push(s.last())
    }
}

/// The position of the last dot of `s`.
pub open spec fn last_dot(s: Seq<char>) -> Option<int>
    decreases s.len(),
{
    if s.len() == 0 {
        None
    } else if s.last() == '.' {
        Some(s.len() - 1)
    } else {
        last_dot(s.drop_last())
    }
}

/// The extension of a path: what follows the last dot of its last segment,
/// unless that dot begins the segment; none for `.` and `..`.
pub open spec fn extension_spec(path: Seq<char>) -> Option<Seq<char>> {
    let name = last_segment(strip_slashes(path));
    if name == ".."@ {
        None
    } else {
        match last_dot(name) {
            Some(i) => if i == 0 { None } else { Some(name.skip(i + 1)) },
            None => None,
        }
    }
}

/// The extension of a path (see `extension_spec`).
pub fn extension_of(path: &str) -> (r: Option<String>)
    ensures
        match extension_spec(path@) {
            Some(e) => r.is_some() && r.unwrap()@ == e,
            None => r.is_none(),
        },
{
    let v = chars_of(path);
    let mut end: usize = v.len();
    assert(v@.take(v@.len() as int) =~= v@);
    while end > 0 && v[end - 1] == '/'
        invariant
            end <= v@.len(),
            strip_slashes(v@) == strip_slashes(v@.take(end as int)),
        decreases end,
    {
        assert(v@.take(end as int).drop_last() =~= v@.take(end - 1));
        end = end - 1;
    }
    let ghost q = v@.take(end as int);
    assert(strip_slashes(q) == q);
    assert(v@ =~= path@);
    assert(v@.take(v@.len() as int) =~= v@);
    let mut start: usize = end;
    while start > 0 && v[start - 1] != '/'
        invariant
            start <= end,
            end <= v@.len(),
            q == v@.take(end as int),
            last_segment(q) == last_segment(v@.take(start as int)) + v@.subrange(start as int, end as int),
        decreases start,
    {
        let ghost pre = v@.take(start as int);
        assert(pre.drop_last() =~= v@.take(start - 1));
        assert(v@.subrange(start - 1, end as int) =~= seq![pre.last()] + v@.subrange(start as int, end as int));
        assert(last_segment(pre) == last_segment(pre.drop_last()).push(pre.last()));
        assert(last_segment(v@.take(start - 1)).push(pre.last()) + v@.subrange(start as int, end as int)
            =~= last_segment(v@.take(start - 1)) + v@.subrange(start - 1, end as int));
        start = start - 1;
    }
    proof {
        if start > 0 {
            assert(v@.take(start as int).last() == '/');
            assert(last_segment(v@.take(start as int)) == Seq::<char>::empty());
        } else {
            assert(v@.take(0).len() == 0);
        }
    }
    let name = crate::text::suffix_from(&prefix_upto(&v, end), start);
    assert(name@ =~= last_segment(q));
    let dots = chars_of("..");
    proof {
        reveal_strlit("..");
    }
    if crate::text::chars_eq(&name, &dots) {
        return None;
    }
    let mut k: usize = name.len();
    assert(name@.take(name@.len() as int) =~= name@);
    while k > 0 && name[k - 1] != '.'
        invariant
            k <= name@.len(),
            last_dot(name@) == last_dot(name@.take(k as int)),
        decreases k,
    {
        assert(name@.take(k as int).drop_last() =~= name@.take(k - 1));
        k = k - 1;
    }
    assert(name@.take(name@.len() as int) =~= name@);
    if k == 0 {
        assert(name@.take(0).len() == 0);
        return None;
    }
    assert(name@.take(k as int).last() == '.');
    if k == 1 {
        return None;
    }
    let e = suffix_from(&name, k);
    Some(string_of(&e))
}

/// A changed file: its path as the repository lists it, its text when it
/// could be read, and its zero-context diff when one could be had.
pub struct ChangedFile {
    pub path: String,
    pub text: Option<String>,
    pub diff: Option<String>,
}

/// What the scan of the changed files found.
pub struct CoverageScan {
    /// `(id, file)` for each id cited in a file that names no requirement.
    pub ghosts: Vec<(String, String)>,
    /// The existing requirements cited by the files.
    pub referenced: Vec<String>,
    /// Changed source files that carry no marker.
    pub markerless: Vec<String>,
}

/// Whether any pattern matches the path.
pub open spec fn ignored_by(pats: Seq<Seq<char>>, rel: Seq<char>) -> bool {
    exists|i: int| 0 <= i < pats.len() && glob(#[trigger] pats[i], rel)
}

/// Whether a path names a source file: its lowercased extension is listed.
pub open spec fn is_source_spec(exts: Seq<Seq<char>>, path: Seq<char>) -> bool {
    match extension_spec(path) {
        Some(e) => exts.contains(lower_seq(e)),
        None => false,
    }
}

/// A captured group that names an existing requirement.
pub open spec fn known_group(g: Option<Seq<char>>, reqs: Seq<Requirement>) -> bool {
    match g {
        Some(id) => has_key(reqs, id),
        None => false,
    }
}

/// Some first group names an existing requirement.
pub open spec fn cites_known(groups: Seq<Option<Seq<char>>>, reqs: Seq<Requirement>) -> bool {
    exists|k: int| 0 <= k < groups.len() && known_group(#[trigger] groups[k], reqs)
}

/// The numbers (from 1) of the lines that carry a marker of an existing
/// requirement, in order.
pub open spec fn marker_lines_from(ls: Seq<Seq<char>>, reqs: Seq<Requirement>) -> Seq<nat>
    decreases ls.len(),
{
    if ls.len() == 0 {
        Seq::empty()
    } else {
        let rest = marker_lines_from(ls.drop_last(), reqs);
        if cites_known(groups_of(MARKER_LINE@, ls.last()), reqs) { rest.push(ls.len() as nat) } else { rest }
    }
}

/// Whether a readable changed file counts as marked: with a window, every
/// changed hunk needs a marker line near it; without, any marker will do.
pub open spec fn file_marked(text: Seq<char>, diff: Option<Seq<char>>, reqs: Seq<Requirement>, window: nat) -> bool {
    if window > 0 {
        let hunks = match diff {
            Some(d) => hunks_of(lines_of(d)),
            None => Seq::empty(),
        };
        marked_near(hunks, marker_lines_from(lines_of(text), reqs), window)
    } else {
        cites_known(groups_of(MARKER_LINE@, text), reqs)
    }
}

pub open spec fn rel_of(f: ChangedFile) -> Seq<char> {
    forward_slashed(f.path@)
}

/// A file the scan reads: not ignored, and readable.
pub open spec fn scanned(f: ChangedFile, pats: Seq<Seq<char>>) -> bool {
    !ignored_by(pats, rel_of(f)) && f.text.is_some()
}

/// The requirement ids a file cites.
pub open spec fn tokens(f: ChangedFile) -> Seq<Seq<char>> {
    matches_of(REQ_TOKEN@, f.text.unwrap()@)
}

/// The ghost references among the scanned files.
pub open spec fn ghost_set(files: Seq<ChangedFile>, pats: Seq<Seq<char>>, reqs: Seq<Requirement>) -> Set<(Seq<char>, Seq<char>)>
    decreases files.len(),
{
    if files.len() == 0 {
        Set::empty()
    } else {
        let f = files.last();
        let rest = ghost_set(files.drop_last(), pats, reqs);
        if scanned(f, pats) {
            rest.union(Set::new(|x: (Seq<char>, Seq<char>)| tokens(f).contains(x.0) && !has_key(reqs, x.0) && x.1 == rel_of(f)))
        } else {
            rest
        }
    }
}

/// The existing requirements cited among the scanned files.
pub open spec fn cited_set(files: Seq<ChangedFile>, pats: Seq<Seq<char>>, reqs: Seq<Requirement>) -> Set<Seq<char>>
    decreases files.len(),
{
    if files.len() == 0 {
        Set::empty()
    } else {
        let f = files.last();
        let rest = cited_set(files.drop_last(), pats, reqs);
        if scanned(f, pats) {
            rest.union(Set::new(|id: Seq<char>| tokens(f).contains(id) && has_key(reqs, id)))
        } else {
            rest
        }
    }
}

/// The scanned source files without a marker, in order.
pub open spec fn markerless_of(files: Seq<ChangedFile>, pats: Seq<Seq<char>>, exts: Seq<Seq<char>>,
    reqs: Seq<Requirement>, window: nat) -> Seq<Seq<char>>
    decreases files.len(),
{
    if files.len() == 0 {
        Seq::empty()
    } else {
        let f = files.last();
        let rest = markerless_of(files.drop_last(), pats, exts, reqs, window);
        if scanned(f, pats) && is_source_spec(exts, f.path@)
            && !file_marked(f.text.unwrap()@, match f.diff { Some(d) => Some(d@), None => None }, reqs, window) {
            rest.push(rel_of(f))
        } else {
            rest
        }
    }
}

fn is_ignored(pats: &Vec<String>, rel: &str) -> (b: bool)
    ensures
        b == ignored_by(views(pats@), rel@),
{
    let mut i: usize = 0;
    while i < pats.len()
        invariant
            i <= pats@.len(),
            forall|j: int| 0 <= j < i ==> !glob(#[trigger] views(pats@)[j], rel@),
        decreases pats@.len() - i,
    {
        if glob_match(pats[i].as_str(), rel) {
            assert(glob(views(pats@)[i as int], rel@));
            return true;
        }
        i = i + 1;
    }
    false
}

fn listed(v: &Vec<String>, s: &str) -> (b: bool)
    ensures
        b == views(v@).contains(s@),
{
    let mut i: usize = 0;
    while i < v.len()
        invariant
            i <= v@.len(),
            forall|j: int| 0 <= j < i ==> views(v@)[j] != s@,
        decreases v@.len() - i,
    {
        if str_eq(v[i].as_str(), s) {
            assert(views(v@)[i as int] == s@);
            return true;
        }
        i = i + 1;
    }
    false
}

/// Whether a path names a source file.
pub fn is_source(exts: &Vec<String>, path: &str) -> (b: bool)
    ensures
        b == is_source_spec(views(exts@), path@),
{
    match extension_of(path) {
        Some(e) => {
            let low = to_lower(e.as_str());
            listed(exts, low.as_str())
        },
        None => false,
    }
}

fn any_known(groups: &Vec<Option<String>>, reqs: &IdMap<Requirement>) -> (b: bool)
    ensures
        b == cites_known(crate::patterns::opt_views(groups@), reqs.view()),
{
    let ghost g = crate::patterns::opt_views(groups@);
    let mut k: usize = 0;
    while k < groups.len()
        invariant
            k <= groups@.len(),
            g == crate::patterns::opt_views(groups@),
            forall|q: int| 0 <= q < k ==> !known_group(#[trigger] g[q], reqs.view()),
        decreases groups@.len() - k,
    {
        match &groups[k] {
            Some(id) => if reqs.contains_key(id.as_str()) {
                assert(g[k as int] == Some(id@));
                return true;
            },
            None => {},
        }
        k = k + 1;
    }
    false
}

fn marker_lines(text: &str, reqs: &IdMap<Requirement>) -> (r: Vec<usize>)
    ensures
        nats(r@) == marker_lines_from(lines_of(text@), reqs.view()),
{
    let ls = lines(text);
    let ghost lv = views(ls@);
    let mut out: Vec<usize> = Vec::new();
    let mut i: usize = 0;
    while i < ls.len()
        invariant
            i <= ls@.len(),
            lv == views(ls@),
            lv == lines_of(text@),
            nats(out@) == marker_lines_from(lv.take(i as int), reqs.view()),
        decreases ls@.len() - i,
    {
        assert(lv.take(i + 1).drop_last() =~= lv.take(i as int));
        assert(lv.take(i + 1).last() == ls@[i as int]@);
        let gs = groups_in(MARKER_LINE, ls[i].as_str());
        if any_known(&gs, reqs) {
            let ghost before = nats(out@);
            out.push(i + 1);
            assert(nats(out@) =~= before.push((i + 1) as nat));
        }
        i = i + 1;
    }
    assert(lv.take(ls@.len() as int) =~= lv);
    out
}

fn marked(text: &str, diff: &Option<String>, reqs: &IdMap<Requirement>, window: u32) -> (b: bool)
    ensures
        b == file_marked(text@, match diff { Some(d) => Some(d@), None => None }, reqs.view(), window as nat),
{
    if window > 0 {
        let markers = marker_lines(text, reqs);
        let hunks = match diff {
            Some(d) => parse_hunks(d.as_str()),
            None => Vec::new(),
        };
        proof {
            if diff.is_none() {
                assert(hunks@.map_values(|h: (usize, usize)| hunk_view(h)) =~= Seq::<(nat, nat)>::empty());
            }
        }
        marked_near_hunks(&hunks, &markers, window as usize)
    } else {
        let gs = groups_in(MARKER_LINE, text);
        any_known(&gs, reqs)
    }
}

/// Scan the changed files of a review range: skip those an ignore pattern
/// matches and those that could not be read; collect the ids each cites
/// that name no requirement (ghosts, per file) and those that do; list the
/// source files (by extension) that carry no marker, with `window` the
/// number of lines a marker may sit from each changed hunk (0: anywhere in
/// the file).
pub fn scan_changed(project: &Project, files: &Vec<ChangedFile>, exts: &Vec<String>, ignore: &Vec<String>, window: u32)
    -> (r: CoverageScan)
    ensures
        pairs_sorted(pair_views(r.ghosts@)),
        pair_views(r.ghosts@).to_set() == ghost_set(files@, views(ignore@), project.requirements.view()),
        strictly_sorted(views(r.referenced@)),
        views(r.referenced@).to_set() == cited_set(files@, views(ignore@), project.requirements.view()),
        views(r.markerless@) == markerless_of(files@, views(ignore@), views(exts@), project.requirements.view(), window as nat),
{
    let ghost reqs = project.requirements.view();
    let ghost pats = views(ignore@);
    let mut ghosts: Vec<(String, String)> = Vec::new();
    let mut referenced: Vec<String> = Vec::new();
    let mut markerless: Vec<String> = Vec::new();
    assert(pair_views(ghosts@).to_set() =~= Set::<(Seq<char>, Seq<char>)>::empty());
    assert(views(referenced@).to_set() =~= Set::<Seq<char>>::empty());
    let mut i: usize = 0;
    while i < files.len()
        invariant
            i <= files@.len(),
            reqs == project.requirements.view(),
            pats == views(ignore@),
            pairs_sorted(pair_views(ghosts@)),
            pair_views(ghosts@).to_set() == ghost_set(files@.take(i as int), pats, reqs),
            strictly_sorted(views(referenced@)),
            views(referenced@).to_set() == cited_set(files@.take(i as int), pats, reqs),
            views(markerless@) == markerless_of(files@.take(i as int), pats, views(exts@), reqs, window as nat),
        decreases files@.len() - i,
    {
        let f = &files[i];
        let ghost pre = files@.take(i as int);
        assert(files@.take(i + 1).drop_last() =~= pre);
        assert(files@.take(i + 1).last() == *f);
        let rel = to_forward_slashes(f.path.as_str());
        let ghost g0 = pair_views(ghosts@).to_set();
        let ghost c0 = views(referenced@).to_set();
        if !is_ignored(ignore, rel.as_str()) {
            match &f.text {
                Some(text) => {
                    let toks = matches_in(REQ_TOKEN, text.as_str());
                    let ghost tv = views(toks@);
                    let mut k: usize = 0;
                    while k < toks.len()
                        invariant
                            k <= toks@.len(),
                            tv == views(toks@),
                            tv == tokens(*f),
                            reqs == project.requirements.view(),
                            pairs_sorted(pair_views(ghosts@)),
                            strictly_sorted(views(referenced@)),
                            pair_views(ghosts@).to_set() == g0.union(Set::new(|x: (Seq<char>, Seq<char>)|
                                tv.take(k as int).contains(x.0) && !has_key(reqs, x.0) && x.1 == rel@)),
                            views(referenced@).to_set() == c0.union(Set::new(|id: Seq<char>|
                                tv.take(k as int).contains(id) && has_key(reqs, id))),
                        decreases toks@.len() - k,
                    {
                        let id = &toks[k];
                        let ghost t = tv[k as int];
                        assert(tv.take(k + 1) =~= tv.take(k as int).push(t));
                        assert forall|y: Seq<char>| #[trigger] tv.take(k + 1).contains(y) == (tv.take(k as int).contains(y) || y == t) by {
                            if tv.take(k + 1).contains(y) {
                                let q = choose|q: int| 0 <= q < k + 1 && #[trigger] tv.take(k + 1)[q] == y;
                                if q < k {
                                    assert(tv.take(k as int)[q] == y);
                                }
                            }
                            if tv.take(k as int).contains(y) {
                                let q = choose|q: int| 0 <= q < k && #[trigger] tv.take(k as int)[q] == y;
                                assert(tv.take(k + 1)[q] == y);
                            }
                            if y == t {
                                assert(tv.take(k + 1)[k as int] == y);
                            }
                        }
                        if project.requirements.contains_key(id.as_str()) {
                            set_insert(&mut referenced, id.clone());
                            assert(views(referenced@).to_set() =~= c0.union(Set::new(|id: Seq<char>|
                                tv.take(k + 1).contains(id) && has_key(reqs, id))));
                            assert(pair_views(ghosts@).to_set() =~= g0.union(Set::new(|x: (Seq<char>, Seq<char>)|
                                tv.take(k + 1).contains(x.0) && !has_key(reqs, x.0) && x.1 == rel@)));
                        } else {
                            pair_set_insert(&mut ghosts, (id.clone(), rel.clone()));
                            assert(pair_views(ghosts@).to_set() =~= g0.union(Set::new(|x: (Seq<char>, Seq<char>)|
                                tv.take(k + 1).contains(x.0) && !has_key(reqs, x.0) && x.1 == rel@)));
                            assert(views(referenced@).to_set() =~= c0.union(Set::new(|id: Seq<char>|
                                tv.take(k + 1).contains(id) && has_key(reqs, id))));
                        }
                        k = k + 1;
                    }
                    assert(tv.take(toks@.len() as int) =~= tv);
                    if is_source(exts, f.path.as_str()) && !marked(text.as_str(), &f.diff, &project.requirements, window) {
                        let ghost before = views(markerless@);
                        markerless.push(rel);
                        assert(views(markerless@) =~= before.push(rel_of(*f)));
                    }
                },
                None => {},
            }
        }
        i = i + 1;
    }
    assert(files@.take(files@.len() as int) =~= files@);
    CoverageScan { ghosts, referenced, markerless }
}

/// A ghost reference as the report lists it: `id (in file)`.
pub fn ghost_line(g: &(String, String)) -> (r: String)
    ensures
        r@ == g.0@ + " (in "@ + g.1@ + ")"@,
{
    let mut s = g.0.clone();
    s.append(" (in ");
    s.append(g.1.as_str());
    s.append(")");
    s
}

/// The file extensions the review gate treats as source by default.
pub open spec fn default_source_exts_spec() -> Seq<Seq<char>> {
    seq!["rs"@, "py"@, "js"@, "ts"@, "tsx"@, "jsx"@, "go"@, "java"@, "kt"@, "kts"@, "scala"@, "swift"@, "cs"@, "rb"@, "php"@, "lua"@, "hs"@, "ml"@, "ex"@, "exs"@, "erl"@, "clj"@, "cljs"@, "dart"@, "zig"@, "nim"@, "v"@, "cr"@, "fs"@, "fsx"@, "groovy"@, "pl"@, "pm"@, "sh"@, "bash"@, "ps1"@, "psm1"@, "c"@, "cc"@, "cpp"@, "cxx"@, "h"@, "hh"@, "hpp"@, "hxx"@, "m"@, "mm"@, "rsx"@, "sql"@]
}

/// The file extensions the review gate treats as source by default.
pub fn default_source_exts() -> (r: Vec<String>)
    ensures
        views(r@) == default_source_exts_spec(),
{
    let mut v: Vec<String> = Vec::new();
    v.push(String::from_str("rs"));
    v.push(String::from_str("py"));
    v.push(String::from_str("js"));
    v.push(String::from_str("ts"));
    v.push(String::from_str("tsx"));
    v.push(String::from_str("jsx"));
    v.push(String::from_str("go"));
    v.push(String::from_str("java"));
    v.push(String::from_str("kt"));
    v.push(String::from_str("kts"));
    v.push(String::from_str("scala"));
    v.push(String::from_str("swift"));
    v.push(String::from_str("cs"));
    v.push(String::from_str("rb"));
    v.push(String::from_str("php"));
    v.push(String::from_str("lua"));
    v.push(String::from_str("hs"));
    v.push(String::from_str("ml"));
    v.push(String::from_str("ex"));
    v.push(String::from_str("exs"));
    v.push(String::from_str("erl"));
    v.push(String::from_str("clj"));
    v.push(String::from_str("cljs"));
    v.push(String::from_str("dart"));
    v.push(String::from_str("zig"));
    v.push(String::from_str("nim"));
    v.push(String::from_str("v"));
    v.push(String::from_str("cr"));
    v.push(String::from_str("fs"));
    v.push(String::from_str("fsx"));
    v.push(String::from_str("groovy"));
    v.push(String::from_str("pl"));
    v.push(String::from_str("pm"));
    v.push(String::from_str("sh"));
    v.push(String::from_str("bash"));
    v.push(String::from_str("ps1"));
    v.push(String::from_str("psm1"));
    v.push(String::from_str("c"));
    v.push(String::from_str("cc"));
    v.push(String::from_str("cpp"));
    v.push(String::from_str("cxx"));
    v.push(String::from_str("h"));
    v.push(String::from_str("hh"));
    v.push(String::from_str("hpp"));
    v.push(String::from_str("hxx"));
    v.push(String::from_str("m"));
    v.push(String::from_str("mm"));
    v.push(String::from_str("rsx"));
    v.push(String::from_str("sql"));
    assert(views(v@) =~= default_source_exts_spec());
    v
}

/// The paths the review gate leaves out of the markerless check by default:
/// the project file itself, test trees, build helpers, generated code and
/// project documentation.
pub open spec fn default_review_ignores_spec(project_file: Seq<char>) -> Seq<Seq<char>> {
    seq!["**/"@ + project_file, project_file] + seq!["**/tests/**"@, "**/test/**"@, "**/__tests__/**"@, "**/spec/**"@, "**/specs/**"@, "**/*_test.*"@, "**/*.test.*"@, "**/*.spec.*"@, "build.rs"@, "**/build.rs"@, "**/generated/**"@, "**/.generated/**"@, "CHANGELOG.md"@, "**/CHANGELOG.md"@, "README.md"@, "**/README.md"@, "AGENTS.md"@, "**/AGENTS.md"@]
}

/// The default markerless-check exclusions for a project file named
/// `project_file`.
pub fn default_review_ignores(project_file: &str) -> (r: Vec<String>)
    ensures
        views(r@) == default_review_ignores_spec(project_file@),
{
    let mut v: Vec<String> = Vec::new();
    let mut first = String::from_str("**/");
    first.append(project_file);
    v.push(first);
    v.push(String::from_str(project_file));
    v.push(String::from_str("**/tests/**"));
    v.push(String::from_str("**/test/**"));
    v.push(String::from_str("**/__tests__/**"));
    v.push(String::from_str("**/spec/**"));
    v.push(String::from_str("**/specs/**"));
    v.push(String::from_str("**/*_test.*"));
    v.push(String::from_str("**/*.test.*"));
    v.push(String::from_str("**/*.spec.*"));
    v.push(String::from_str("build.rs"));
    v.push(String::from_str("**/build.rs"));
    v.push(String::from_str("**/generated/**"));
    v.push(String::from_str("**/.generated/**"));
    v.push(String::from_str("CHANGELOG.md"));
    v.push(String::from_str("**/CHANGELOG.md"));
    v.push(String::from_str("README.md"));
    v.push(String::from_str("**/README.md"));
    v.push(String::from_str("AGENTS.md"));
    v.push(String::from_str("**/AGENTS.md"));
    assert(views(v@) =~= default_review_ignores_spec(project_file@));
    v
}


// ---------------------------------------------------------------------------
// The whole review
// ---------------------------------------------------------------------------

/// The next move proposed for a cited id: by the requirement's status
/// (empty for an id that names none).
pub open spec fn move_for(reqs: Seq<Requirement>, id: Seq<char>) -> Seq<char> {
    match lookup(reqs, id) {
        Some(r) => next_move(id, r.status),
        None => Seq::empty(),
    }
}

/// How many findings of `fs` are errors (`error`) or warnings (`!error`).
pub open spec fn count_in(fs: Seq<Finding>, error: bool) -> nat
    decreases fs.len(),
{
    if fs.len() == 0 {
        0
    } else {
        count_in(fs.drop_last(), error) + if fs.last().error == error { 1nat } else { 0nat }
    }
}

/// How many findings of the groups `gs` are errors (`error`) or warnings.
pub open spec fn count_in_groups(gs: Seq<FindingGroup>, error: bool) -> nat
    decreases gs.len(),
{
    if gs.len() == 0 {
        0
    } else {
        count_in_groups(gs.drop_last(), error) + count_in(gs.last().findings@, error)
    }
}

proof fn lemma_count_in_prefix(fs: Seq<Finding>, error: bool, j: int)
    requires
        0 <= j <= fs.len(),
    ensures
        count_in(fs.take(j), error) <= count_in(fs, error),
    decreases fs.len(),
{
    if j < fs.len() {
        assert(fs.drop_last().take(j) =~= fs.take(j));
        lemma_count_in_prefix(fs.drop_last(), error, j);
    } else {
        assert(fs.take(j) =~= fs);
    }
}

proof fn lemma_groups_prefix(gs: Seq<FindingGroup>, error: bool, i: int)
    requires
        0 <= i <= gs.len(),
    ensures
        count_in_groups(gs.take(i), error) <= count_in_groups(gs, error),
    decreases gs.len(),
{
    if i < gs.len() {
        assert(gs.drop_last().take(i) =~= gs.take(i));
        lemma_groups_prefix(gs.drop_last(), error, i);
    } else {
        assert(gs.take(i) =~= gs);
    }
}

/// Count the validator's errors (`error`) or warnings over all groups.
fn count_findings(gs: &Vec<FindingGroup>, error: bool) -> (n: usize)
    requires
        count_in_groups(gs@, error) <= usize::MAX,
    ensures
        n == count_in_groups(gs@, error),
{
    let mut n: usize = 0;
    let mut i: usize = 0;
    while i < gs.len()
        invariant
            i <= gs@.len(),
            count_in_groups(gs@, error) <= usize::MAX,
            n == count_in_groups(gs@.take(i as int), error),
        decreases gs@.len() - i,
    {
        let fs = &gs[i].findings;
        let ghost base = n as nat;
        proof {
            assert(gs@.take(i + 1).drop_last() =~= gs@.take(i as int));
            lemma_groups_prefix(gs@, error, i + 1);
        }
        let mut j: usize = 0;
        while j < fs.len()
            invariant
                j <= fs@.len(),
                fs@ == gs@[i as int].findings@,
                i < gs@.len(),
                count_in_groups(gs@.take(i as int), error) + count_in(fs@, error) <= usize::MAX,
                base == count_in_groups(gs@.take(i as int), error),
                n == base + count_in(fs@.take(j as int), error),
            decreases fs@.len() - j,
        {
            proof {
                assert(fs@.take(j + 1).drop_last() =~= fs@.take(j as int));
                lemma_count_in_prefix(fs@, error, j + 1);
            }
            if fs[j].error == error {
                n = n + 1;
            }
            j = j + 1;
        }
        assert(fs@.take(fs@.len() as int) =~= fs@);
        i = i + 1;
    }
    assert(gs@.take(gs@.len() as int) =~= gs@);
    n
}

/// What `req review` decides: the changed requirements, the scan of the
/// changed files, the validator's counts, the defects, the headline, the
/// next move for every cited requirement, and whether the review fails.
pub struct ReviewOutcome {
    pub added: Vec<String>,
    pub removed: Vec<String>,
    pub changed: Vec<String>,
    pub scan: CoverageScan,
    pub val_errors: usize,
    pub val_warnings: usize,
    pub defects: Vec<String>,
    pub headline: &'static str,
    pub next_moves: Vec<String>,
    pub fails: bool,
}

/// Review the changes since `base` (none when the base revision could not
/// be read): `files` are the changed files, `exts` the source extensions,
/// `ignore` the excluded globs, `window` the hunk window (0: anywhere in the
/// file), and `findings` the validator's findings on `current`. Validator errors always fail the review; under `gate` so do
/// ghost references, markerless changed source and, with `no_defects`,
/// defective Verified requirements.
pub fn review_outcome(base: Option<&Project>, current: &Project, files: &Vec<ChangedFile>, exts: &Vec<String>,
    ignore: &Vec<String>, window: u32, findings: &Vec<FindingGroup>, gate: bool, no_defects: bool)
    -> (r: ReviewOutcome)
    requires
        count_in_groups(findings@, true) <= usize::MAX,
        count_in_groups(findings@, false) <= usize::MAX,
    ensures
        match base {
            Some(b) => {
                &&& views(r.added@) == ids_missing_from(current.requirements.view(), b.requirements.view())
                &&& views(r.removed@) == ids_missing_from(b.requirements.view(), current.requirements.view())
                &&& views(r.changed@) == ids_changed(current.requirements.view(), b.requirements.view())
            },
            None => {
                &&& views(r.added@) == ids_missing_from(current.requirements.view(), Seq::empty())
                &&& r.removed@.len() == 0
                &&& r.changed@.len() == 0
            },
        },
        pairs_sorted(pair_views(r.scan.ghosts@)),
        pair_views(r.scan.ghosts@).to_set() == ghost_set(files@, views(ignore@), current.requirements.view()),
        strictly_sorted(views(r.scan.referenced@)),
        views(r.scan.referenced@).to_set() == cited_set(files@, views(ignore@), current.requirements.view()),
        views(r.scan.markerless@) == markerless_of(files@, views(ignore@), views(exts@), current.requirements.view(), window as nat),
        r.val_errors == count_in_groups(findings@, true),
        r.val_warnings == count_in_groups(findings@, false),
        views(r.defects@) == defective_ids(current.requirements.view()),
        r.headline@ == headline_spec(r.val_errors as nat, r.val_warnings as nat, r.scan.ghosts@.len(), r.scan.markerless@.len()),
        r.next_moves@.len() == r.scan.referenced@.len(),
        forall|i: int| 0 <= i < r.next_moves@.len() ==> (#[trigger] r.next_moves@[i])@ == move_for(
            current.requirements.view(), r.scan.referenced@[i]@),
        r.fails == fails_spec(r.val_errors as nat, r.scan.ghosts@.len(), r.scan.markerless@.len(), r.defects@.len(), no_defects, gate),
{
    let val_errors = count_findings(findings, true);
    let val_warnings = count_findings(findings, false);
    let (added, removed, changed) = diff_buckets(base, current);
    let scan = scan_changed(current, files, exts, ignore, window);
    let defects = verified_but_defective(current);
    let headline = headline(val_errors, val_warnings, scan.ghosts.len(), scan.markerless.len());
    let mut next_moves: Vec<String> = Vec::new();
    let mut i: usize = 0;
    while i < scan.referenced.len()
        invariant
            i <= scan.referenced@.len(),
            next_moves@.len() == i,
            forall|k: int| 0 <= k < i ==> (#[trigger] next_moves@[k])@ == move_for(current.requirements.view(), scan.referenced@[k]@),
        decreases scan.referenced@.len() - i,
    {
        let id = &scan.referenced[i];
        let m = match current.requirements.get(id.as_str()) {
            Some(r) => suggestion(id.as_str(), r.status),
            None => String::new(),
        };
        next_moves.push(m);
        i = i + 1;
    }
    let fails = review_fails(val_errors, scan.ghosts.len(), scan.markerless.len(), defects.len(), no_defects, gate);
    ReviewOutcome { added, removed, changed, scan, val_errors, val_warnings, defects, headline, next_moves, fails }
}


/// Some marker line lies between lines `lo` and `hi`, both included.
pub open spec fn marker_between(markers: Seq<nat>, lo: int, hi: int) -> bool {
    exists|k: int| 0 <= k < markers.len() && lo <= #[trigger] markers[k] && markers[k] <= hi
}

/// A hunk `(start, len)` is covered exactly when some marker line lies
/// between `window` lines before its start (not below line 0) and `window`
/// lines after its end; in particular a marker `window` lines above the
/// hunk covers it.
pub proof fn lemma_hunk_window(h: (nat, nat), markers: Seq<nat>, window: nat)
    ensures
        hunk_covered(h, markers, window) <==> marker_between(markers, h.0 - window, (h.0 + h.1 + window) as int),
{
    if marker_between(markers, h.0 - window, (h.0 + h.1 + window) as int) {
        let k = choose|k: int| 0 <= k < markers.len() && h.0 - window <= #[trigger] markers[k] && markers[k] <= h.0 + h.1 + window;
        assert(markers[k] >= 0);
    }
}

/// With markers required near the hunks, a changed file is marked exactly
/// when every hunk has a marker line within `window` lines of it (or, with
/// no hunks, when there is any marker line).
pub proof fn lemma_marked_near_window(hunks: Seq<(nat, nat)>, markers: Seq<nat>, window: nat)
    ensures
        hunks.len() > 0 ==> (marked_near(hunks, markers, window) <==> forall|i: int| 0 <= i < hunks.len()
            ==> marker_between(markers, (#[trigger] hunks[i]).0 - window, (hunks[i].0 + hunks[i].1 + window) as int)),
        hunks.len() == 0 ==> (marked_near(hunks, markers, window) <==> markers.len() > 0),
{
    assert forall|i: int| 0 <= i < hunks.len() implies (hunk_covered(#[trigger] hunks[i], markers, window)
        <==> marker_between(markers, hunks[i].0 - window, (hunks[i].0 + hunks[i].1 + window) as int)) by {
        lemma_hunk_window(hunks[i], markers, window);
    }
}

} // verus!
