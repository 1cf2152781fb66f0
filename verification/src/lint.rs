//! `req lint`: a quality audit beyond the validator. Soft signals only
//! (rationale length, acceptance count, evidence, marker coverage); they
//! never fail a run, only validator errors do.
use vstd::prelude::*;

use crate::model::{EvidenceKind, Kind, Project, Requirement, Status};
use crate::review::{extension_of, extension_spec, REQ_TOKEN};
use crate::testrun::{references, SourceText};
use crate::text::{contains_str, dec_seq, dec_string, split_char, split_on, str_eq, views, words, words_of};

verus! {

/// A rationale shorter than this many words is reported.
pub const SHORT_RATIONALE_WORDS: usize = 10;

/// A functional requirement with at most this many acceptance criteria is
/// reported.
pub const SINGLE_ACCEPTANCE: usize = 1;

/// The validator rule for a very short rationale; the lint does not repeat
/// what it already reports.
pub const SHORT_RATIONALE_RULE: &'static str = "REQ-V-0013";

/// One validator finding.
pub struct Finding {
    pub rule_code: String,
    pub field: String,
    pub message: String,
    pub error: bool,
}

/// The validator's findings on one requirement.
pub struct FindingGroup {
    pub id: String,
    pub findings: Vec<Finding>,
}

// ---------------------------------------------------------------------------
// Which files the marker scan reads
// ---------------------------------------------------------------------------

/// Directory names the marker scan does not descend into.
pub open spec fn skipped_dir(name: Seq<char>) -> bool {
    name == ".git"@ || name == "target"@ || name == "node_modules"@ || name == ".agent-sandbox"@
        || name == ".venv"@ || name == "dist"@ || name == "build"@
}

/// File extensions the marker scan reads.
pub open spec fn scanned_ext(e: Seq<char>) -> bool {
    e == "rs"@ || e == "py"@ || e == "js"@ || e == "ts"@ || e == "tsx"@ || e == "go"@ || e == "java"@
        || e == "kt"@ || e == "scala"@ || e == "swift"@ || e == "cs"@ || e == "rb"@ || e == "php"@
        || e == "lua"@ || e == "c"@ || e == "cpp"@ || e == "h"@ || e == "hh"@ || e == "hpp"@
        || e == "hxx"@ || e == "m"@ || e == "mm"@
}

/// The scan reads the file at `path` (relative to the scanned root, `/`
/// separated): no directory on the way is skipped, and its extension is
/// one of the scanned ones.
pub open spec fn scan_wanted(path: Seq<char>) -> bool {
    let parts = split_on(path, '/');
    &&& forall|i: int| 0 <= i < parts.len() - 1 ==> !skipped_dir(#[trigger] parts[i])
    &&& match extension_spec(path) {
        Some(e) => scanned_ext(e),
        None => false,
    }
}

/// The directories the marker scan is documented to leave out: version
/// control, build outputs, dependencies and virtual environments.
pub open spec fn documented_skipped_dirs() -> Set<Seq<char>> {
    set![".git"@, "target"@, "node_modules"@, ".agent-sandbox"@, ".venv"@, "dist"@, "build"@]
}

/// The marker scan leaves out exactly the documented directories.
pub proof fn lemma_skipped_dirs(name: Seq<char>)
    ensures
        skipped_dir(name) <==> documented_skipped_dirs().contains(name),
{
}

/// The extensions the marker scan is documented to read: Rust, Python,
/// JavaScript and TypeScript, Go, Java, Kotlin, Scala, Swift, C#, Ruby, PHP,
/// Lua, C and C++ (sources and headers), Objective-C.
pub open spec fn documented_scan_extensions() -> Set<Seq<char>> {
    set!["rs"@, "py"@, "js"@, "ts"@, "tsx"@, "go"@, "java"@, "kt"@, "scala"@, "swift"@, "cs"@, "rb"@,
        "php"@, "lua"@, "c"@, "cpp"@, "h"@, "hh"@, "hpp"@, "hxx"@, "m"@, "mm"@]
}

/// The marker scan reads exactly the documented extensions: every one of
/// them (`java` among them) is scanned, and nothing else is.
pub proof fn lemma_scanned_extensions(e: Seq<char>)
    ensures
        scanned_ext(e) <==> documented_scan_extensions().contains(e),
{
}

fn is_skipped_dir(name: &str) -> (b: bool)
    ensures
        b == skipped_dir(name@),
{
    str_eq(name, ".git") || str_eq(name, "target") || str_eq(name, "node_modules") || str_eq(name, ".agent-sandbox")
        || str_eq(name, ".venv") || str_eq(name, "dist") || str_eq(name, "build")
}

fn is_scanned_ext(e: &str) -> (b: bool)
    ensures
        b == scanned_ext(e@),
{
    str_eq(e, "rs") || str_eq(e, "py") || str_eq(e, "js") || str_eq(e, "ts") || str_eq(e, "tsx") || str_eq(e, "go")
        || str_eq(e, "java") || str_eq(e, "kt") || str_eq(e, "scala") || str_eq(e, "swift") || str_eq(e, "cs")
        || str_eq(e, "rb") || str_eq(e, "php") || str_eq(e, "lua") || str_eq(e, "c") || str_eq(e, "cpp")
        || str_eq(e, "h") || str_eq(e, "hh") || str_eq(e, "hpp") || str_eq(e, "hxx") || str_eq(e, "m")
        || str_eq(e, "mm")
}

/// Whether the marker scan reads the file at `path`.
pub fn marker_scan_wanted(path: &str) -> (b: bool)
    ensures
        b == scan_wanted(path@),
        b ==> (extension_spec(path@) matches Some(e) && documented_scan_extensions().contains(e)),
        ((forall|i: int| 0 <= i < split_on(path@, '/').len() - 1 ==> !skipped_dir(#[trigger] split_on(path@, '/')[i]))
            && (extension_spec(path@) matches Some(e) && documented_scan_extensions().contains(e))) ==> b,
        (exists|i: int| 0 <= i < split_on(path@, '/').len() - 1
            && documented_skipped_dirs().contains(#[trigger] split_on(path@, '/')[i])) ==> !b,
{
    proof {
        assert forall|i: int| 0 <= i < split_on(path@, '/').len() - 1 implies
            (skipped_dir(#[trigger] split_on(path@, '/')[i]) <==> documented_skipped_dirs().contains(split_on(path@, '/')[i])) by {
            lemma_skipped_dirs(split_on(path@, '/')[i]);
        }
        if let Some(e) = extension_spec(path@) {
            lemma_scanned_extensions(e);
        }
    }
    let parts = split_char(path, '/');
    let ghost pv = views(parts@);
    let mut i: usize = 0;
    while i < parts.len() && i + 1 < parts.len()
        invariant
            pv == views(parts@),
            pv == split_on(path@, '/'),
            i <= parts@.len(),
            forall|k: int| 0 <= k < i ==> !skipped_dir(#[trigger] pv[k]),
        decreases parts@.len() - i,
    {
        if is_skipped_dir(parts[i].as_str()) {
            assert(skipped_dir(pv[i as int]));
            return false;
        }
        i = i + 1;
    }
    match extension_of(path) {
        Some(e) => is_scanned_ext(e.as_str()),
        None => false,
    }
}

// ---------------------------------------------------------------------------
// The report
// ---------------------------------------------------------------------------

/// Active: past Draft and not Obsolete.
pub open spec fn active(s: Status) -> bool {
    s != Status::Obsolete && s != Status::Draft
}

/// Some scanned source mentions `id`.
pub open spec fn marked(srcs: Seq<SourceText>, id: Seq<char>) -> bool {
    exists|i: int| 0 <= i < srcs.len() && references(#[trigger] srcs[i].text@, id)
}

/// The validator already reports `id`'s rationale as too short.
pub open spec fn validator_flags_rationale(groups: Seq<FindingGroup>, id: Seq<char>) -> bool {
    exists|g: int, f: int| 0 <= g < groups.len() && groups[g].id@ == id && 0 <= f < groups[g].findings@.len()
        && (#[trigger] groups[g].findings@[f]).rule_code@ == SHORT_RATIONALE_RULE@
}

/// How many of `rs` have status `s`.
pub open spec fn count_status(rs: Seq<Requirement>, s: Status) -> nat
    decreases rs.len(),
{
    if rs.len() == 0 { 0 } else { count_status(rs.drop_last(), s) + if rs.last().status == s { 1nat } else { 0nat } }
}

/// How many of `rs` have latest evidence of kind `k`.
pub open spec fn count_latest_kind(rs: Seq<Requirement>, k: EvidenceKind) -> nat
    decreases rs.len(),
{
    if rs.len() == 0 {
        0
    } else {
        count_latest_kind(rs.drop_last(), k)
            + if rs.last().tests@.len() > 0 && rs.last().tests@.last().kind == k { 1nat } else { 0nat }
    }
}

/// How many findings (errors when `err`, else warnings) the groups hold.
pub open spec fn count_findings(groups: Seq<FindingGroup>, err: bool) -> nat
    decreases groups.len(),
{
    if groups.len() == 0 {
        0
    } else {
        count_findings(groups.drop_last(), err) + count_in(groups.last().findings@, err)
    }
}

pub open spec fn count_in(fs: Seq<Finding>, err: bool) -> nat
    decreases fs.len(),
{
    if fs.len() == 0 { 0 } else { count_in(fs.drop_last(), err) + if fs.last().error == err { 1nat } else { 0nat } }
}

/// The ids of active requirements that no scanned source mentions.
pub open spec fn markerless(rs: Seq<Requirement>, srcs: Seq<SourceText>) -> Seq<Seq<char>>
    decreases rs.len(),
{
    if rs.len() == 0 {
        Seq::empty()
    } else {
        let rest = markerless(rs.drop_last(), srcs);
        let r = rs.last();
        if active(r.status) && !marked(srcs, r.id@) { rest.push(r.id@) } else { rest }
    }
}

/// The live requirements with a rationale under the threshold (and not
/// already reported by the validator), with their word counts.
pub open spec fn short_rationales(rs: Seq<Requirement>, groups: Seq<FindingGroup>) -> Seq<(Seq<char>, nat)>
    decreases rs.len(),
{
    if rs.len() == 0 {
        Seq::empty()
    } else {
        let rest = short_rationales(rs.drop_last(), groups);
        let r = rs.last();
        let n = words_of(r.rationale@).len();
        if r.status != Status::Obsolete && !validator_flags_rationale(groups, r.id@) && n < SHORT_RATIONALE_WORDS {
            rest.push((r.id@, n))
        } else {
            rest
        }
    }
}

/// The live functional requirements with at most one acceptance criterion.
pub open spec fn thin_acceptance(rs: Seq<Requirement>) -> Seq<Seq<char>>
    decreases rs.len(),
{
    if rs.len() == 0 {
        Seq::empty()
    } else {
        let rest = thin_acceptance(rs.drop_last());
        let r = rs.last();
        if r.status != Status::Obsolete && r.kind == Kind::Functional && r.acceptance@.len() <= SINGLE_ACCEPTANCE {
            rest.push(r.id@)
        } else {
            rest
        }
    }
}

/// The active requirements without any evidence record.
pub open spec fn untested(rs: Seq<Requirement>) -> Seq<Seq<char>>
    decreases rs.len(),
{
    if rs.len() == 0 {
        Seq::empty()
    } else {
        let rest = untested(rs.drop_last());
        let r = rs.last();
        if active(r.status) && r.tests@.len() == 0 { rest.push(r.id@) } else { rest }
    }
}

/// What `req lint` found.
pub struct LintReport {
    pub project_name: String,
    pub total: usize,
    /// Requirements per status: draft, proposed, approved, implemented,
    /// verified, obsolete.
    pub by_status: Vec<usize>,
    pub validator_errors: usize,
    pub validator_warnings: usize,
    pub validator_findings: Vec<FindingGroup>,
    pub markerless_active: Vec<String>,
    pub short_rationale: Vec<(String, usize)>,
    pub single_acceptance_functional: Vec<String>,
    pub no_test_record: Vec<String>,
    /// Latest evidence per kind: automated, composition, inspection.
    pub verification_kinds: Vec<usize>,
}

/// The status order of the distribution.
pub open spec fn status_at(i: int) -> Status {
    if i == 0 {
        Status::Draft
    } else if i == 1 {
        Status::Proposed
    } else if i == 2 {
        Status::Approved
    } else if i == 3 {
        Status::Implemented
    } else if i == 4 {
        Status::Verified
    } else {
        Status::Obsolete
    }
}

/// The evidence-kind order of the distribution.
pub open spec fn kind_at(i: int) -> EvidenceKind {
    if i == 0 { EvidenceKind::Automated } else if i == 1 { EvidenceKind::Composition } else { EvidenceKind::Inspection }
}

pub open spec fn pair_views(v: Seq<(String, usize)>) -> Seq<(Seq<char>, nat)> {
    v.map_values(|p: (String, usize)| (p.0@, p.1 as nat))
}

/// `rep` is the lint report of `p` with validator findings `groups` and
/// scanned sources `srcs`.
pub open spec fn report_of(rep: LintReport, p: Project, groups: Seq<FindingGroup>, srcs: Seq<SourceText>) -> bool {
    let rs = p.requirements.view();
    &&& rep.project_name == p.name
    &&& rep.total == rs.len()
    &&& rep.by_status@.len() == 6
    &&& forall|i: int| 0 <= i < 6 ==> #[trigger] rep.by_status@[i] == count_status(rs, status_at(i))
    &&& rep.validator_errors == count_findings(groups, true)
    &&& rep.validator_warnings == count_findings(groups, false)
    &&& rep.validator_findings@ == groups
    &&& views(rep.markerless_active@) == markerless(rs, srcs)
    &&& pair_views(rep.short_rationale@) == short_rationales(rs, groups)
    &&& views(rep.single_acceptance_functional@) == thin_acceptance(rs)
    &&& views(rep.no_test_record@) == untested(rs)
    &&& rep.verification_kinds@.len() == 3
    &&& forall|i: int| 0 <= i < 3 ==> #[trigger] rep.verification_kinds@[i] == count_latest_kind(rs, kind_at(i))
}

fn flags_rationale(groups: &Vec<FindingGroup>, id: &str) -> (b: bool)
    ensures
        b == validator_flags_rationale(groups@, id@),
{
    let mut g: usize = 0;
    while g < groups.len()
        invariant
            g <= groups@.len(),
            forall|a: int, f: int| 0 <= a < g && groups@[a].id@ == id@ && 0 <= f < groups@[a].findings@.len()
                ==> (#[trigger] groups@[a].findings@[f]).rule_code@ != SHORT_RATIONALE_RULE@,
        decreases groups@.len() - g,
    {
        if str_eq(groups[g].id.as_str(), id) {
            let fs = &groups[g].findings;
            let mut f: usize = 0;
            while f < fs.len()
                invariant
                    g < groups@.len(),
                    groups@[g as int].id@ == id@,
                    f <= fs@.len(),
                    fs@ == groups@[g as int].findings@,
                    forall|q: int| 0 <= q < f ==> (#[trigger] fs@[q]).rule_code@ != SHORT_RATIONALE_RULE@,
                decreases fs@.len() - f,
            {
                if str_eq(fs[f].rule_code.as_str(), SHORT_RATIONALE_RULE) {
                    assert(groups@[g as int].findings@[f as int] == fs@[f as int]);
                    return true;
                }
                f = f + 1;
            }
        }
        g = g + 1;
    }
    false
}

fn count_group_findings(groups: &Vec<FindingGroup>, err: bool) -> (n: usize)
    requires
        count_findings(groups@, err) <= usize::MAX,
    ensures
        n == count_findings(groups@, err),
{
    let mut n: usize = 0;
    let mut g: usize = 0;
    while g < groups.len()
        invariant
            g <= groups@.len(),
            count_findings(groups@, err) <= usize::MAX,
            n == count_findings(groups@.take(g as int), err),
        decreases groups@.len() - g,
    {
        assert(groups@.take(g + 1).drop_last() =~= groups@.take(g as int));
        let fs = &groups[g].findings;
        let mut k: usize = 0;
        let mut c: usize = 0;
        while k < fs.len()
            invariant
                k <= fs@.len(),
                c == count_in(fs@.take(k as int), err),
                c <= k,
            decreases fs@.len() - k,
        {
            assert(fs@.take(k + 1).drop_last() =~= fs@.take(k as int));
            if fs[k].error == err {
                c = c + 1;
            }
            k = k + 1;
        }
        assert(fs@.take(fs@.len() as int) =~= fs@);
        proof {
            lemma_count_findings_prefix(groups@, g as int + 1, err);
        }
        n = n + c;
        g = g + 1;
    }
    assert(groups@.take(groups@.len() as int) =~= groups@);
    n
}

/// A prefix of the groups holds no more findings than all of them.
proof fn lemma_count_findings_prefix(groups: Seq<FindingGroup>, k: int, err: bool)
    requires
        0 <= k <= groups.len(),
    ensures
        count_findings(groups.take(k), err) <= count_findings(groups, err),
    decreases groups.len() - k,
{
    if k < groups.len() {
        lemma_count_findings_prefix(groups, k + 1, err);
        assert(groups.take(k + 1).drop_last() =~= groups.take(k));
    } else {
        assert(groups.take(k) =~= groups);
    }
}

fn is_marked(tokens: &Vec<Vec<String>>, srcs: &Vec<SourceText>, id: &str) -> (b: bool)
    requires
        tokens@.len() == srcs@.len(),
        forall|i: int| 0 <= i < srcs@.len() ==> views(#[trigger] tokens@[i]@) == crate::patterns::matches_of(REQ_TOKEN@, srcs@[i].text@),
    ensures
        b == marked(srcs@, id@),
{
    let mut i: usize = 0;
    while i < tokens.len()
        invariant
            i <= tokens@.len(),
            tokens@.len() == srcs@.len(),
            forall|k: int| 0 <= k < srcs@.len() ==> views(#[trigger] tokens@[k]@) == crate::patterns::matches_of(REQ_TOKEN@, srcs@[k].text@),
            forall|k: int| 0 <= k < i ==> !references(#[trigger] srcs@[k].text@, id@),
        decreases tokens@.len() - i,
    {
        if contains_str(&tokens[i], id) {
            assert(references(srcs@[i as int].text@, id@));
            return true;
        }
        i = i + 1;
    }
    false
}

/// Audit the project (`req lint`): the status distribution, the validator's
/// findings (given), and the quality observations, with the marker
/// coverage judged from the scanned sources.
pub fn build_report(project: &Project, findings: Vec<FindingGroup>, sources: &Vec<SourceText>) -> (r: LintReport)
    requires
        count_findings(findings@, true) <= usize::MAX,
        count_findings(findings@, false) <= usize::MAX,
    ensures
        report_of(r, *project, findings@, sources@),
{
    let errors = count_group_findings(&findings, true);
    let warnings = count_group_findings(&findings, false);
    let mut tokens: Vec<Vec<String>> = Vec::new();
    let mut t: usize = 0;
    while t < sources.len()
        invariant
            t <= sources@.len(),
            tokens@.len() == t,
            forall|i: int| 0 <= i < t ==> views(#[trigger] tokens@[i]@) == crate::patterns::matches_of(REQ_TOKEN@, sources@[i].text@),
        decreases sources@.len() - t,
    {
        tokens.push(crate::patterns::matches_in(REQ_TOKEN, sources[t].text.as_str()));
        t = t + 1;
    }
    let ghost rs = project.requirements.view();
    let n = project.requirements.len();
    let mut by_status: Vec<usize> = vec![0, 0, 0, 0, 0, 0];
    let mut kinds: Vec<usize> = vec![0, 0, 0];
    let mut markerless_active: Vec<String> = Vec::new();
    let mut short_rationale: Vec<(String, usize)> = Vec::new();
    let mut thin: Vec<String> = Vec::new();
    let mut no_test: Vec<String> = Vec::new();
    let mut i: usize = 0;
    while i < n
        invariant
            n == rs.len(),
            rs == project.requirements.view(),
            i <= n,
            tokens@.len() == sources@.len(),
            forall|k: int| 0 <= k < sources@.len() ==> views(#[trigger] tokens@[k]@) == crate::patterns::matches_of(REQ_TOKEN@, sources@[k].text@),
            by_status@.len() == 6,
            forall|k: int| 0 <= k < 6 ==> #[trigger] by_status@[k] == count_status(rs.take(i as int), status_at(k)),
            forall|k: int| 0 <= k < 6 ==> #[trigger] by_status@[k] <= i,
            kinds@.len() == 3,
            forall|k: int| 0 <= k < 3 ==> #[trigger] kinds@[k] == count_latest_kind(rs.take(i as int), kind_at(k)),
            forall|k: int| 0 <= k < 3 ==> #[trigger] kinds@[k] <= i,
            views(markerless_active@) == markerless(rs.take(i as int), sources@),
            pair_views(short_rationale@) == short_rationales(rs.take(i as int), findings@),
            views(thin@) == thin_acceptance(rs.take(i as int)),
            views(no_test@) == untested(rs.take(i as int)),
        decreases n - i,
    {
        let ghost pre = rs.take(i as int);
        let ghost nxt = rs.take(i + 1);
        assert(nxt.drop_last() =~= pre);
        assert(nxt.last() == rs[i as int]);
        let r = project.requirements.at(i);
        let si: usize = match r.status {
            Status::Draft => 0,
            Status::Proposed => 1,
            Status::Approved => 2,
            Status::Implemented => 3,
            Status::Verified => 4,
            Status::Obsolete => 5,
        };
        let c = by_status[si];
        by_status.set(si, c + 1);
        if r.tests.len() > 0 {
            let ki: usize = match r.tests[r.tests.len() - 1].kind {
                EvidenceKind::Automated => 0,
                EvidenceKind::Composition => 1,
                EvidenceKind::Inspection => 2,
            };
            let d = kinds[ki];
            kinds.set(ki, d + 1);
        }
        let live = !matches!(r.status, Status::Obsolete);
        let act = live && !matches!(r.status, Status::Draft);
        if act && !is_marked(&tokens, sources, r.id.as_str()) {
            let ghost v0 = views(markerless_active@);
            markerless_active.push(r.id.clone());
            assert(views(markerless_active@) =~= v0.push(r.id@));
        }
        if live && !flags_rationale(&findings, r.id.as_str()) {
            let wc = words(r.rationale.as_str()).len();
            if wc < SHORT_RATIONALE_WORDS {
                let ghost v0 = pair_views(short_rationale@);
                short_rationale.push((r.id.clone(), wc));
                assert(pair_views(short_rationale@) =~= v0.push((r.id@, wc as nat)));
            }
        }
        if live && matches!(r.kind, Kind::Functional) && r.acceptance.len() <= SINGLE_ACCEPTANCE {
            let ghost v0 = views(thin@);
            thin.push(r.id.clone());
            assert(views(thin@) =~= v0.push(r.id@));
        }
        if act && r.tests.len() == 0 {
            let ghost v0 = views(no_test@);
            no_test.push(r.id.clone());
            assert(views(no_test@) =~= v0.push(r.id@));
        }
        i = i + 1;
    }
    assert(rs.take(n as int) =~= rs);
    LintReport {
        project_name: project.name.clone(),
        total: n,
        by_status,
        validator_errors: errors,
        validator_warnings: warnings,
        validator_findings: findings,
        markerless_active,
        short_rationale,
        single_acceptance_functional: thin,
        no_test_record: no_test,
        verification_kinds: kinds,
    }
}

// ---------------------------------------------------------------------------
// The markdown rendering
// ---------------------------------------------------------------------------

/// The status-distribution lines for the first `n` statuses (those with a
/// non-zero count).
pub open spec fn status_lines(bs: Seq<usize>, n: int) -> Seq<char>
    decreases n,
{
    if n <= 0 {
        Seq::empty()
    } else {
        status_lines(bs, n - 1) + if bs[n - 1] > 0 {
            "- **"@ + status_at(n - 1).name() + "**: "@ + dec_seq(bs[n - 1] as nat) + "\n"@
        } else {
            Seq::empty()
        }
    }
}

pub open spec fn finding_line(id: Seq<char>, f: Finding) -> Seq<char> {
    "- "@ + (if f.error { "ERR "@ } else { "WARN"@ }) + " **"@ + id + "** `"@ + f.rule_code@ + "` ["@ + f.field@ + "] "@
        + f.message@ + "\n"@
}

pub open spec fn findings_lines(id: Seq<char>, fs: Seq<Finding>) -> Seq<char>
    decreases fs.len(),
{
    if fs.len() == 0 { Seq::empty() } else { findings_lines(id, fs.drop_last()) + finding_line(id, fs.last()) }
}

pub open spec fn groups_lines(gs: Seq<FindingGroup>) -> Seq<char>
    decreases gs.len(),
{
    if gs.len() == 0 { Seq::empty() } else { groups_lines(gs.drop_last()) + findings_lines(gs.last().id@, gs.last().findings@) }
}

/// The markerless lines: each id that names a requirement, with its title
/// and status.
pub open spec fn markerless_lines(ids: Seq<Seq<char>>, p: Project) -> Seq<char>
    decreases ids.len(),
{
    if ids.len() == 0 {
        Seq::empty()
    } else {
        markerless_lines(ids.drop_last(), p) + match crate::idmap::lookup(p.requirements.view(), ids.last()) {
            Some(r) => "- **"@ + ids.last() + "** — "@ + r.title@ + " ("@ + r.status.name() + ")\n"@,
            None => Seq::empty(),
        }
    }
}

pub open spec fn short_lines(ps: Seq<(Seq<char>, nat)>) -> Seq<char>
    decreases ps.len(),
{
    if ps.len() == 0 {
        Seq::empty()
    } else {
        short_lines(ps.drop_last()) + "- **"@ + ps.last().0 + "** — "@ + dec_seq(ps.last().1) + " word(s)\n"@
    }
}

pub open spec fn id_lines(ids: Seq<Seq<char>>) -> Seq<char>
    decreases ids.len(),
{
    if ids.len() == 0 { Seq::empty() } else { id_lines(ids.drop_last()) + "- **"@ + ids.last() + "**\n"@ }
}

pub open spec fn quality_total(rep: LintReport) -> nat {
    (rep.markerless_active@.len() + rep.short_rationale@.len() + rep.single_acceptance_functional@.len()
        + rep.no_test_record@.len()) as nat
}

pub open spec fn headline_word(rep: LintReport) -> Seq<char> {
    if rep.validator_errors > 0 { "FAIL"@ } else if rep.validator_warnings > 0 { "WARN"@ } else { "OK"@ }
}

pub open spec fn markerless_section(rep: LintReport, p: Project) -> Seq<char> {
    if rep.markerless_active@.len() == 0 {
        Seq::empty()
    } else {
        "### Active requirements with no source marker ("@ + dec_seq(rep.markerless_active@.len()) + ")\n\nThese have not been linked from any `// REQ-NNNN:` comment. Add a marker in the file that implements the requirement, or document why no code marker is appropriate (verification-only, policy meta-req).\n\n"@
            + markerless_lines(views(rep.markerless_active@), p) + "\n"@
    }
}

pub open spec fn short_section(rep: LintReport) -> Seq<char> {
    if rep.short_rationale@.len() == 0 {
        Seq::empty()
    } else {
        "### Rationales under "@ + dec_seq(SHORT_RATIONALE_WORDS as nat) + " words ("@ + dec_seq(rep.short_rationale@.len())
            + ")\n\nA useful rationale names a cause or constraint, not just a consequence. Expand with `req update <id> -r \"...\" --reason \"...\"`.\n\n"@
            + short_lines(pair_views(rep.short_rationale@)) + "\n"@
    }
}

pub open spec fn thin_section(rep: LintReport) -> Seq<char> {
    if rep.single_acceptance_functional@.len() == 0 {
        Seq::empty()
    } else {
        "### Functional requirements with ≤1 acceptance criterion ("@ + dec_seq(rep.single_acceptance_functional@.len())
            + ")\n\nOne acceptance criterion rarely covers a real obligation. Add more with `req update <id> --add-acceptance \"...\"`.\n\n"@
            + id_lines(views(rep.single_acceptance_functional@)) + "\n"@
    }
}

pub open spec fn untested_section(rep: LintReport) -> Seq<char> {
    if rep.no_test_record@.len() == 0 {
        Seq::empty()
    } else {
        "### Active requirements with no test record ("@ + dec_seq(rep.no_test_record@.len())
            + ")\n\nAdvanced-state requirements (Proposed onwards) without any evidence record. Attach one with `req test record`, `req verify --by inspection`, or `req test run --promote`.\n\n"@
            + id_lines(views(rep.no_test_record@)) + "\n"@
    }
}

pub open spec fn lint_head(rep: LintReport) -> Seq<char> {
    "# req lint — "@ + rep.project_name@ + "\n\n"@
        + "**Status:** "@ + headline_word(rep) + " — "@ + dec_seq(rep.total as nat) + " requirement(s); validate "@
        + dec_seq(rep.validator_errors as nat) + " error(s), "@ + dec_seq(rep.validator_warnings as nat) + " warning(s); "@
        + dec_seq(quality_total(rep)) + " quality observation(s).\n\n"@
}

pub open spec fn lint_status(rep: LintReport) -> Seq<char> {
    "## Status distribution\n\n"@ + status_lines(rep.by_status@, 6) + "\n"@
}

pub open spec fn lint_findings(rep: LintReport) -> Seq<char> {
    if rep.validator_findings@.len() > 0 { "## Validator findings\n\n"@ + groups_lines(rep.validator_findings@) + "\n"@ } else { Seq::empty() }
}

pub open spec fn lint_quality(rep: LintReport, p: Project) -> Seq<char> {
    "## Quality observations\n\n"@
        + (if quality_total(rep) == 0 {
            "None. All active requirements have marker coverage, meaningful rationale, multiple acceptance criteria, and at least one test record.\n\n"@
        } else {
            markerless_section(rep, p) + short_section(rep) + thin_section(rep) + untested_section(rep)
        })
}

pub open spec fn lint_kinds(rep: LintReport) -> Seq<char> {
    "## Verification kind distribution\n\n"@
        + "- **automated**: "@ + dec_seq(rep.verification_kinds@[0] as nat) + "\n- **composition**: "@
        + dec_seq(rep.verification_kinds@[1] as nat) + "\n- **inspection**: "@ + dec_seq(rep.verification_kinds@[2] as nat) + "\n\n"@
}

/// The lint report as markdown: the headline, the status distribution, the
/// validator's findings, the quality observations and the evidence kinds.
pub open spec fn lint_markdown(rep: LintReport, p: Project) -> Seq<char> {
    lint_head(rep) + lint_status(rep) + lint_findings(rep) + lint_quality(rep, p) + lint_kinds(rep)
}

fn push_dec(s: &mut String, n: usize)
    ensures
        final(s)@ == old(s)@ + dec_seq(n as nat),
{
    let d = dec_string(n as u64);
    s.append(d.as_str());
}

fn push_id_lines(s: &mut String, ids: &Vec<String>)
    ensures
        final(s)@ == old(s)@ + id_lines(views(ids@)),
{
    let ghost start = s@;
    let mut i: usize = 0;
    while i < ids.len()
        invariant
            i <= ids@.len(),
            s@ == start + id_lines(views(ids@).take(i as int)),
        decreases ids@.len() - i,
    {
        assert(views(ids@).take(i + 1).drop_last() =~= views(ids@).take(i as int));
        s.append("- **");
        s.append(ids[i].as_str());
        s.append("**\n");
        i = i + 1;
    }
    assert(views(ids@).take(ids@.len() as int) =~= views(ids@));
}

fn push_status_lines(out: &mut String, bs: &Vec<usize>)
    requires
        bs@.len() == 6,
    ensures
        final(out)@ == old(out)@ + status_lines(bs@, 6),
{
    let ghost base = out@;
    let mut k: usize = 0;
    while k < 6
        invariant
            k <= 6,
            bs@.len() == 6,
            out@ == base + status_lines(bs@, k as int),
        decreases 6 - k,
    {
        if bs[k] > 0 {
            out.append("- **");
            out.append(to_status_name(k));
            out.append("**: ");
            push_dec(out, bs[k]);
            out.append("\n");
        }
        k = k + 1;
    }
}

fn push_finding(out: &mut String, id: &String, f: &Finding)
    ensures
        final(out)@ == old(out)@ + finding_line(id@, *f),
{
    let ghost b = out@;
    out.append("- ");
    out.append(if f.error { "ERR " } else { "WARN" });
    out.append(" **");
    out.append(id.as_str());
    out.append("** `");
    out.append(f.rule_code.as_str());
    out.append("` [");
    out.append(f.field.as_str());
    out.append("] ");
    out.append(f.message.as_str());
    out.append("\n");
    assert(out@ =~= b + finding_line(id@, *f));
}

fn push_findings(out: &mut String, id: &String, fs: &Vec<Finding>)
    ensures
        final(out)@ == old(out)@ + findings_lines(id@, fs@),
{
    let ghost b3 = out@;
    let mut f: usize = 0;
    while f < fs.len()
        invariant
            f <= fs@.len(),
            out@ == b3 + findings_lines(id@, fs@.take(f as int)),
        decreases fs@.len() - f,
    {
        assert(fs@.take(f + 1).drop_last() =~= fs@.take(f as int));
        push_finding(out, id, &fs[f]);
        assert(out@ =~= b3 + findings_lines(id@, fs@.take(f + 1)));
        f = f + 1;
    }
    assert(fs@.take(fs@.len() as int) =~= fs@);
}

fn push_groups(out: &mut String, gs: &Vec<FindingGroup>)
    ensures
        final(out)@ == old(out)@ + groups_lines(gs@),
{
    let ghost b2 = out@;
    let mut g: usize = 0;
    while g < gs.len()
        invariant
            g <= gs@.len(),
            out@ == b2 + groups_lines(gs@.take(g as int)),
        decreases gs@.len() - g,
    {
        assert(gs@.take(g + 1).drop_last() =~= gs@.take(g as int));
        push_findings(out, &gs[g].id, &gs[g].findings);
        g = g + 1;
    }
    assert(gs@.take(gs@.len() as int) =~= gs@);
}

fn push_markerless(out: &mut String, ids: &Vec<String>, project: &Project)
    ensures
        final(out)@ == old(out)@ + markerless_lines(views(ids@), *project),
{
    let ghost b4 = out@;
    let mut i: usize = 0;
    while i < ids.len()
        invariant
            i <= ids@.len(),
            out@ == b4 + markerless_lines(views(ids@).take(i as int), *project),
        decreases ids@.len() - i,
    {
        assert(views(ids@).take(i + 1).drop_last() =~= views(ids@).take(i as int));
        match project.requirements.get(ids[i].as_str()) {
            Some(r) => {
                out.append("- **");
                out.append(ids[i].as_str());
                out.append("** — ");
                out.append(r.title.as_str());
                out.append(" (");
                out.append(r.status.as_str());
                out.append(")\n");
            },
            None => {},
        }
        i = i + 1;
    }
    assert(views(ids@).take(ids@.len() as int) =~= views(ids@));
}

fn push_short(out: &mut String, ps: &Vec<(String, usize)>)
    ensures
        final(out)@ == old(out)@ + short_lines(pair_views(ps@)),
{
    let ghost b5 = out@;
    let mut i: usize = 0;
    while i < ps.len()
        invariant
            i <= ps@.len(),
            out@ == b5 + short_lines(pair_views(ps@).take(i as int)),
        decreases ps@.len() - i,
    {
        assert(pair_views(ps@).take(i + 1).drop_last() =~= pair_views(ps@).take(i as int));
        out.append("- **");
        out.append(ps[i].0.as_str());
        out.append("** — ");
        push_dec(out, ps[i].1);
        out.append(" word(s)\n");
        i = i + 1;
    }
    assert(pair_views(ps@).take(ps@.len() as int) =~= pair_views(ps@));
}

impl LintReport {
    fn markerless_part(&self, project: &Project) -> (out: String)
        ensures
            out@ == markerless_section(*self, *project),
    {
        let mut out = String::new();
        if self.markerless_active.len() > 0 {
            out.append("### Active requirements with no source marker (");
            push_dec(&mut out, self.markerless_active.len());
            out.append(")\n\nThese have not been linked from any `// REQ-NNNN:` comment. Add a marker in the file that implements the requirement, or document why no code marker is appropriate (verification-only, policy meta-req).\n\n");
            push_markerless(&mut out, &self.markerless_active, project);
            out.append("\n");
        }
        out
    }

    fn short_part(&self) -> (out: String)
        ensures
            out@ == short_section(*self),
    {
        let mut out = String::new();
        if self.short_rationale.len() > 0 {
            out.append("### Rationales under ");
            push_dec(&mut out, SHORT_RATIONALE_WORDS);
            out.append(" words (");
            push_dec(&mut out, self.short_rationale.len());
            out.append(")\n\nA useful rationale names a cause or constraint, not just a consequence. Expand with `req update <id> -r \"...\" --reason \"...\"`.\n\n");
            push_short(&mut out, &self.short_rationale);
            out.append("\n");
        }
        out
    }

    fn thin_part(&self) -> (out: String)
        ensures
            out@ == thin_section(*self),
    {
        let mut out = String::new();
        if self.single_acceptance_functional.len() > 0 {
            out.append("### Functional requirements with ≤1 acceptance criterion (");
            push_dec(&mut out, self.single_acceptance_functional.len());
            out.append(")\n\nOne acceptance criterion rarely covers a real obligation. Add more with `req update <id> --add-acceptance \"...\"`.\n\n");
            push_id_lines(&mut out, &self.single_acceptance_functional);
            out.append("\n");
        }
        out
    }

    fn untested_part(&self) -> (out: String)
        ensures
            out@ == untested_section(*self),
    {
        let mut out = String::new();
        if self.no_test_record.len() > 0 {
            out.append("### Active requirements with no test record (");
            push_dec(&mut out, self.no_test_record.len());
            out.append(")\n\nAdvanced-state requirements (Proposed onwards) without any evidence record. Attach one with `req test record`, `req verify --by inspection`, or `req test run --promote`.\n\n");
            push_id_lines(&mut out, &self.no_test_record);
            out.append("\n");
        }
        out
    }

    fn push_quality(&self, out: &mut String, project: &Project)
        ensures
            final(out)@ == old(out)@ + markerless_section(*self, *project) + short_section(*self) + thin_section(*self)
                + untested_section(*self),
    {
        out.append(self.markerless_part(project).as_str());
        out.append(self.short_part().as_str());
        out.append(self.thin_part().as_str());
        out.append(self.untested_part().as_str());
    }

    fn head_part(&self) -> (out: String)
        requires
            self.markerless_active@.len() + self.short_rationale@.len() + self.single_acceptance_functional@.len()
                + self.no_test_record@.len() <= usize::MAX,
        ensures
            out@ == lint_head(*self),
    {
        let mut out = String::new();
        out.append("# req lint — ");
        out.append(self.project_name.as_str());
        out.append("\n\n");
        let word = if self.validator_errors > 0 { "FAIL" } else if self.validator_warnings > 0 { "WARN" } else { "OK" };
        let qc = self.markerless_active.len() + self.short_rationale.len() + self.single_acceptance_functional.len()
            + self.no_test_record.len();
        out.append("**Status:** ");
        out.append(word);
        out.append(" — ");
        push_dec(&mut out, self.total);
        out.append(" requirement(s); validate ");
        push_dec(&mut out, self.validator_errors);
        out.append(" error(s), ");
        push_dec(&mut out, self.validator_warnings);
        out.append(" warning(s); ");
        push_dec(&mut out, qc);
        out.append(" quality observation(s).\n\n");
        out
    }

    fn findings_part(&self) -> (out: String)
        ensures
            out@ == lint_findings(*self),
    {
        let mut out = String::new();
        if self.validator_findings.len() > 0 {
            out.append("## Validator findings\n\n");
            push_groups(&mut out, &self.validator_findings);
            out.append("\n");
        }
        out
    }

    fn quality_part(&self, project: &Project) -> (out: String)
        requires
            self.markerless_active@.len() + self.short_rationale@.len() + self.single_acceptance_functional@.len()
                + self.no_test_record@.len() <= usize::MAX,
        ensures
            out@ == lint_quality(*self, *project),
    {
        let mut out = String::new();
        out.append("## Quality observations\n\n");
        let qc = self.markerless_active.len() + self.short_rationale.len() + self.single_acceptance_functional.len()
            + self.no_test_record.len();
        if qc == 0 {
            out.append("None. All active requirements have marker coverage, meaningful rationale, multiple acceptance criteria, and at least one test record.\n\n");
        } else {
            self.push_quality(&mut out, project);
        }
        out
    }

    fn kinds_part(&self) -> (out: String)
        requires
            self.verification_kinds@.len() == 3,
        ensures
            out@ == lint_kinds(*self),
    {
        let mut out = String::new();
        out.append("## Verification kind distribution\n\n");
        out.append("- **automated**: ");
        push_dec(&mut out, self.verification_kinds[0]);
        out.append("\n- **composition**: ");
        push_dec(&mut out, self.verification_kinds[1]);
        out.append("\n- **inspection**: ");
        push_dec(&mut out, self.verification_kinds[2]);
        out.append("\n\n");
        out
    }

    /// Render the report as markdown.
    pub fn to_markdown(&self, project: &Project) -> (out: String)
        requires
            self.by_status@.len() == 6,
            self.verification_kinds@.len() == 3,
            self.markerless_active@.len() + self.short_rationale@.len() + self.single_acceptance_functional@.len()
                + self.no_test_record@.len() <= usize::MAX,
        ensures
            out@ == lint_markdown(*self, *project),
    {
        let mut out = self.head_part();
        out.append("## Status distribution\n\n");
        push_status_lines(&mut out, &self.by_status);
        out.append("\n");
        out.append(self.findings_part().as_str());
        out.append(self.quality_part(project).as_str());
        out.append(self.kinds_part().as_str());
        out
    }
}

fn to_status_name(k: usize) -> (r: &'static str)
    requires
        k < 6,
    ensures
        r@ == status_at(k as int).name(),
{
    if k == 0 {
        "draft"
    } else if k == 1 {
        "proposed"
    } else if k == 2 {
        "approved"
    } else if k == 3 {
        "implemented"
    } else if k == 4 {
        "verified"
    } else {
        "obsolete"
    }
}

} // verus!
