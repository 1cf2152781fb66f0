//! Markdown rendering of one requirement for `req export --format markdown`:
//! its fields, its verification dossier with the dossier's provenance, its
//! test records and its links.
use vstd::prelude::*;

use crate::model::{
    EvidenceKind, ExemptionKind, ExternalSource, Requirement, TestOutcome, TestRecord, Validation, ValidationActivity,
};
use crate::provenance::{classify, classify_spec, SourceProbe};
use crate::staleness::{short, short_spec};
use crate::text::{chars_of, dec_seq, dec_string, join, join_seq, prefix_upto, string_of, views};

verus! {

// ---------------------------------------------------------------------------
// Small pieces
// ---------------------------------------------------------------------------

/// `s` fit for one markdown table cell: a pipe escaped, a newline a space.
pub open spec fn md_cell_spec(s: Seq<char>) -> Seq<char>
    decreases s.len(),
{
    if s.len() == 0 {
        Seq::empty()
    } else {
        md_cell_spec(s.drop_last()) + if s.last() == '|' {
            "\\|"@
        } else if s.last() == '\n' {
            " "@
        } else {
            seq![s.last()]
        }
    }
}

/// Escape a string for a single markdown table cell.
pub fn md_cell(s: &str) -> (r: String)
    ensures
        r@ == md_cell_spec(s@),
{
    let v = chars_of(s);
    let mut out = String::new();
    let mut i: usize = 0;
    while i < v.len()
        invariant
            v@ == s@,
            i <= v@.len(),
            out@ == md_cell_spec(v@.take(i as int)),
        decreases v@.len() - i,
    {
        assert(v@.take(i + 1).drop_last() =~= v@.take(i as int));
        let c = v[i];
        if c == '|' {
            out.append("\\|");
        } else if c == '\n' {
            out.append(" ");
        } else {
            let one = string_of(&vec![c]);
            assert(one@ =~= seq![c]);
            out.append(one.as_str());
        }
        i = i + 1;
    }
    assert(v@.take(v@.len() as int) =~= s@);
    out
}

/// The first `n` characters of `s` (all of it when shorter).
pub open spec fn head_chars(s: Seq<char>, n: nat) -> Seq<char> {
    if s.len() <= n { s } else { s.take(n as int) }
}

pub fn head_of(s: &str, n: usize) -> (r: String)
    ensures
        r@ == head_chars(s@, n as nat),
{
    let v = chars_of(s);
    if v.len() <= n {
        string_of(&v)
    } else {
        string_of(&prefix_upto(&v, n))
    }
}

/// An RFC 3339 time to the minute, `YYYY-MM-DD HH:MM` (other text as is).
pub open spec fn minute_of(at: Seq<char>) -> Seq<char> {
    if at.len() >= 16 { at.take(10) + " "@ + at.subrange(11, 16) } else { at }
}

pub fn minute_str(at: &str) -> (r: String)
    ensures
        r@ == minute_of(at@),
{
    let v = chars_of(at);
    if v.len() >= 16 {
        let mut s = string_of(&prefix_upto(&v, 10));
        s.append(" ");
        let hm = prefix_upto(&crate::text::suffix_from(&v, 11), 5);
        assert(hm@ =~= at@.subrange(11, 16));
        s.append(string_of(&hm).as_str());
        s
    } else {
        string_of(&v)
    }
}

/// A verdict in capitals.
pub open spec fn outcome_upper(o: TestOutcome) -> Seq<char> {
    match o {
        TestOutcome::Pass => "PASS"@,
        TestOutcome::Fail => "FAIL"@,
    }
}

pub fn outcome_upper_str(o: TestOutcome) -> (r: &'static str)
    ensures
        r@ == outcome_upper(o),
{
    match o {
        TestOutcome::Pass => "PASS",
        TestOutcome::Fail => "FAIL",
    }
}

// ---------------------------------------------------------------------------
// The dossier
// ---------------------------------------------------------------------------

/// One stage line of a dossier: its outcome, summary and references, or
/// pending.
pub open spec fn stage_line(label: Seq<char>, a: Option<ValidationActivity>) -> Seq<char> {
    match a {
        None => "- **"@ + label + ".** _(pending)_\n"@,
        Some(a) => "- **"@ + label + ".** "@ + outcome_upper(a.outcome) + " — "@ + a.summary@
            + (if a.references@.len() == 0 { Seq::empty() } else {
                " _(refs: "@ + join_seq(views(a.references@), ", "@) + ")_"@
            }) + "\n"@,
    }
}

/// The verdict of a dossier, or that it is not concluded.
pub open spec fn verdict_text(v: Option<TestOutcome>) -> Seq<char> {
    match v {
        Some(o) => outcome_upper(o),
        None => "(not concluded)"@,
    }
}

/// The co-sign line of a dossier.
pub open spec fn cosign_line(c: Option<ValidationActivity>) -> Seq<char> {
    match c {
        Some(c) => "- **Co-sign.** "@ + c.actor@ + " @ "@ + minute_of(c.at@) + " UTC\n"@,
        None => "- **Co-sign.** _awaiting human co-sign._\n"@,
    }
}

/// The exemption line of a waived dossier.
pub open spec fn exemption_line(v: Validation) -> Seq<char> {
    if v.exempt {
        "- **Exemption.** "@ + match v.exemption_kind {
            Some(ExemptionKind::NoDossier) => "no-dossier waiver"@,
            Some(ExemptionKind::Backfilled) => "backfilled"@,
            None => "exempt (legacy)"@,
        } + "\n"@
    } else {
        Seq::empty()
    }
}

/// The staleness-anchor line of a dossier that has one.
pub open spec fn anchor_line(v: Validation) -> Seq<char> {
    match v.content_hash {
        Some(h) => "- **Anchor.** `"@ + head_chars(h@, 12) + "` over "@
            + dec_seq(match v.linked_files { Some(f) => f@.len(), None => 0 }) + " file(s)"@
            + match v.concluded_commit {
                Some(c) => " @ `"@ + short_spec(c@) + "`"@,
                None => Seq::empty(),
            } + "\n"@,
        None => Seq::empty(),
    }
}

pub open spec fn plan_line(v: Validation) -> Seq<char> {
    if v.plan@.len() == 0 { Seq::empty() } else { "- **Plan.** "@ + v.plan@ + "\n"@ }
}

pub open spec fn statement_line(v: Validation) -> Seq<char> {
    match v.statement {
        Some(st) => "- **Statement.** "@ + st@ + "\n"@,
        None => Seq::empty(),
    }
}

/// The body of a recorded dossier, from the plan to the anchor.
pub open spec fn dossier_body(v: Validation) -> Seq<char> {
    plan_line(v) + stage_line("Analysis"@, v.analysis) + stage_line("Testing"@, v.testing) + statement_line(v)
        + cosign_line(v.human_confirmation) + exemption_line(v) + anchor_line(v)
}

/// The dossier section: its verdict and provenance, then its body.
pub open spec fn dossier_section(v: Option<Validation>, probe: Option<SourceProbe>) -> Seq<char> {
    match v {
        None => "**Verification.** _no dossier recorded._\n\n"@,
        Some(d) => "**Verification** — verdict **"@ + verdict_text(d.verdict) + "**, provenance `"@
            + classify_spec(v, probe).name() + "`\n\n"@ + dossier_body(d) + "\n"@,
    }
}

/// Where externally produced evidence came from, as ` ext=system/env`.
pub open spec fn ext_text(e: Option<ExternalSource>) -> Seq<char> {
    match e {
        Some(e) => " ext="@ + e.system@ + match e.environment {
            Some(env) => "/"@ + env@,
            None => Seq::empty(),
        },
        None => Seq::empty(),
    }
}

/// One test-record line.
pub open spec fn record_line(t: TestRecord) -> Seq<char> {
    "- "@ + minute_of(t.at@) + " "@ + outcome_upper(t.outcome) + " ["@ + t.kind.name() + "] commit=`"@
        + short_spec(t.commit@) + "` actor="@ + t.actor@ + ext_text(t.external) + " — "@ + t.notes@ + "\n"@
}

pub open spec fn record_lines(ts: Seq<TestRecord>) -> Seq<char>
    decreases ts.len(),
{
    if ts.len() == 0 { Seq::empty() } else { record_lines(ts.drop_last()) + record_line(ts.last()) }
}

/// The test-record section (nothing when there are none).
pub open spec fn records_section(ts: Seq<TestRecord>) -> Seq<char> {
    if ts.len() == 0 { Seq::empty() } else { "**Test records:**\n\n"@ + record_lines(ts) + "\n"@ }
}

/// A dossier (with its provenance under `probe`) and the test records, as
/// markdown.
pub open spec fn dossier_md_spec(v: Option<Validation>, probe: Option<SourceProbe>, tests: Seq<TestRecord>) -> Seq<char> {
    dossier_section(v, probe) + records_section(tests)
}

fn push_stage(out: &mut String, label: &str, a: &Option<ValidationActivity>)
    ensures
        final(out)@ == old(out)@ + stage_line(label@, *a),
{
    match a {
        None => {
            out.append("- **");
            out.append(label);
            out.append(".** _(pending)_\n");
        },
        Some(a) => {
            out.append("- **");
            out.append(label);
            out.append(".** ");
            out.append(outcome_upper_str(a.outcome));
            out.append(" — ");
            out.append(a.summary.as_str());
            if a.references.len() > 0 {
                out.append(" _(refs: ");
                out.append(join(&a.references, ", ").as_str());
                out.append(")_");
            }
            out.append("\n");
        },
    }
}

fn push_cosign(out: &mut String, c: &Option<ValidationActivity>)
    ensures
        final(out)@ == old(out)@ + cosign_line(*c),
{
    match c {
        Some(c) => {
            out.append("- **Co-sign.** ");
            out.append(c.actor.as_str());
            out.append(" @ ");
            out.append(minute_str(c.at.as_str()).as_str());
            out.append(" UTC\n");
        },
        None => out.append("- **Co-sign.** _awaiting human co-sign._\n"),
    }
}

fn push_exemption(out: &mut String, v: &Validation)
    ensures
        final(out)@ == old(out)@ + exemption_line(*v),
{
    if v.exempt {
        out.append("- **Exemption.** ");
        out.append(match v.exemption_kind {
            Some(ExemptionKind::NoDossier) => "no-dossier waiver",
            Some(ExemptionKind::Backfilled) => "backfilled",
            None => "exempt (legacy)",
        });
        out.append("\n");
    }
}

fn push_anchor(out: &mut String, v: &Validation)
    ensures
        final(out)@ == old(out)@ + anchor_line(*v),
{
    if let Some(h) = &v.content_hash {
        out.append("- **Anchor.** `");
        out.append(head_of(h.as_str(), 12).as_str());
        out.append("` over ");
        let n: usize = match &v.linked_files {
            Some(f) => f.len(),
            None => 0,
        };
        out.append(dec_string(n as u64).as_str());
        out.append(" file(s)");
        if let Some(c) = &v.concluded_commit {
            out.append(" @ `");
            out.append(short(c.as_str()).as_str());
            out.append("`");
        }
        out.append("\n");
    }
}

#[verifier::rlimit(40)]
fn push_body(out: &mut String, v: &Validation)
    ensures
        final(out)@ == old(out)@ + dossier_body(*v),
{
    let ghost b = out@;
    if chars_of(v.plan.as_str()).len() > 0 {
        out.append("- **Plan.** ");
        out.append(v.plan.as_str());
        out.append("\n");
    }
    let ghost b1 = out@;
    assert(b1 =~= b + plan_line(*v));
    push_stage(out, "Analysis", &v.analysis);
    push_stage(out, "Testing", &v.testing);
    let ghost b2 = out@;
    if let Some(st) = &v.statement {
        out.append("- **Statement.** ");
        out.append(st.as_str());
        out.append("\n");
    }
    let ghost b3 = out@;
    assert(b3 =~= b2 + statement_line(*v));
    push_cosign(out, &v.human_confirmation);
    push_exemption(out, v);
    push_anchor(out, v);
    assert(out@ =~= b + dossier_body(*v));
}

fn push_ext(out: &mut String, e: &Option<ExternalSource>)
    ensures
        final(out)@ == old(out)@ + ext_text(*e),
{
    if let Some(e) = e {
        out.append(" ext=");
        out.append(e.system.as_str());
        if let Some(env) = &e.environment {
            out.append("/");
            out.append(env.as_str());
        }
    }
}

fn push_record(out: &mut String, t: &TestRecord)
    ensures
        final(out)@ == old(out)@ + record_line(*t),
{
    let ghost b = out@;
    out.append("- ");
    out.append(minute_str(t.at.as_str()).as_str());
    out.append(" ");
    out.append(outcome_upper_str(t.outcome));
    out.append(" [");
    out.append(t.kind.as_str());
    out.append("] commit=`");
    out.append(short(t.commit.as_str()).as_str());
    out.append("` actor=");
    out.append(t.actor.as_str());
    push_ext(out, &t.external);
    out.append(" — ");
    out.append(t.notes.as_str());
    out.append("\n");
    assert(out@ =~= b + record_line(*t));
}

/// A verification dossier (its provenance judged with `probe`) and the test
/// records, as markdown.
pub fn dossier_md(v: Option<&Validation>, probe: Option<&SourceProbe>, tests: &Vec<TestRecord>) -> (s: String)
    ensures
        s@ == dossier_md_spec(
            match v { Some(x) => Some(*x), None => None },
            match probe { Some(p) => Some(*p), None => None },
            tests@,
        ),
{
    let mut s = String::new();
    match v {
        None => s.append("**Verification.** _no dossier recorded._\n\n"),
        Some(d) => {
            s.append("**Verification** — verdict **");
            match d.verdict {
                Some(o) => s.append(outcome_upper_str(o)),
                None => s.append("(not concluded)"),
            }
            s.append("**, provenance `");
            s.append(classify(v, probe).as_str());
            s.append("`\n\n");
            push_body(&mut s, d);
            s.append("\n");
        },
    }
    let ghost head = s@;
    if tests.len() > 0 {
        s.append("**Test records:**\n\n");
        let ghost b = s@;
        let mut i: usize = 0;
        while i < tests.len()
            invariant
                i <= tests@.len(),
                s@ == b + record_lines(tests@.take(i as int)),
            decreases tests@.len() - i,
        {
            assert(tests@.take(i + 1).drop_last() =~= tests@.take(i as int));
            push_record(&mut s, &tests[i]);
            i = i + 1;
        }
        assert(tests@.take(tests@.len() as int) =~= tests@);
        s.append("\n");
    }
    s
}

// ---------------------------------------------------------------------------
// One requirement
// ---------------------------------------------------------------------------

pub open spec fn bullet_lines(items: Seq<Seq<char>>) -> Seq<char>
    decreases items.len(),
{
    if items.len() == 0 { Seq::empty() } else { bullet_lines(items.drop_last()) + "- "@ + items.last() + "\n"@ }
}

pub open spec fn link_lines(r: Requirement, n: int) -> Seq<char>
    decreases n,
{
    if n <= 0 {
        Seq::empty()
    } else {
        link_lines(r, n - 1) + "- _"@ + r.links@[n - 1].kind.name() + "_ → `"@ + r.links@[n - 1].target@ + "`\n"@
    }
}

pub open spec fn req_fields(r: Requirement) -> Seq<char> {
    "## "@ + r.id@ + " — "@ + r.title@ + "\n\n- **Kind:** "@ + r.kind.name() + "  \n- **Priority:** "@
        + r.priority.name() + "  \n- **Status:** "@ + r.status.name() + "\n"@
}

pub open spec fn req_tags(r: Requirement) -> Seq<char> {
    if r.tags@.len() == 0 { Seq::empty() } else { "- **Tags:** "@ + join_seq(views(r.tags@), ", "@) + "\n"@ }
}

pub open spec fn req_prose(r: Requirement) -> Seq<char> {
    "\n**Statement.** "@ + r.statement@ + "\n\n**Rationale.** "@ + r.rationale@ + "\n\n"@
}

pub open spec fn req_acceptance(r: Requirement) -> Seq<char> {
    if r.acceptance@.len() == 0 { Seq::empty() } else {
        "**Acceptance criteria:**\n\n"@ + bullet_lines(views(r.acceptance@)) + "\n"@
    }
}

/// The heading and fields of a requirement.
pub open spec fn req_head(r: Requirement) -> Seq<char> {
    req_fields(r) + req_tags(r) + req_prose(r) + req_acceptance(r)
}

/// A requirement as markdown: heading, fields, statement, rationale,
/// acceptance criteria, its dossier and test records, and its links.
pub open spec fn fmt_md_spec(r: Requirement, probe: Option<SourceProbe>) -> Seq<char> {
    req_head(r) + dossier_md_spec(r.validation, probe, r.tests@)
        + (if r.links@.len() == 0 { Seq::empty() } else { "**Links:**\n\n"@ + link_lines(r, r.links@.len() as int) })
}

fn push_head(out: &mut String, r: &Requirement)
    ensures
        final(out)@ == old(out)@ + req_head(*r),
{
    let ghost b = out@;
    out.append("## ");
    out.append(r.id.as_str());
    out.append(" — ");
    out.append(r.title.as_str());
    out.append("\n\n- **Kind:** ");
    out.append(r.kind.as_str());
    out.append("  \n- **Priority:** ");
    out.append(r.priority.as_str());
    out.append("  \n- **Status:** ");
    out.append(r.status.as_str());
    out.append("\n");
    let ghost b1 = out@;
    assert(b1 =~= b + req_fields(*r));
    if r.tags.len() > 0 {
        out.append("- **Tags:** ");
        out.append(join(&r.tags, ", ").as_str());
        out.append("\n");
    }
    let ghost b2 = out@;
    assert(b2 =~= b1 + req_tags(*r));
    out.append("\n**Statement.** ");
    out.append(r.statement.as_str());
    out.append("\n\n**Rationale.** ");
    out.append(r.rationale.as_str());
    out.append("\n\n");
    let ghost b3 = out@;
    assert(b3 =~= b2 + req_prose(*r));
    if r.acceptance.len() > 0 {
        out.append("**Acceptance criteria:**\n\n");
        let ghost b4 = out@;
        let mut i: usize = 0;
        while i < r.acceptance.len()
            invariant
                i <= r.acceptance@.len(),
                out@ == b4 + bullet_lines(views(r.acceptance@).take(i as int)),
            decreases r.acceptance@.len() - i,
        {
            assert(views(r.acceptance@).take(i + 1).drop_last() =~= views(r.acceptance@).take(i as int));
            out.append("- ");
            out.append(r.acceptance[i].as_str());
            out.append("\n");
            i = i + 1;
        }
        assert(views(r.acceptance@).take(r.acceptance@.len() as int) =~= views(r.acceptance@));
        out.append("\n");
    }
    assert(out@ =~= b3 + req_acceptance(*r));
    assert(out@ =~= b + req_head(*r));
}

/// A requirement as markdown (its dossier's provenance judged with `probe`).
pub fn fmt_md(r: &Requirement, probe: Option<&SourceProbe>) -> (s: String)
    ensures
        s@ == fmt_md_spec(*r, match probe { Some(p) => Some(*p), None => None }),
{
    let mut s = String::new();
    push_head(&mut s, r);
    let ghost b = s@;
    let d = dossier_md(r.validation.as_ref(), probe, &r.tests);
    s.append(d.as_str());
    let ghost b2 = s@;
    if r.links.len() > 0 {
        s.append("**Links:**\n\n");
        let ghost b3 = s@;
        let mut i: usize = 0;
        while i < r.links.len()
            invariant
                i <= r.links@.len(),
                s@ == b3 + link_lines(*r, i as int),
            decreases r.links@.len() - i,
        {
            s.append("- _");
            s.append(r.links[i].kind.as_str());
            s.append("_ → `");
            s.append(r.links[i].target.as_str());
            s.append("`\n");
            i = i + 1;
        }
    }
    s
}

} // verus!
