//! One screen of the guided safety walkthrough (`req safety walkthrough`):
//! a safety requirement's chain from hazard through mitigating function to
//! the requirement itself, the verification evidence behind it, and the
//! acknowledging engineer's standing call on it.
use vstd::prelude::*;

use crate::idmap::{has_key, lookup};
use crate::markdown::{minute_of, minute_str, outcome_upper, outcome_upper_str};
use crate::model::{Project, SafetyFunction, SafetyRequirement, Validation, ValidationActivity};
use crate::provenance::SourceProbe;
use crate::safety::{realizes, realizes_spec, sil_str, sil_text};
use crate::safety_gov::{ack_is_fresh, chain_incompleteness, field, field_lines, fresh_spec, gap_spec};
use crate::staleness::{short, short_spec};
use crate::text::{chars_of, dec_seq, dec_string, join, join_seq, prefix_upto, string_of, views};

verus! {

/// `n` copies of `c`.
pub open spec fn repeated(c: char, n: nat) -> Seq<char> {
    Seq::new(n, |i: int| c)
}

fn repeat_char(c: char, n: usize) -> (r: String)
    ensures
        r@ == repeated(c, n as nat),
{
    let mut v: Vec<char> = Vec::new();
    let mut i: usize = 0;
    while i < n
        invariant
            i <= n,
            v@ =~= repeated(c, i as nat),
        decreases n - i,
    {
        v.push(c);
        i = i + 1;
    }
    string_of(&v)
}

fn push_line(out: &mut Vec<String>, s: String)
    ensures
        views(final(out)@) == views(old(out)@).push(s@),
{
    let ghost pre = views(out@);
    out.push(s);
    assert(views(out@) =~= pre.push(s@));
}

/// The first ten characters of a timestamp: its date.
pub open spec fn day_of(at: Seq<char>) -> Seq<char> {
    if at.len() <= 10 { at } else { at.take(10) }
}

fn day_str(at: &str) -> (r: String)
    ensures
        r@ == day_of(at@),
{
    let v = chars_of(at);
    if v.len() <= 10 { string_of(&v) } else { string_of(&prefix_upto(&v, 10)) }
}

// ---------------------------------------------------------------------------
// The chain above the requirement
// ---------------------------------------------------------------------------

/// The hazards a safety function's links reach, each with its harm.
pub open spec fn hazard_fields(p: Project, sf: SafetyFunction, n: int) -> Seq<Seq<char>>
    decreases n,
{
    if n <= 0 {
        Seq::empty()
    } else {
        let rest = hazard_fields(p, sf, n - 1);
        match lookup(p.hazards.view(), sf.links@[n - 1].target@) {
            Some(h) => rest + field_lines("HAZARD"@, h.id@ + "  ·  required "@ + sil_text(p.required_sil_spec(h))
                + "  ·  "@ + h.title@) + field_lines("harm"@, h.harm@),
            None => rest,
        }
    }
}

/// One realized safety function: the hazards it reaches, then the function.
pub open spec fn sf_fields(p: Project, sf: SafetyFunction) -> Seq<Seq<char>> {
    hazard_fields(p, sf, sf.links@.len() as int)
        + field_lines("MITIGATED BY"@, sf.id@ + "  ·  "@ + sil_text(p.allocated_sil_spec(sf)) + "  ·  "@ + sf.title@)
        + seq![Seq::<char>::empty()]
}

/// Every safety function `sr` realizes, in id order.
pub open spec fn chain_fields(p: Project, sr: SafetyRequirement, sfs: Seq<SafetyFunction>) -> Seq<Seq<char>>
    decreases sfs.len(),
{
    if sfs.len() == 0 {
        Seq::empty()
    } else {
        chain_fields(p, sr, sfs.drop_last()) + if realizes_spec(sr, sfs.last().id@) {
            sf_fields(p, sfs.last())
        } else {
            Seq::empty()
        }
    }
}

fn push_sf_fields(out: &mut Vec<String>, p: &Project, sf: &SafetyFunction)
    ensures
        views(final(out)@) == views(old(out)@) + sf_fields(*p, *sf),
{
    let ghost start = views(out@);
    let mut k: usize = 0;
    while k < sf.links.len()
        invariant
            k <= sf.links@.len(),
            views(out@) == start + hazard_fields(*p, *sf, k as int),
        decreases sf.links@.len() - k,
    {
        match p.hazards.get(sf.links[k].target.as_str()) {
            Some(h) => {
                let ghost pre = views(out@);
                let mut s = string_of(&chars_of(h.id.as_str()));
                s.append("  ·  required ");
                s.append(sil_str(p.required_sil(h)).as_str());
                s.append("  ·  ");
                s.append(h.title.as_str());
                field(out, "HAZARD", s.as_str());
                field(out, "harm", h.harm.as_str());
                assert(views(out@) =~= pre + field_lines("HAZARD"@, s@) + field_lines("harm"@, h.harm@));
            },
            None => {},
        }
        k = k + 1;
    }
    let ghost mid = views(out@);
    let mut s = string_of(&chars_of(sf.id.as_str()));
    s.append("  ·  ");
    s.append(sil_str(p.allocated_sil(sf)).as_str());
    s.append("  ·  ");
    s.append(sf.title.as_str());
    field(out, "MITIGATED BY", s.as_str());
    push_line(out, String::new());
    assert(views(out@) =~= mid + field_lines("MITIGATED BY"@, s@) + seq![Seq::<char>::empty()]);
}

// ---------------------------------------------------------------------------
// The evidence
// ---------------------------------------------------------------------------

/// The anchored source changed since the dossier was concluded, as the
/// probe of the current source shows (a waiver has no anchor to go stale).
pub open spec fn dossier_stale(v: Validation, probe: Option<SourceProbe>) -> bool {
    !v.exempt && match (v.content_hash, probe) {
        (Some(h), Some(pr)) => pr.current_hash@ != h@ && pr.files@.len() > 0,
        _ => false,
    }
}

fn is_stale(v: &Validation, probe: Option<&SourceProbe>) -> (b: bool)
    ensures
        b == dossier_stale(*v, match probe { Some(x) => Some(*x), None => None }),
{
    if v.exempt {
        return false;
    }
    match (&v.content_hash, probe) {
        (Some(h), Some(pr)) => !crate::text::str_eq(pr.current_hash.as_str(), h.as_str()) && pr.files.len() > 0,
        _ => false,
    }
}

/// The summary of the dossier's conclusion.
pub open spec fn evidence_text(v: Validation) -> Seq<char> {
    "verdict "@ + (match v.verdict { Some(o) => outcome_upper(o), None => "pending"@ }) + "  ·  concluded by "@
        + (if v.actor@.len() == 0 { "—"@ } else { v.actor@ }) + " @ "@
        + (match v.concluded_commit { Some(c) => short_spec(c@), None => "—"@ }) + "  ·  "@
        + (match v.concluded { Some(d) => day_of(d@), None => "—"@ })
}

/// A stage of the dossier, with its references.
pub open spec fn stage_fields(label: Seq<char>, a: Option<ValidationActivity>) -> Seq<Seq<char>> {
    match a {
        None => Seq::empty(),
        Some(a) => field_lines(label, "["@ + a.outcome.name() + "] "@ + a.summary@) + if a.references@.len() == 0 {
            Seq::empty()
        } else {
            field_lines(""@, "refs: "@ + join_seq(views(a.references@), ", "@))
        },
    }
}

/// Whether the dossier's anchor is stale or fresh.
pub open spec fn anchor_fields(v: Validation, probe: Option<SourceProbe>) -> Seq<Seq<char>> {
    if dossier_stale(v, probe) {
        field_lines("⚠ STALE"@, "anchored source has changed since conclude — re-verify before relying on this"@)
    } else if v.content_hash.is_some() {
        field_lines("anchor"@, "fresh — evidence matches the current source"@)
    } else {
        Seq::empty()
    }
}

/// Who co-signed the dossier, or how to.
pub open spec fn cosign_fields(sr: SafetyRequirement, v: Validation) -> Seq<Seq<char>> {
    match v.human_confirmation {
        Some(hc) => field_lines("co-sign"@, "confirmed by "@ + hc.actor@ + " on "@ + day_of(hc.at@)),
        None => field_lines("co-sign"@, "not yet co-signed — `req verification confirm "@ + sr.id@ + "`"@),
    }
}

/// The stages (with `full`) and the conclusion's statement.
pub open spec fn detail_fields(v: Validation, full: bool) -> Seq<Seq<char>> {
    (if full { stage_fields("analysis"@, v.analysis) + stage_fields("testing"@, v.testing) } else { Seq::empty() })
        + match v.statement {
            Some(st) => field_lines("conclusion"@, st@),
            None => Seq::empty(),
        }
}

/// What the dossier says: its conclusion, whether its anchor is stale or
/// fresh, the co-sign, (with `full`) the stages, and the conclusion's
/// statement.
pub open spec fn evidence_fields(sr: SafetyRequirement, full: bool, probe: Option<SourceProbe>) -> Seq<Seq<char>> {
    match sr.validation {
        None => field_lines("EVIDENCE"@, "(no verification dossier yet)"@),
        Some(v) => field_lines("EVIDENCE"@, evidence_text(v)) + anchor_fields(v, probe) + cosign_fields(sr, v)
            + detail_fields(v, full),
    }
}

fn evidence_str(v: &Validation) -> (s: String)
    ensures
        s@ == evidence_text(*v),
{
    let mut s = string_of(&chars_of("verdict "));
    match v.verdict {
        Some(o) => s.append(outcome_upper_str(o)),
        None => s.append("pending"),
    }
    s.append("  ·  concluded by ");
    if chars_of(v.actor.as_str()).len() == 0 {
        s.append("—");
    } else {
        s.append(v.actor.as_str());
    }
    s.append(" @ ");
    match &v.concluded_commit {
        Some(c) => s.append(short(c.as_str()).as_str()),
        None => s.append("—"),
    }
    s.append("  ·  ");
    match &v.concluded {
        Some(d) => s.append(day_str(d.as_str()).as_str()),
        None => s.append("—"),
    }
    s
}

fn push_stage_fields(out: &mut Vec<String>, label: &str, a: &Option<ValidationActivity>)
    ensures
        views(final(out)@) == views(old(out)@) + stage_fields(label@, *a),
{
    let ghost start = views(out@);
    if let Some(a) = a {
        let mut s = string_of(&chars_of("["));
        s.append(a.outcome.as_str());
        s.append("] ");
        s.append(a.summary.as_str());
        assert(s@ =~= "["@ + a.outcome.name() + "] "@ + a.summary@);
        field(out, label, s.as_str());
        let ghost mid = views(out@);
        if a.references.len() > 0 {
            let mut r = string_of(&chars_of("refs: "));
            r.append(join(&a.references, ", ").as_str());
            assert(r@ =~= "refs: "@ + join_seq(views(a.references@), ", "@));
            field(out, "", r.as_str());
            assert(views(out@) =~= mid + field_lines(""@, "refs: "@ + join_seq(views(a.references@), ", "@)));
        }
        assert(views(out@) =~= start + stage_fields(label@, Some(*a)));
    } else {
        assert(views(out@) =~= start + stage_fields(label@, *a));
    }
}

fn push_anchor(out: &mut Vec<String>, v: &Validation, probe: Option<&SourceProbe>)
    ensures
        views(final(out)@) == views(old(out)@) + anchor_fields(*v, match probe { Some(x) => Some(*x), None => None }),
{
    let ghost start = views(out@);
    if is_stale(v, probe) {
        field(out, "⚠ STALE", "anchored source has changed since conclude — re-verify before relying on this");
    } else if v.content_hash.is_some() {
        field(out, "anchor", "fresh — evidence matches the current source");
    } else {
        assert(views(out@) =~= start + Seq::<Seq<char>>::empty());
    }
}

fn push_cosign(out: &mut Vec<String>, sr: &SafetyRequirement, v: &Validation)
    ensures
        views(final(out)@) == views(old(out)@) + cosign_fields(*sr, *v),
{
    match &v.human_confirmation {
        Some(hc) => {
            let mut s = string_of(&chars_of("confirmed by "));
            s.append(hc.actor.as_str());
            s.append(" on ");
            s.append(day_str(hc.at.as_str()).as_str());
            assert(s@ =~= "confirmed by "@ + hc.actor@ + " on "@ + day_of(hc.at@));
            field(out, "co-sign", s.as_str());
        },
        None => {
            let mut s = string_of(&chars_of("not yet co-signed — `req verification confirm "));
            s.append(sr.id.as_str());
            s.append("`");
            assert(s@ =~= "not yet co-signed — `req verification confirm "@ + sr.id@ + "`"@);
            field(out, "co-sign", s.as_str());
        },
    }
}

fn push_details(out: &mut Vec<String>, v: &Validation, full: bool)
    ensures
        views(final(out)@) == views(old(out)@) + detail_fields(*v, full),
{
    let ghost start = views(out@);
    if full {
        push_stage_fields(out, "analysis", &v.analysis);
        push_stage_fields(out, "testing", &v.testing);
    }
    let ghost mid = views(out@);
    assert(mid =~= start + (if full { stage_fields("analysis"@, v.analysis) + stage_fields("testing"@, v.testing) } else { Seq::empty() }));
    if let Some(st) = &v.statement {
        field(out, "conclusion", st.as_str());
    }
    assert(views(out@) =~= start + detail_fields(*v, full));
}

fn push_evidence(out: &mut Vec<String>, sr: &SafetyRequirement, full: bool, probe: Option<&SourceProbe>)
    ensures
        views(final(out)@) == views(old(out)@) + evidence_fields(*sr, full, match probe { Some(x) => Some(*x), None => None }),
{
    let ghost start = views(out@);
    match &sr.validation {
        None => {
            field(out, "EVIDENCE", "(no verification dossier yet)");
        },
        Some(v) => {
            let e = evidence_str(v);
            field(out, "EVIDENCE", e.as_str());
            push_anchor(out, v, probe);
            push_cosign(out, sr, v);
            push_details(out, v, full);
        },
    }
}

// ---------------------------------------------------------------------------
// The engineer's call
// ---------------------------------------------------------------------------

/// Where the requirement stands for the engineer at commit `head`: its
/// chain cannot be acknowledged yet, or it is acknowledged, objected to,
/// stale, or awaiting acknowledgement.
pub open spec fn call_lines(p: Project, sr: SafetyRequirement, head: Seq<char>) -> Seq<Seq<char>> {
    match gap_spec(p, sr.id@) {
        Some(why) => seq!["  ⚠  chain incomplete — cannot be acknowledged yet"@, "     "@ + why.text()],
        None => match sr.walkthrough {
            Some(a) => if fresh_spec(sr.walkthrough, head) {
                seq!["  ✓  acknowledged by "@ + a.reviewer@ + " at "@ + minute_of(a.at@) + " UTC"@]
            } else if a.objected {
                seq!["  ✗  objection on record by "@ + a.reviewer@]
            } else {
                seq!["  ⚠  prior acknowledgement is stale"@,
                    "     re-acknowledge at this commit — `req safety acknowledge "@ + sr.id@ + "`"@]
            },
            None => seq!["  ▷  awaiting your acknowledgement"@,
                "     run:  req safety acknowledge "@ + sr.id@ + "   (or --object to decline)"@],
        },
    }
}

fn push_call(out: &mut Vec<String>, p: &Project, sr: &SafetyRequirement, head: &str)
    ensures
        views(final(out)@) == views(old(out)@) + call_lines(*p, *sr, head@),
{
    let ghost start = views(out@);
    match chain_incompleteness(p, sr.id.as_str()) {
        Some(why) => {
            push_line(out, string_of(&chars_of("  ⚠  chain incomplete — cannot be acknowledged yet")));
            let mut s = string_of(&chars_of("     "));
            s.append(why.message());
            push_line(out, s);
        },
        None => match &sr.walkthrough {
            Some(a) => {
                if ack_is_fresh(Some(a), head) {
                    let mut s = string_of(&chars_of("  ✓  acknowledged by "));
                    s.append(a.reviewer.as_str());
                    s.append(" at ");
                    s.append(minute_str(a.at.as_str()).as_str());
                    s.append(" UTC");
                    push_line(out, s);
                } else if a.objected {
                    let mut s = string_of(&chars_of("  ✗  objection on record by "));
                    s.append(a.reviewer.as_str());
                    push_line(out, s);
                } else {
                    push_line(out, string_of(&chars_of("  ⚠  prior acknowledgement is stale")));
                    let mut s = string_of(&chars_of("     re-acknowledge at this commit — `req safety acknowledge "));
                    s.append(sr.id.as_str());
                    s.append("`");
                    push_line(out, s);
                }
            },
            None => {
                push_line(out, string_of(&chars_of("  ▷  awaiting your acknowledgement")));
                let mut s = string_of(&chars_of("     run:  req safety acknowledge "));
                s.append(sr.id.as_str());
                s.append("   (or --object to decline)");
                push_line(out, s);
            },
        },
    }
    assert(views(out@) =~= start + call_lines(*p, *sr, head@));
}

// ---------------------------------------------------------------------------
// The screen
// ---------------------------------------------------------------------------

/// The banner: requirement `idx + 1` of `total`, between heavy rules.
pub open spec fn banner(sr: SafetyRequirement, idx: nat, total: nat) -> Seq<Seq<char>> {
    seq![
        Seq::<char>::empty(),
        repeated('━', 74),
        "  ["@ + dec_seq(idx + 1) + "/"@ + dec_seq(total) + "]  "@ + sr.id@ + " — "@ + sr.title@,
        repeated('━', 74),
        Seq::<char>::empty()
    ]
}

/// The walkthrough screen of safety requirement `sr` (number `idx + 1` of
/// `total`), at commit `head`; `full` adds the dossier's stages.
pub open spec fn screen(p: Project, sr: SafetyRequirement, head: Seq<char>, full: bool, probe: Option<SourceProbe>,
    idx: nat, total: nat) -> Seq<Seq<char>> {
    banner(sr, idx, total) + chain_fields(p, sr, p.safety_functions.view())
        + field_lines("REQUIREMENT"@, "inherited "@ + sil_text(p.inherited_sil_spec(sr)) + "  ·  status "@ + sr.status.name())
        + field_lines(""@, sr.statement@)
        + evidence_fields(sr, full, probe)
        + seq!["  "@ + repeated('─', 70)]
        + call_lines(p, sr, head)
}

fn push_banner(out: &mut Vec<String>, sr: &SafetyRequirement, idx: usize, total: usize)
    requires
        idx < usize::MAX,
    ensures
        views(final(out)@) == views(old(out)@) + banner(*sr, idx as nat, total as nat),
{
    let ghost start = views(out@);
    push_line(out, String::new());
    push_line(out, repeat_char('━', 74));
    let mut s = string_of(&chars_of("  ["));
    s.append(dec_string((idx + 1) as u64).as_str());
    s.append("/");
    s.append(dec_string(total as u64).as_str());
    s.append("]  ");
    s.append(sr.id.as_str());
    s.append(" — ");
    s.append(sr.title.as_str());
    push_line(out, s);
    push_line(out, repeat_char('━', 74));
    push_line(out, String::new());
    assert(views(out@) =~= start + banner(*sr, idx as nat, total as nat));
}

/// Render the walkthrough screen of safety requirement `id` (number
/// `idx + 1` of `total`) at commit `head`; `probe` hashes the dossier's
/// anchored sources now, and `full` adds the dossier's stages.
pub fn render_sr(project: &Project, id: &str, head: &str, full: bool, probe: Option<&SourceProbe>, idx: usize,
    total: usize) -> (r: Vec<String>)
    requires
        has_key(project.safety_requirements.view(), id@),
        idx < usize::MAX,
    ensures
        views(r@) == screen(*project, lookup(project.safety_requirements.view(), id@).unwrap(), head@, full,
            match probe { Some(x) => Some(*x), None => None }, idx as nat, total as nat),
{
    let sr = project.safety_requirements.get(id).unwrap();
    let mut out: Vec<String> = Vec::new();
    push_banner(&mut out, sr, idx, total);
    let ghost b1 = views(out@);
    let n = project.safety_functions.len();
    let ghost fs = project.safety_functions.view();
    let mut i: usize = 0;
    while i < n
        invariant
            n == fs.len(),
            fs == project.safety_functions.view(),
            i <= n,
            views(out@) == b1 + chain_fields(*project, *sr, fs.take(i as int)),
        decreases n - i,
    {
        assert(fs.take(i + 1).drop_last() =~= fs.take(i as int));
        assert(fs.take(i + 1).last() == fs[i as int]);
        let sf = project.safety_functions.at(i);
        let ghost pre = views(out@);
        if realizes(sr, sf.id.as_str()) {
            push_sf_fields(&mut out, project, sf);
        } else {
            assert(views(out@) =~= pre + Seq::<Seq<char>>::empty());
        }
        i = i + 1;
    }
    assert(fs.take(n as int) =~= fs);
    let ghost b2 = views(out@);
    let mut req = string_of(&chars_of("inherited "));
    req.append(sil_str(project.inherited_sil(sr)).as_str());
    req.append("  ·  status ");
    req.append(sr.status.as_str());
    assert(req@ =~= "inherited "@ + sil_text(project.inherited_sil_spec(*sr)) + "  ·  status "@ + sr.status.name());
    field(&mut out, "REQUIREMENT", req.as_str());
    field(&mut out, "", sr.statement.as_str());
    let ghost b3 = views(out@);
    assert(b3 =~= b2 + field_lines("REQUIREMENT"@, req@) + field_lines(""@, sr.statement@));
    push_evidence(&mut out, sr, full, probe);
    let ghost b4 = views(out@);
    let mut rule = string_of(&chars_of("  "));
    rule.append(repeat_char('─', 70).as_str());
    assert(rule@ =~= "  "@ + repeated('─', 70));
    push_line(&mut out, rule);
    let ghost b5 = views(out@);
    push_call(&mut out, project, sr, head);
    assert(lookup(project.safety_requirements.view(), id@) == Some(*sr));
    assert(views(out@) =~= screen(*project, *sr, head@, full, match probe { Some(x) => Some(*x), None => None },
        idx as nat, total as nat));
    out
}

} // verus!
