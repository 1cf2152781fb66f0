//! The functional-safety part of the markdown export: the hazard analysis
//! and risk assessment (HARA) table, a safety case per hazard, the
//! verification dossiers of the safety artifacts, the walkthrough
//! acknowledgements and the risk-graph calibration in force.
use vstd::prelude::*;

use crate::idmap::{keys_sorted, IdMap};
use crate::impact::lemma_lookup_own;
use crate::markdown::{dossier_md, dossier_md_spec, md_cell, md_cell_spec};
use crate::model::{Hazard, Project, SafetyFunction, SafetyRequirement, Status, WalkthroughAck};
use crate::provenance::{probe_for, SourceProbe};
use crate::safety::{
    adequate_spec, assess_hazard, case_srs, max_allocated, mitigates, mitigates_spec, mitigators, realizers, realizes,
    realizes_spec, sil_str, sil_text, verdict_of, verified_count,
};
use crate::safety_gov::{ack_is_fresh, fresh_spec};
use crate::staleness::{short, short_spec};
use crate::text::{chars_of, dec_seq, dec_string, prefix_upto, string_of};

verus! {

/// What the safety section says of itself: it traces a candidate
/// classification and is no assurance argument.
pub const HARA_DISCLAIMER: &'static str = "> **Disclaimer.** `req` computes a *candidate* SIL from the inputs below and checks *traceability* only. It is **not** a qualified safety tool (IEC 61508-3 §7.4.4), does not model achieved integrity (PFD/PFH, diagnostic coverage, SIL decomposition), and does not assure that residual risk is acceptable. \"Complete\" means the chain is linked and verified — not that the design is safe. The safety determination remains the engineer's responsibility.\n\n";

/// The label of the default risk graph.
pub const DEFAULT_CALIBRATION_LABEL: &'static str = "IEC 61508-5 Annex D (default)";

// ---------------------------------------------------------------------------
// Pieces
// ---------------------------------------------------------------------------

/// The hazard's risk-graph parameters joined by `sep`, or `none` when any
/// is unassessed.
pub open spec fn risk_text(h: Hazard, sep: Seq<char>, none: Seq<char>) -> Seq<char> {
    match (h.consequence, h.frequency, h.avoidance, h.probability) {
        (Some(c), Some(f), Some(a), Some(w)) => c.name() + sep + f.name() + sep + a.name() + sep + w.name(),
        _ => none,
    }
}

fn risk_str(h: &Hazard, sep: &str, none: &str) -> (r: String)
    ensures
        r@ == risk_text(*h, sep@, none@),
{
    match (h.consequence, h.frequency, h.avoidance, h.probability) {
        (Some(c), Some(f), Some(a), Some(w)) => {
            let mut s = string_of(&chars_of(c.as_str()));
            s.append(sep);
            s.append(f.as_str());
            s.append(sep);
            s.append(a.as_str());
            s.append(sep);
            s.append(w.as_str());
            s
        },
        _ => string_of(&chars_of(none)),
    }
}

fn push_dec(s: &mut String, n: usize)
    ensures
        final(s)@ == old(s)@ + dec_seq(n as nat),
{
    let d = dec_string(n as u64);
    s.append(d.as_str());
}

/// The first ten characters of a timestamp: its date.
pub open spec fn date_of(at: Seq<char>) -> Seq<char> {
    if at.len() <= 10 { at } else { at.take(10) }
}

fn date_str(at: &str) -> (r: String)
    ensures
        r@ == date_of(at@),
{
    let v = chars_of(at);
    if v.len() <= 10 { string_of(&v) } else { string_of(&prefix_upto(&v, 10)) }
}

// ---------------------------------------------------------------------------
// The HARA table
// ---------------------------------------------------------------------------

/// A hazard's case is complete: its allocated level is adequate, it has a
/// mitigating function, and every realizing requirement (there being one)
/// is verified.
pub open spec fn case_complete(p: Project, h: Hazard) -> bool {
    let sfs = mitigators(p.safety_functions.view(), h.id@);
    let srs = case_srs(p, sfs);
    &&& adequate_spec(p.required_sil_spec(h), max_allocated(p, sfs))
    &&& srs.len() > 0 && verified_count(srs) == srs.len() && sfs.len() > 0
}

/// A HARA row from its values.
pub open spec fn row_text(h: Hazard, req: Option<crate::model::Sil>, alloc: Option<crate::model::Sil>, verified: nat,
    total: nat, complete: bool) -> Seq<char> {
    "| "@ + h.id@ + " "@ + md_cell_spec(h.title@) + " | "@ + md_cell_spec(h.harm@) + " | "@
        + risk_text(h, "·"@, "—"@) + " | "@ + sil_text(req) + " | "@ + sil_text(alloc) + " | "@ + dec_seq(verified)
        + "/"@ + dec_seq(total) + " | "@ + (if complete { "✓ complete"@ } else { "⚠ incomplete"@ }) + " |\n"@
}

/// One row of the HARA table.
pub open spec fn hara_row(p: Project, h: Hazard) -> Seq<char> {
    let sfs = mitigators(p.safety_functions.view(), h.id@);
    let srs = case_srs(p, sfs);
    row_text(h, p.required_sil_spec(h), max_allocated(p, sfs), verified_count(srs), srs.len(), case_complete(p, h))
}

pub open spec fn hara_rows(p: Project, hs: Seq<Hazard>) -> Seq<char>
    decreases hs.len(),
{
    if hs.len() == 0 { Seq::empty() } else { hara_rows(p, hs.drop_last()) + hara_row(p, hs.last()) }
}

/// The HARA overview table.
pub open spec fn hara_table(p: Project) -> Seq<char> {
    "## Hazard analysis & risk assessment\n\n"@
        + "| Hazard | Harm | C/F/P/W | Required SIL | Allocated SIL | SRs verified | Case |\n"@
        + "|---|---|---|---|---|---|---|\n"@ + hara_rows(p, p.hazards.view()) + "\n"@
}

/// The number of safety functions times the number of safety requirements
/// fits in `usize`, so every hazard's case can be counted.
pub open spec fn chain_fits(p: Project) -> bool {
    p.safety_functions.view().len() * p.safety_requirements.view().len() <= usize::MAX
}

fn push_row_text(out: &mut String, h: &Hazard, req: Option<crate::model::Sil>, alloc: Option<crate::model::Sil>,
    verified: usize, total: usize, complete: bool)
    ensures
        final(out)@ == old(out)@ + row_text(*h, req, alloc, verified as nat, total as nat, complete),
{
    let ghost b = out@;
    out.append("| ");
    out.append(h.id.as_str());
    out.append(" ");
    out.append(md_cell(h.title.as_str()).as_str());
    out.append(" | ");
    out.append(md_cell(h.harm.as_str()).as_str());
    out.append(" | ");
    out.append(risk_str(h, "·", "—").as_str());
    out.append(" | ");
    out.append(sil_str(req).as_str());
    out.append(" | ");
    out.append(sil_str(alloc).as_str());
    out.append(" | ");
    push_dec(out, verified);
    out.append("/");
    push_dec(out, total);
    out.append(" | ");
    out.append(if complete { "✓ complete" } else { "⚠ incomplete" });
    out.append(" |\n");
    assert(out@ =~= b + row_text(*h, req, alloc, verified as nat, total as nat, complete));
}

fn push_hara_row(out: &mut String, p: &Project, i: usize)
    requires
        i < p.hazards.view().len(),
        keys_sorted(p.hazards.view()),
        chain_fits(*p),
    ensures
        final(out)@ == old(out)@ + hara_row(*p, p.hazards.view()[i as int]),
{
    let h = p.hazards.at(i);
    proof {
        lemma_lookup_own(p.hazards.view(), i as int);
    }
    let v = assess_hazard(p, h.id.as_str());
    let complete = v.adequate && v.sr_total > 0 && v.sr_verified == v.sr_total;
    proof {
        let sfs = mitigators(p.safety_functions.view(), h.id@);
        if sfs.len() == 0 {
            assert(case_srs(*p, sfs).len() == 0);
        }
        assert(complete == case_complete(*p, *h));
    }
    push_row_text(out, h, v.required, v.allocated, v.sr_verified, v.sr_total, complete);
}

fn push_hara_table(out: &mut String, p: &Project)
    requires
        chain_fits(*p),
    ensures
        final(out)@ == old(out)@ + hara_table(*p),
{
    let ghost b = out@;
    out.append("## Hazard analysis & risk assessment\n\n");
    out.append("| Hazard | Harm | C/F/P/W | Required SIL | Allocated SIL | SRs verified | Case |\n");
    out.append("|---|---|---|---|---|---|---|\n");
    let ghost b1 = out@;
    let n = p.hazards.len();
    let ghost hs = p.hazards.view();
    let mut i: usize = 0;
    while i < n
        invariant
            n == hs.len(),
            hs == p.hazards.view(),
            keys_sorted(hs),
            chain_fits(*p),
            i <= n,
            out@ == b1 + hara_rows(*p, hs.take(i as int)),
        decreases n - i,
    {
        assert(hs.take(i + 1).drop_last() =~= hs.take(i as int));
        assert(hs.take(i + 1).last() == hs[i as int]);
        push_hara_row(out, p, i);
        i = i + 1;
    }
    assert(hs.take(n as int) =~= hs);
    out.append("\n");
    assert(out@ =~= b + hara_table(*p));
}

// ---------------------------------------------------------------------------
// The safety cases
// ---------------------------------------------------------------------------

/// One realizing requirement under its safety function.
pub open spec fn sr_line(p: Project, sr: SafetyRequirement) -> Seq<char> {
    "  - "@ + (if sr.status == Status::Verified { "✓"@ } else { "⚠"@ }) + " "@ + sr.id@ + " "@
        + md_cell_spec(sr.title@) + " — _"@ + sr.status.name() + "_ (inherits "@ + sil_text(p.inherited_sil_spec(sr))
        + ")\n"@
}

pub open spec fn sr_lines(p: Project, srs: Seq<SafetyRequirement>) -> Seq<char>
    decreases srs.len(),
{
    if srs.len() == 0 { Seq::empty() } else { sr_lines(p, srs.drop_last()) + sr_line(p, srs.last()) }
}

/// The line naming a mitigating safety function.
pub open spec fn sf_head(p: Project, sf: SafetyFunction) -> Seq<char> {
    "\n  **"@ + sf.id@ + " — "@ + sf.title@ + "** (allocated "@ + sil_text(p.allocated_sil_spec(sf)) + ", "@
        + sf.status.name() + ")  \n  _safe state:_ "@ + (if sf.safe_state@.len() == 0 { "—"@ } else { sf.safe_state@ })
        + "\n"@
}

/// A mitigating safety function and the requirements realizing it.
pub open spec fn sf_block(p: Project, sf: SafetyFunction) -> Seq<char> {
    sf_head(p, sf) + sr_lines(p, realizers(p.safety_requirements.view(), sf.id@))
}

pub open spec fn sf_blocks(p: Project, sfs: Seq<SafetyFunction>) -> Seq<char>
    decreases sfs.len(),
{
    if sfs.len() == 0 { Seq::empty() } else { sf_blocks(p, sfs.drop_last()) + sf_block(p, sfs.last()) }
}

/// The heading of a hazard's case, with its harm, context and risk.
pub open spec fn case_head(p: Project, h: Hazard) -> Seq<char> {
    "### "@ + h.id@ + " — "@ + h.title@ + "\n\n- **Harm.** "@ + h.harm@ + "\n"@
        + (if h.operating_context@.len() == 0 { Seq::empty() } else {
            "- **Operating context.** "@ + h.operating_context@ + "\n"@
        })
        + "- **Risk.** "@ + risk_text(h, " · "@, "not yet assessed"@) + " → required **"@
        + sil_text(p.required_sil_spec(h)) + "**\n"@
}

/// The safety case of one hazard: harm, operating context, risk and
/// required level, then each mitigating function with its realizing
/// requirements.
pub open spec fn case_section(p: Project, h: Hazard) -> Seq<char> {
    let sfs = mitigators(p.safety_functions.view(), h.id@);
    case_head(p, h) + (if sfs.len() == 0 { "- **Mitigation.** _none_\n"@ } else { Seq::empty() })
        + sf_blocks(p, sfs) + "\n---\n\n"@
}

pub open spec fn case_sections(p: Project, hs: Seq<Hazard>) -> Seq<char>
    decreases hs.len(),
{
    if hs.len() == 0 { Seq::empty() } else { case_sections(p, hs.drop_last()) + case_section(p, hs.last()) }
}

fn push_sr_line(out: &mut String, p: &Project, sr: &SafetyRequirement)
    ensures
        final(out)@ == old(out)@ + sr_line(*p, *sr),
{
    let ghost pre = out@;
    out.append("  - ");
    out.append(if matches!(sr.status, Status::Verified) { "✓" } else { "⚠" });
    out.append(" ");
    out.append(sr.id.as_str());
    out.append(" ");
    out.append(md_cell(sr.title.as_str()).as_str());
    out.append(" — _");
    out.append(sr.status.as_str());
    out.append("_ (inherits ");
    out.append(sil_str(p.inherited_sil(sr)).as_str());
    out.append(")\n");
    assert(out@ =~= pre + sr_line(*p, *sr));
}

fn push_sr_lines(out: &mut String, p: &Project, sf_id: &str)
    ensures
        final(out)@ == old(out)@ + sr_lines(*p, realizers(p.safety_requirements.view(), sf_id@)),
{
    let n = p.safety_requirements.len();
    let ghost s = p.safety_requirements.view();
    let ghost b = out@;
    let mut i: usize = 0;
    while i < n
        invariant
            n == s.len(),
            s == p.safety_requirements.view(),
            i <= n,
            out@ == b + sr_lines(*p, realizers(s.take(i as int), sf_id@)),
        decreases n - i,
    {
        assert(s.take(i + 1).drop_last() =~= s.take(i as int));
        assert(s.take(i + 1).last() == s[i as int]);
        let sr = p.safety_requirements.at(i);
        if realizes(sr, sf_id) {
            let ghost pre = out@;
            let ghost rs = realizers(s.take(i as int), sf_id@);
            assert(realizers(s.take(i + 1), sf_id@) == rs.push(*sr));
            assert(rs.push(*sr).drop_last() =~= rs);
            push_sr_line(out, p, sr);
        }
        i = i + 1;
    }
    assert(s.take(n as int) =~= s);
}

fn push_sf_block(out: &mut String, p: &Project, sf: &SafetyFunction)
    ensures
        final(out)@ == old(out)@ + sf_block(*p, *sf),
{
    let ghost b = out@;
    out.append("\n  **");
    out.append(sf.id.as_str());
    out.append(" — ");
    out.append(sf.title.as_str());
    out.append("** (allocated ");
    out.append(sil_str(p.allocated_sil(sf)).as_str());
    out.append(", ");
    out.append(sf.status.as_str());
    out.append(")  \n  _safe state:_ ");
    if chars_of(sf.safe_state.as_str()).len() == 0 {
        out.append("—");
    } else {
        out.append(sf.safe_state.as_str());
    }
    out.append("\n");
    let ghost b1 = out@;
    assert(b1 =~= b + sf_head(*p, *sf));
    push_sr_lines(out, p, sf.id.as_str());
    assert(out@ =~= b + sf_block(*p, *sf));
}

fn push_sf_blocks(out: &mut String, p: &Project, haz_id: &str) -> (any: bool)
    ensures
        final(out)@ == old(out)@ + sf_blocks(*p, mitigators(p.safety_functions.view(), haz_id@)),
        any == (mitigators(p.safety_functions.view(), haz_id@).len() > 0),
{
    let n = p.safety_functions.len();
    let ghost s = p.safety_functions.view();
    let ghost b = out@;
    let mut any = false;
    let mut i: usize = 0;
    while i < n
        invariant
            n == s.len(),
            s == p.safety_functions.view(),
            i <= n,
            out@ == b + sf_blocks(*p, mitigators(s.take(i as int), haz_id@)),
            any == (mitigators(s.take(i as int), haz_id@).len() > 0),
        decreases n - i,
    {
        assert(s.take(i + 1).drop_last() =~= s.take(i as int));
        assert(s.take(i + 1).last() == s[i as int]);
        let sf = p.safety_functions.at(i);
        if mitigates(sf, haz_id) {
            let ghost ms = mitigators(s.take(i as int), haz_id@);
            assert(mitigators(s.take(i + 1), haz_id@) == ms.push(*sf));
            assert(ms.push(*sf).drop_last() =~= ms);
            push_sf_block(out, p, sf);
            any = true;
        }
        i = i + 1;
    }
    assert(s.take(n as int) =~= s);
    any
}

#[verifier::rlimit(40)]
fn push_case(out: &mut String, p: &Project, h: &Hazard)
    ensures
        final(out)@ == old(out)@ + case_section(*p, *h),
{
    let ghost b = out@;
    out.append("### ");
    out.append(h.id.as_str());
    out.append(" — ");
    out.append(h.title.as_str());
    out.append("\n\n- **Harm.** ");
    out.append(h.harm.as_str());
    out.append("\n");
    if chars_of(h.operating_context.as_str()).len() > 0 {
        out.append("- **Operating context.** ");
        out.append(h.operating_context.as_str());
        out.append("\n");
    }
    out.append("- **Risk.** ");
    out.append(risk_str(h, " · ", "not yet assessed").as_str());
    out.append(" → required **");
    out.append(sil_str(p.required_sil(h)).as_str());
    out.append("**\n");
    let ghost b1 = out@;
    assert(b1 =~= b + case_head(*p, *h));
    let mut blocks = String::new();
    let any = push_sf_blocks(&mut blocks, p, h.id.as_str());
    if !any {
        out.append("- **Mitigation.** _none_\n");
    }
    let ghost b2 = out@;
    out.append(blocks.as_str());
    out.append("\n---\n\n");
    assert(out@ =~= b + case_section(*p, *h));
}

fn push_cases(out: &mut String, p: &Project)
    ensures
        final(out)@ == old(out)@ + "## Safety cases\n\n"@ + case_sections(*p, p.hazards.view()),
{
    let ghost b = out@;
    out.append("## Safety cases\n\n");
    let ghost b1 = out@;
    let n = p.hazards.len();
    let ghost hs = p.hazards.view();
    let mut i: usize = 0;
    while i < n
        invariant
            n == hs.len(),
            hs == p.hazards.view(),
            i <= n,
            out@ == b1 + case_sections(*p, hs.take(i as int)),
        decreases n - i,
    {
        assert(hs.take(i + 1).drop_last() =~= hs.take(i as int));
        assert(hs.take(i + 1).last() == hs[i as int]);
        push_case(out, p, p.hazards.at(i));
        i = i + 1;
    }
    assert(hs.take(n as int) =~= hs);
}

// ---------------------------------------------------------------------------
// Dossiers, acknowledgements, calibration
// ---------------------------------------------------------------------------

/// The dossier of one safety function, under its heading.
pub open spec fn sf_dossier(sf: SafetyFunction, probes: Option<Seq<SourceProbe>>) -> Seq<char> {
    "### "@ + sf.id@ + " — "@ + sf.title@ + " ("@ + sf.status.name() + ")\n\n"@
        + dossier_md_spec(sf.validation, probe_for(probes, sf.id@), Seq::empty())
}

/// The dossier and test records of one safety requirement, under its
/// heading.
pub open spec fn sr_dossier(sr: SafetyRequirement, probes: Option<Seq<SourceProbe>>) -> Seq<char> {
    "### "@ + sr.id@ + " — "@ + sr.title@ + " ("@ + sr.status.name() + ")\n\n"@
        + dossier_md_spec(sr.validation, probe_for(probes, sr.id@), sr.tests@)
}

pub open spec fn sf_dossiers(sfs: Seq<SafetyFunction>, probes: Option<Seq<SourceProbe>>) -> Seq<char>
    decreases sfs.len(),
{
    if sfs.len() == 0 { Seq::empty() } else { sf_dossiers(sfs.drop_last(), probes) + sf_dossier(sfs.last(), probes) }
}

pub open spec fn sr_dossiers(srs: Seq<SafetyRequirement>, probes: Option<Seq<SourceProbe>>) -> Seq<char>
    decreases srs.len(),
{
    if srs.len() == 0 { Seq::empty() } else { sr_dossiers(srs.drop_last(), probes) + sr_dossier(srs.last(), probes) }
}

pub open spec fn probes_view(probes: Option<&IdMap<SourceProbe>>) -> Option<Seq<SourceProbe>> {
    match probes { Some(m) => Some(m.view()), None => None }
}

/// The verification dossier of every safety function, then of every
/// safety requirement, in id order.
pub open spec fn dossiers_section(p: Project, probes: Option<Seq<SourceProbe>>) -> Seq<char> {
    "## Safety verification dossiers\n\n"@ + sf_dossiers(p.safety_functions.view(), probes)
        + sr_dossiers(p.safety_requirements.view(), probes)
}

fn probe_of<'a>(probes: Option<&'a IdMap<SourceProbe>>, id: &str) -> (r: Option<&'a SourceProbe>)
    ensures
        match r { Some(x) => Some(*x), None => None } == probe_for(probes_view(probes), id@),
{
    match probes {
        Some(m) => m.get(id),
        None => None,
    }
}

fn push_sf_dossier(out: &mut String, sf: &SafetyFunction, probes: Option<&IdMap<SourceProbe>>)
    ensures
        final(out)@ == old(out)@ + sf_dossier(*sf, probes_view(probes)),
{
    let ghost b = out@;
    let none: Vec<crate::model::TestRecord> = Vec::new();
    out.append("### ");
    out.append(sf.id.as_str());
    out.append(" — ");
    out.append(sf.title.as_str());
    out.append(" (");
    out.append(sf.status.as_str());
    out.append(")\n\n");
    out.append(dossier_md(sf.validation.as_ref(), probe_of(probes, sf.id.as_str()), &none).as_str());
    assert(none@ =~= Seq::<crate::model::TestRecord>::empty());
    assert(out@ =~= b + sf_dossier(*sf, probes_view(probes)));
}

fn push_sr_dossier(out: &mut String, sr: &SafetyRequirement, probes: Option<&IdMap<SourceProbe>>)
    ensures
        final(out)@ == old(out)@ + sr_dossier(*sr, probes_view(probes)),
{
    let ghost b = out@;
    out.append("### ");
    out.append(sr.id.as_str());
    out.append(" — ");
    out.append(sr.title.as_str());
    out.append(" (");
    out.append(sr.status.as_str());
    out.append(")\n\n");
    out.append(dossier_md(sr.validation.as_ref(), probe_of(probes, sr.id.as_str()), &sr.tests).as_str());
    assert(out@ =~= b + sr_dossier(*sr, probes_view(probes)));
}

fn push_dossiers(out: &mut String, p: &Project, probes: Option<&IdMap<SourceProbe>>)
    ensures
        final(out)@ == old(out)@ + dossiers_section(*p, probes_view(probes)),
{
    let ghost pv = probes_view(probes);
    let ghost b = out@;
    out.append("## Safety verification dossiers\n\n");
    let ghost b1 = out@;
    let n = p.safety_functions.len();
    let ghost fs = p.safety_functions.view();
    let mut i: usize = 0;
    while i < n
        invariant
            n == fs.len(),
            fs == p.safety_functions.view(),
            pv == probes_view(probes),
            i <= n,
            out@ == b1 + sf_dossiers(fs.take(i as int), pv),
        decreases n - i,
    {
        assert(fs.take(i + 1).drop_last() =~= fs.take(i as int));
        assert(fs.take(i + 1).last() == fs[i as int]);
        push_sf_dossier(out, p.safety_functions.at(i), probes);
        i = i + 1;
    }
    assert(fs.take(n as int) =~= fs);
    let ghost b2 = out@;
    let m = p.safety_requirements.len();
    let ghost rs = p.safety_requirements.view();
    let mut j: usize = 0;
    while j < m
        invariant
            m == rs.len(),
            rs == p.safety_requirements.view(),
            pv == probes_view(probes),
            j <= m,
            out@ == b2 + sr_dossiers(rs.take(j as int), pv),
        decreases m - j,
    {
        assert(rs.take(j + 1).drop_last() =~= rs.take(j as int));
        assert(rs.take(j + 1).last() == rs[j as int]);
        push_sr_dossier(out, p.safety_requirements.at(j), probes);
        j = j + 1;
    }
    assert(rs.take(m as int) =~= rs);
    assert(out@ =~= b + dossiers_section(*p, pv));
}

/// The walkthrough state of one safety requirement at commit `head`.
pub open spec fn ack_state(a: Option<WalkthroughAck>, head: Seq<char>) -> Seq<char> {
    match a {
        None => "never acknowledged"@,
        Some(x) => if x.objected {
            "OBJECTION by "@ + x.reviewer@ + " @ "@ + date_of(x.at@) + match x.note {
                Some(n) => " — "@ + n@,
                None => Seq::empty(),
            }
        } else if fresh_spec(a, head) {
            "acknowledged by "@ + x.reviewer@ + " @ "@ + date_of(x.at@)
        } else {
            "acknowledgement STALE (by "@ + x.reviewer@ + " @ commit `"@ + short_spec(x.commit@)
                + "`; chain changed since)"@
        },
    }
}

pub open spec fn ack_lines(srs: Seq<SafetyRequirement>, head: Seq<char>) -> Seq<char>
    decreases srs.len(),
{
    if srs.len() == 0 {
        Seq::empty()
    } else {
        ack_lines(srs.drop_last(), head) + "- "@ + srs.last().id@ + " — "@ + ack_state(srs.last().walkthrough, head) + "\n"@
    }
}

/// The walkthrough acknowledgements (nothing without safety requirements).
pub open spec fn acks_section(p: Project, head: Seq<char>) -> Seq<char> {
    if p.safety_requirements.view().len() == 0 {
        Seq::empty()
    } else {
        "## Walkthrough acknowledgements\n\n"@ + ack_lines(p.safety_requirements.view(), head) + "\n"@
    }
}

fn ack_state_str(a: &Option<WalkthroughAck>, head: &str) -> (r: String)
    ensures
        r@ == ack_state(*a, head@),
{
    match a {
        None => string_of(&chars_of("never acknowledged")),
        Some(x) => {
            let fresh = ack_is_fresh(Some(x), head);
            if x.objected {
                let mut s = string_of(&chars_of("OBJECTION by "));
                s.append(x.reviewer.as_str());
                s.append(" @ ");
                s.append(date_str(x.at.as_str()).as_str());
                if let Some(n) = &x.note {
                    s.append(" — ");
                    s.append(n.as_str());
                }
                s
            } else if fresh {
                let mut s = string_of(&chars_of("acknowledged by "));
                s.append(x.reviewer.as_str());
                s.append(" @ ");
                s.append(date_str(x.at.as_str()).as_str());
                s
            } else {
                let mut s = string_of(&chars_of("acknowledgement STALE (by "));
                s.append(x.reviewer.as_str());
                s.append(" @ commit `");
                s.append(short(x.commit.as_str()).as_str());
                s.append("`; chain changed since)");
                s
            }
        },
    }
}

fn push_acks(out: &mut String, p: &Project, head: &str)
    ensures
        final(out)@ == old(out)@ + acks_section(*p, head@),
{
    let m = p.safety_requirements.len();
    if m == 0 {
        return;
    }
    let ghost b = out@;
    out.append("## Walkthrough acknowledgements\n\n");
    let ghost b1 = out@;
    let ghost rs = p.safety_requirements.view();
    let mut j: usize = 0;
    while j < m
        invariant
            m == rs.len(),
            rs == p.safety_requirements.view(),
            j <= m,
            out@ == b1 + ack_lines(rs.take(j as int), head@),
        decreases m - j,
    {
        assert(rs.take(j + 1).drop_last() =~= rs.take(j as int));
        assert(rs.take(j + 1).last() == rs[j as int]);
        let sr = p.safety_requirements.at(j);
        out.append("- ");
        out.append(sr.id.as_str());
        out.append(" — ");
        out.append(ack_state_str(&sr.walkthrough, head).as_str());
        out.append("\n");
        j = j + 1;
    }
    assert(rs.take(m as int) =~= rs);
    out.append("\n");
}

pub open spec fn calibration_rows(es: Seq<crate::model::CalibrationEntry>) -> Seq<char>
    decreases es.len(),
{
    if es.len() == 0 {
        Seq::empty()
    } else {
        let e = es.last();
        calibration_rows(es.drop_last()) + "| `"@ + e.leaf@ + "` | "@ + e.row.w3.name() + " | "@ + e.row.w2.name()
            + " | "@ + e.row.w1.name() + " |\n"@
    }
}

/// The label of the calibration in force.
pub open spec fn calibration_label_of(p: Project) -> Seq<char> {
    match p.calibration_label { Some(l) => l@, None => DEFAULT_CALIBRATION_LABEL@ }
}

/// What follows the label: that there are no overrides, or each of them.
pub open spec fn calibration_rest(p: Project) -> Seq<char> {
    let es = p.calibration.view();
    if es.len() == 0 {
        " — no leaf overrides; every leaf uses the Annex D worked-example default._\n\n"@
    } else {
        " — "@ + dec_seq(es.len()) + " leaf override(s)._\n\n"@
            + "| Leaf (C/F/P) | W3 | W2 | W1 |\n|---|---|---|---|\n"@ + calibration_rows(es) + "\n"@
    }
}

/// The calibration in force: its label and each leaf override.
pub open spec fn calibration_section(p: Project) -> Seq<char> {
    "## SIL calibration\n\n_"@ + calibration_label_of(p) + calibration_rest(p)
}

fn push_calibration(out: &mut String, p: &Project)
    ensures
        final(out)@ == old(out)@ + calibration_section(*p),
{
    let ghost b = out@;
    out.append("## SIL calibration\n\n_");
    match &p.calibration_label {
        Some(l) => out.append(l.as_str()),
        None => out.append(DEFAULT_CALIBRATION_LABEL),
    }
    let ghost b0 = out@;
    assert(b0 =~= b + "## SIL calibration\n\n_"@ + calibration_label_of(*p));
    let n = p.calibration.len();
    let ghost es = p.calibration.view();
    if n == 0 {
        out.append(" — no leaf overrides; every leaf uses the Annex D worked-example default._\n\n");
    } else {
        out.append(" — ");
        push_dec(out, n);
        out.append(" leaf override(s)._\n\n");
        out.append("| Leaf (C/F/P) | W3 | W2 | W1 |\n|---|---|---|---|\n");
        let ghost b1 = out@;
        assert(b1 =~= b0 + " — "@ + dec_seq(es.len()) + " leaf override(s)._\n\n"@
            + "| Leaf (C/F/P) | W3 | W2 | W1 |\n|---|---|---|---|\n"@);
        let mut i: usize = 0;
        while i < n
            invariant
                n == es.len(),
                es == p.calibration.view(),
                i <= n,
                out@ == b1 + calibration_rows(es.take(i as int)),
            decreases n - i,
        {
            assert(es.take(i + 1).drop_last() =~= es.take(i as int));
            assert(es.take(i + 1).last() == es[i as int]);
            let e = p.calibration.at(i);
            out.append("| `");
            out.append(e.leaf.as_str());
            out.append("` | ");
            out.append(e.row.w3.as_str());
            out.append(" | ");
            out.append(e.row.w2.as_str());
            out.append(" | ");
            out.append(e.row.w1.as_str());
            out.append(" |\n");
            i = i + 1;
        }
        assert(es.take(n as int) =~= es);
        out.append("\n");
    }
    assert(out@ =~= b0 + calibration_rest(*p));
    assert(out@ =~= b + calibration_section(*p));
}

// ---------------------------------------------------------------------------
// The whole section
// ---------------------------------------------------------------------------

/// The heading, the counts and the disclaimer.
pub open spec fn safety_intro(p: Project) -> Seq<char> {
    "# Functional safety (IEC 61508)\n\n_"@ + dec_seq(p.hazards.view().len()) + " hazard(s), "@
        + dec_seq(p.safety_functions.view().len()) + " safety function(s), "@
        + dec_seq(p.safety_requirements.view().len()) + " safety requirement(s)._\n\n"@ + HARA_DISCLAIMER@
}

/// The functional-safety section of the markdown export: empty when the
/// project has no hazards, else the overview, the HARA table, a safety case
/// per hazard, the dossiers, the acknowledgements and the calibration.
pub open spec fn safety_markdown_spec(p: Project, head: Seq<char>, probes: Option<Seq<SourceProbe>>) -> Seq<char> {
    if p.hazards.view().len() == 0 {
        Seq::empty()
    } else {
        safety_intro(p) + hara_table(p) + "## Safety cases\n\n"@ + case_sections(p, p.hazards.view())
            + dossiers_section(p, probes) + acks_section(p, head) + calibration_section(p)
    }
}

/// Render the functional-safety section (empty when there are no
/// hazards): `head` is the current commit that walkthrough
/// acknowledgements are judged against, and `probes` hash the anchored
/// sources for the dossiers' provenance.
pub fn safety_markdown(p: &Project, head: &str, probes: Option<&IdMap<SourceProbe>>) -> (s: String)
    requires
        chain_fits(*p),
    ensures
        s@ == safety_markdown_spec(*p, head@, probes_view(probes)),
        p.hazards.view().len() == 0 ==> s@ == Seq::<char>::empty(),
{
    let mut s = String::new();
    if p.hazards.len() == 0 {
        return s;
    }
    s.append("# Functional safety (IEC 61508)\n\n_");
    push_dec(&mut s, p.hazards.len());
    s.append(" hazard(s), ");
    push_dec(&mut s, p.safety_functions.len());
    s.append(" safety function(s), ");
    push_dec(&mut s, p.safety_requirements.len());
    s.append(" safety requirement(s)._\n\n");
    s.append(HARA_DISCLAIMER);
    let ghost b0 = s@;
    assert(b0 =~= safety_intro(*p));
    push_hara_table(&mut s, p);
    push_cases(&mut s, p);
    push_dossiers(&mut s, p, probes);
    push_acks(&mut s, p, head);
    push_calibration(&mut s, p);
    s
}


// ---------------------------------------------------------------------------
// The whole markdown export
// ---------------------------------------------------------------------------

/// Every requirement's section, each followed by a rule, in id order.
pub open spec fn req_blocks(rs: Seq<crate::model::Requirement>, probes: Option<Seq<SourceProbe>>) -> Seq<char>
    decreases rs.len(),
{
    if rs.len() == 0 {
        Seq::empty()
    } else {
        req_blocks(rs.drop_last(), probes) + crate::markdown::fmt_md_spec(rs.last(), probe_for(probes, rs.last().id@))
            + "\n---\n\n"@
    }
}

/// The markdown export of a project: its name, the requirement count and
/// when it was `generated`, every requirement, then the functional-safety
/// section.
pub open spec fn project_markdown_spec(p: Project, generated: Seq<char>, head: Seq<char>, probes: Option<Seq<SourceProbe>>)
    -> Seq<char> {
    "# "@ + p.name@ + "\n\n_"@ + dec_seq(p.requirements.view().len()) + " requirement(s). Generated "@ + generated
        + "._\n\n"@ + req_blocks(p.requirements.view(), probes) + safety_markdown_spec(p, head, probes)
}

/// Render the markdown export of a project.
pub fn project_markdown(p: &Project, generated: &str, head: &str, probes: Option<&IdMap<SourceProbe>>) -> (s: String)
    requires
        chain_fits(*p),
    ensures
        s@ == project_markdown_spec(*p, generated@, head@, probes_view(probes)),
{
    let mut s = String::from_str("# ");
    s.append(p.name.as_str());
    s.append("\n\n_");
    push_dec(&mut s, p.requirements.len());
    s.append(" requirement(s). Generated ");
    s.append(generated);
    s.append("._\n\n");
    let ghost h = s@;
    let ghost rs = p.requirements.view();
    let n = p.requirements.len();
    let mut i: usize = 0;
    assert(rs.take(0) =~= Seq::<crate::model::Requirement>::empty());
    while i < n
        invariant
            n == rs.len(),
            rs == p.requirements.view(),
            i <= n,
            s@ == h + req_blocks(rs.take(i as int), probes_view(probes)),
        decreases n - i,
    {
        let r = p.requirements.at(i);
        let ghost before = s@;
        let md = crate::markdown::fmt_md(r, probe_of(probes, r.id.as_str()));
        s.append(md.as_str());
        s.append("\n---\n\n");
        proof {
            assert(rs.take(i + 1).drop_last() =~= rs.take(i as int));
            assert(rs.take(i + 1).last() == rs[i as int]);
            assert(s@ =~= h + req_blocks(rs.take(i + 1), probes_view(probes)));
        }
        i = i + 1;
    }
    assert(rs.take(n as int) =~= rs);
    let sm = safety_markdown(p, head, probes);
    s.append(sm.as_str());
    s
}

} // verus!
