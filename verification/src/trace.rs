//! The safety-case tree of one hazard (`req trace`): the hazard and its
//! risk, each mitigating safety function with its allocated level, each
//! realizing safety requirement with its evidence, and the verdict.
use vstd::prelude::*;

use crate::errors::{short_commit, short_commit_str};
use crate::idmap::{has_key, lookup};
use crate::model::{Hazard, Project, SafetyFunction, SafetyRequirement, Sil, Status};
use crate::safety::{mitigates, mitigates_spec, mitigators, realizers, realizes, realizes_spec, sil_str, sil_text, verdict_of, Verdict};
use crate::text::{chars_of, dec_seq, dec_string, join, join_seq, views};

verus! {

proof fn realizers_take_push(s: Seq<SafetyRequirement>, sf: Seq<char>, i: int)
    requires
        0 <= i < s.len(),
    ensures
        realizers(s.take(i + 1), sf) == if realizes_spec(s[i], sf) {
            realizers(s.take(i), sf).push(s[i])
        } else {
            realizers(s.take(i), sf)
        },
{
    assert(s.take(i + 1).drop_last() =~= s.take(i));
    assert(s.take(i + 1).last() == s[i]);
}

proof fn mitigators_take_push(s: Seq<SafetyFunction>, haz: Seq<char>, i: int)
    requires
        0 <= i < s.len(),
    ensures
        mitigators(s.take(i + 1), haz) == if mitigates_spec(s[i], haz) {
            mitigators(s.take(i), haz).push(s[i])
        } else {
            mitigators(s.take(i), haz)
        },
{
    assert(s.take(i + 1).drop_last() =~= s.take(i));
    assert(s.take(i + 1).last() == s[i]);
}

/// The latest evidence of a safety requirement, or that it has none.
pub open spec fn evidence_line(sr: SafetyRequirement) -> Seq<char> {
    if sr.tests@.len() > 0 {
        let t = sr.tests@.last();
        "            evidence: "@ + t.kind.name() + " · "@ + (if t.commit@.len() == 0 { "—"@ } else { short_commit(t.commit@) })
            + "\n"@
    } else {
        "            evidence: none                       ✗ unverified\n"@
    }
}

/// A realizing safety requirement in the tree.
pub open spec fn trace_sr(p: Project, sr: SafetyRequirement) -> Seq<char> {
    "          "@ + sr.id@ + "  "@ + sr.title@ + "  ["@ + sr.status.name() + "] "@
        + (if sr.status == Status::Verified { "✓"@ } else { "⚠"@ }) + "\n            inherits SIL "@
        + sil_text(p.inherited_sil_spec(sr)) + "\n"@ + evidence_line(sr)
}

pub open spec fn trace_srs(p: Project, srs: Seq<SafetyRequirement>) -> Seq<char>
    decreases srs.len(),
{
    if srs.len() == 0 { Seq::empty() } else { trace_srs(p, srs.drop_last()) + trace_sr(p, srs.last()) }
}

/// Whether an allocated level meets the required one.
pub open spec fn meets(req: Option<Sil>, alloc: Option<Sil>) -> Seq<char> {
    match (req, alloc) {
        (Some(r), Some(a)) => if a.rank_of() >= r.rank_of() { "✓ meets required"@ } else { "✗ below required"@ },
        _ => Seq::empty(),
    }
}

/// A mitigating safety function in the tree, with its realizing requirements.
pub open spec fn trace_sf(p: Project, sf: SafetyFunction, req: Option<Sil>) -> Seq<char> {
    let srs = realizers(p.safety_requirements.view(), sf.id@);
    sf_top(p, sf, req)
        + (if srs.len() == 0 { "       └─ realized by ── (none)\n"@ } else { "       └─ realized by ───────────────────────\n"@ })
        + trace_srs(p, srs)
}

pub open spec fn trace_sfs(p: Project, sfs: Seq<SafetyFunction>, req: Option<Sil>) -> Seq<char>
    decreases sfs.len(),
{
    if sfs.len() == 0 { Seq::empty() } else { trace_sfs(p, sfs.drop_last(), req) + trace_sf(p, sfs.last(), req) }
}

/// The hazard's line, harm, context and risk.
pub open spec fn trace_head(h: Hazard, v: Verdict) -> Seq<char> {
    h.id@ + "  "@ + h.title@ + "  ["@ + h.status.name() + "]\n  harm:     "@ + h.harm@ + "\n"@
        + (if h.operating_context@.len() > 0 { "  context:  "@ + h.operating_context@ + "\n"@ } else { Seq::empty() })
        + risk_line(h, v)
}

/// The risk parameters of a hazard and the level they require.
pub open spec fn risk_line(h: Hazard, v: Verdict) -> Seq<char> {
    match (h.consequence, h.frequency, h.avoidance, h.probability) {
        (Some(c), Some(f), Some(a), Some(w)) => "  risk:     "@ + c.name() + " · "@ + f.name() + " · "@ + a.name() + " · "@
            + w.name() + "  ──►  required "@ + sil_text(v.required) + "\n"@,
        _ => "  risk:     not yet assessed\n"@,
    }
}

/// The verdict of the case.
pub open spec fn trace_foot(v: Verdict) -> Seq<char> {
    foot_main(v) + blocking_line(v)
}

/// The verdict's levels and counts.
pub open spec fn foot_main(v: Verdict) -> Seq<char> {
    "\n  SAFETY CASE:  "@ + (if v.complete { "✓ COMPLETE"@ } else { "⚠ INCOMPLETE"@ }) + "\n    required "@
        + sil_text(v.required) + " — allocated "@ + sil_text(v.allocated) + "    "@
        + (if v.adequate { "✓ adequate"@ } else { "✗ inadequate"@ }) + "\n    safety requirements: "@
        + dec_seq(v.sr_verified as nat) + " verified of "@ + dec_seq(v.sr_total as nat) + "\n"@
}

/// What blocks the case, if anything.
pub open spec fn blocking_line(v: Verdict) -> Seq<char> {
    if v.blocking@.len() > 0 { "    blocking: "@ + join_seq(views(v.blocking@), "; "@) + "\n"@ } else { Seq::empty() }
}

/// The whole tree of hazard `h` with its verdict `v`.
pub open spec fn trace_spec(p: Project, h: Hazard, v: Verdict) -> Seq<char> {
    let sfs = mitigators(p.safety_functions.view(), h.id@);
    trace_head(h, v) + (if sfs.len() == 0 { "  │\n  └─ mitigated by ── (none)\n"@ } else { Seq::empty() })
        + trace_sfs(p, sfs, v.required) + trace_foot(v)
}

fn push_sr(out: &mut String, p: &Project, sr: &SafetyRequirement)
    ensures
        final(out)@ == old(out)@ + trace_sr(*p, *sr),
{
    let ghost b = out@;
    out.append("          ");
    out.append(sr.id.as_str());
    out.append("  ");
    out.append(sr.title.as_str());
    out.append("  [");
    out.append(sr.status.as_str());
    out.append("] ");
    out.append(if matches!(sr.status, Status::Verified) { "✓" } else { "⚠" });
    out.append("\n            inherits SIL ");
    out.append(sil_str(p.inherited_sil(sr)).as_str());
    out.append("\n");
    let ghost b1 = out@;
    let n = sr.tests.len();
    if n > 0 {
        let t = &sr.tests[n - 1];
        out.append("            evidence: ");
        out.append(t.kind.as_str());
        out.append(" · ");
        if chars_of(t.commit.as_str()).len() == 0 {
            out.append("—");
        } else {
            out.append(short_commit_str(t.commit.as_str()).as_str());
        }
        out.append("\n");
    } else {
        out.append("            evidence: none                       ✗ unverified\n");
    }
    assert(out@ =~= b1 + evidence_line(*sr));
    assert(out@ =~= b + trace_sr(*p, *sr));
}

fn push_srs(out: &mut String, p: &Project, sf_id: &str)
    ensures
        final(out)@ == old(out)@ + trace_srs(*p, realizers(p.safety_requirements.view(), sf_id@)),
{
    let n = p.safety_requirements.len();
    let ghost s = p.safety_requirements.view();
    let ghost b = out@;
    let mut i: usize = 0;
    while i < n
        invariant
            n == s.len(),
            s == p.safety_requirements.view(),
            i <= n,
            out@ == b + trace_srs(*p, realizers(s.take(i as int), sf_id@)),
        decreases n - i,
    {
        let sr = p.safety_requirements.at(i);
        proof {
            realizers_take_push(s, sf_id@, i as int);
        }
        if realizes(sr, sf_id) {
            let ghost rs = realizers(s.take(i as int), sf_id@);
            assert(rs.push(*sr).drop_last() =~= rs);
            push_sr(out, p, sr);
        }
        i = i + 1;
    }
    assert(s.take(n as int) =~= s);
}

/// The lines of a safety function before its requirements.
pub open spec fn sf_top(p: Project, sf: SafetyFunction, req: Option<Sil>) -> Seq<char> {
    let alloc = p.allocated_sil_spec(sf);
    "  │\n  └─ mitigated by ─────────────────────────────────\n     "@ + sf.id@ + "  "@ + sf.title@ + "  ["@
        + sf.status.name() + "]\n"@
        + (if sf.safe_state@.len() > 0 { "       safe state:    "@ + sf.safe_state@ + "\n"@ } else { Seq::empty() })
        + "       allocated SIL: "@ + sil_text(alloc) + "   "@ + meets(req, alloc) + "\n"@
}

#[verifier::rlimit(60)]
fn push_sf_top(out: &mut String, p: &Project, sf: &SafetyFunction, req: Option<Sil>)
    ensures
        final(out)@ == old(out)@ + sf_top(*p, *sf, req),
{
    let ghost b = out@;
    let alloc = p.allocated_sil(sf);
    out.append("  │\n  └─ mitigated by ─────────────────────────────────\n     ");
    out.append(sf.id.as_str());
    out.append("  ");
    out.append(sf.title.as_str());
    out.append("  [");
    out.append(sf.status.as_str());
    out.append("]\n");
    let ghost b1 = out@;
    if chars_of(sf.safe_state.as_str()).len() > 0 {
        out.append("       safe state:    ");
        out.append(sf.safe_state.as_str());
        out.append("\n");
    }
    let ghost b2 = out@;
    assert(b2 =~= b1 + (if sf.safe_state@.len() > 0 { "       safe state:    "@ + sf.safe_state@ + "\n"@ } else { Seq::empty() }));
    out.append("       allocated SIL: ");
    out.append(sil_str(alloc).as_str());
    out.append("   ");
    let ghost b3 = out@;
    match (req, alloc) {
        (Some(r), Some(a)) => out.append(if a.rank() >= r.rank() { "✓ meets required" } else { "✗ below required" }),
        _ => {},
    }
    assert(out@ =~= b3 + meets(req, alloc));
    out.append("\n");
    assert(out@ =~= b + sf_top(*p, *sf, req));
}

fn push_sf(out: &mut String, p: &Project, sf: &SafetyFunction, req: Option<Sil>)
    ensures
        final(out)@ == old(out)@ + trace_sf(*p, *sf, req),
{
    let ghost b = out@;
    push_sf_top(out, p, sf, req);
    let any = has_realizer(p, sf.id.as_str());
    out.append(if any { "       └─ realized by ───────────────────────\n" } else { "       └─ realized by ── (none)\n" });
    push_srs(out, p, sf.id.as_str());
    assert(out@ =~= b + trace_sf(*p, *sf, req));
}

fn has_realizer(p: &Project, sf_id: &str) -> (b: bool)
    ensures
        b == (realizers(p.safety_requirements.view(), sf_id@).len() > 0),
{
    let n = p.safety_requirements.len();
    let ghost s = p.safety_requirements.view();
    let mut any = false;
    let mut i: usize = 0;
    while i < n
        invariant
            n == s.len(),
            s == p.safety_requirements.view(),
            i <= n,
            any == (realizers(s.take(i as int), sf_id@).len() > 0),
        decreases n - i,
    {
        let sr = p.safety_requirements.at(i);
        proof {
            realizers_take_push(s, sf_id@, i as int);
        }
        if realizes(sr, sf_id) {
            any = true;
        }
        i = i + 1;
    }
    assert(s.take(n as int) =~= s);
    any
}

fn push_sfs(out: &mut String, p: &Project, haz_id: &str, req: Option<Sil>) -> (any: bool)
    ensures
        final(out)@ == old(out)@ + trace_sfs(*p, mitigators(p.safety_functions.view(), haz_id@), req),
        any == (mitigators(p.safety_functions.view(), haz_id@).len() > 0),
{
    let n = p.safety_functions.len();
    let ghost s = p.safety_functions.view();
    let ghost b = out@;
    let mut any = false;
    let mut i: usize = 0;
    while i < n
        invariant
            n == s.len(),
            s == p.safety_functions.view(),
            i <= n,
            out@ == b + trace_sfs(*p, mitigators(s.take(i as int), haz_id@), req),
            any == (mitigators(s.take(i as int), haz_id@).len() > 0),
        decreases n - i,
    {
        let sf = p.safety_functions.at(i);
        proof {
            mitigators_take_push(s, haz_id@, i as int);
        }
        if mitigates(sf, haz_id) {
            let ghost ms = mitigators(s.take(i as int), haz_id@);
            assert(ms.push(*sf).drop_last() =~= ms);
            push_sf(out, p, sf, req);
            any = true;
        }
        i = i + 1;
    }
    assert(s.take(n as int) =~= s);
    any
}

#[verifier::rlimit(60)]
fn push_head(out: &mut String, h: &Hazard, v: &Verdict)
    ensures
        final(out)@ == old(out)@ + trace_head(*h, *v),
{
    let ghost b = out@;
    out.append(h.id.as_str());
    out.append("  ");
    out.append(h.title.as_str());
    out.append("  [");
    out.append(h.status.as_str());
    out.append("]\n  harm:     ");
    out.append(h.harm.as_str());
    out.append("\n");
    let ghost b1 = out@;
    if chars_of(h.operating_context.as_str()).len() > 0 {
        out.append("  context:  ");
        out.append(h.operating_context.as_str());
        out.append("\n");
    }
    let ghost b2 = out@;
    assert(b2 =~= b1 + (if h.operating_context@.len() > 0 { "  context:  "@ + h.operating_context@ + "\n"@ } else { Seq::empty() }));
    match (h.consequence, h.frequency, h.avoidance, h.probability) {
        (Some(c), Some(f), Some(a), Some(w)) => {
            out.append("  risk:     ");
            out.append(c.as_str());
            out.append(" · ");
            out.append(f.as_str());
            out.append(" · ");
            out.append(a.as_str());
            out.append(" · ");
            out.append(w.as_str());
            out.append("  ──►  required ");
            out.append(sil_str(v.required).as_str());
            out.append("\n");
        },
        _ => out.append("  risk:     not yet assessed\n"),
    }
    assert(out@ =~= b2 + risk_line(*h, *v));
    assert(out@ =~= b + trace_head(*h, *v));
}

#[verifier::rlimit(60)]
fn push_foot(out: &mut String, v: &Verdict)
    ensures
        final(out)@ == old(out)@ + trace_foot(*v),
{
    let ghost b = out@;
    out.append("\n  SAFETY CASE:  ");
    out.append(if v.complete { "✓ COMPLETE" } else { "⚠ INCOMPLETE" });
    out.append("\n    required ");
    out.append(sil_str(v.required).as_str());
    out.append(" — allocated ");
    out.append(sil_str(v.allocated).as_str());
    out.append("    ");
    out.append(if v.adequate { "✓ adequate" } else { "✗ inadequate" });
    out.append("\n    safety requirements: ");
    out.append(dec_string(v.sr_verified as u64).as_str());
    out.append(" verified of ");
    out.append(dec_string(v.sr_total as u64).as_str());
    out.append("\n");
    let ghost b1 = out@;
    assert(b1 =~= b + foot_main(*v));
    if v.blocking.len() > 0 {
        out.append("    blocking: ");
        out.append(join(&v.blocking, "; ").as_str());
        out.append("\n");
    }
    assert(out@ =~= b1 + blocking_line(*v));
    assert(out@ =~= b + trace_foot(*v));
}

/// Render the safety-case tree of hazard `haz_id` from its verdict `v`.
pub fn trace_hazard(p: &Project, haz_id: &str, v: &Verdict) -> (s: String)
    requires
        has_key(p.hazards.view(), haz_id@),
        verdict_of(*p, haz_id@, *v),
    ensures
        s@ == trace_spec(*p, lookup(p.hazards.view(), haz_id@).unwrap(), *v),
{
    let h = p.hazards.get(haz_id).unwrap();
    let mut out = String::new();
    push_head(&mut out, h, v);
    let mut mid = String::new();
    let any = push_sfs(&mut mid, p, haz_id, v.required);
    if !any {
        out.append("  │\n  └─ mitigated by ── (none)\n");
    }
    out.append(mid.as_str());
    push_foot(&mut out, v);
    assert(out@ =~= trace_spec(*p, *h, *v));
    out
}

} // verus!
