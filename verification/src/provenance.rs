//! Verification provenance: the true standing behind a Verified item. A
//! waiver (backfilled or `--no-dossier`) passes like a genuine dossier in
//! every headline count; this classifier tells them apart, and flags a
//! genuine dossier whose anchored source has since drifted.
use vstd::prelude::*;

use crate::idmap::{lookup, IdMap, Keyed};
use crate::model::{Project, Requirement, SafetyRequirement, Sil, Status, TestOutcome, Validation};
use crate::text::{is_prefix, str_eq, str_starts_with};

verus! {

/// How a Verified item's verification stands up to scrutiny, from weakest
/// to strongest.
#[derive(Copy, Clone, Debug, PartialEq, Eq, Structural)]
pub enum Provenance {
    /// Verified with no passing validation dossier at all.
    Ungated,
    /// An audited `req validation backfill` waiver.
    ExemptBackfilled,
    /// An audited `req verify --no-dossier` waiver.
    ExemptNoDossier,
    /// A genuine dossier whose anchored source has changed since.
    Stale,
    /// A safety requirement with a genuine, fresh dossier but no human co-sign.
    Unconfirmed,
    /// A genuine concluded Pass dossier, anchor still fresh.
    Genuine,
}

impl Provenance {
    pub open spec fn name(self) -> Seq<char> {
        match self {
            Provenance::Ungated => "ungated"@,
            Provenance::ExemptBackfilled => "exempt:backfilled"@,
            Provenance::ExemptNoDossier => "exempt:no-dossier"@,
            Provenance::Stale => "stale"@,
            Provenance::Unconfirmed => "unconfirmed"@,
            Provenance::Genuine => "genuine"@,
        }
    }

    pub fn as_str(self) -> (r: &'static str)
        ensures
            r@ == self.name(),
    {
        match self {
            Provenance::Ungated => "ungated",
            Provenance::ExemptBackfilled => "exempt:backfilled",
            Provenance::ExemptNoDossier => "exempt:no-dossier",
            Provenance::Stale => "stale",
            Provenance::Unconfirmed => "unconfirmed",
            Provenance::Genuine => "genuine",
        }
    }

    /// True only for a genuine, non-stale passing dossier.
    pub fn is_genuine(self) -> (b: bool)
        ensures
            b == (self == Provenance::Genuine),
    {
        matches!(self, Provenance::Genuine)
    }
}

/// The current state of the source an item's dossier is anchored on: the
/// files the anchor covers and their hash now.
pub struct SourceProbe {
    pub id: String,
    pub files: Vec<String>,
    pub current_hash: String,
}

impl Keyed for SourceProbe {
    open spec fn key(&self) -> Seq<char> {
        self.id@
    }

    fn key_str(&self) -> (r: &str) {
        self.id.as_str()
    }
}

/// The dossier concluded Pass with analysis, testing and a statement.
pub open spec fn genuinely_concluded(v: Validation) -> bool {
    v.verdict == Some(TestOutcome::Pass) && v.analysis.is_some() && v.testing.is_some() && v.statement.is_some()
}

/// The provenance of one dossier. An exempt dossier is a waiver, told apart
/// by the plan prefix stamped when it was made; a non-exempt one is genuine
/// only when genuinely concluded, and then stale when the probe shows the
/// anchored files (there being any) hash differently now.
pub open spec fn classify_spec(v: Option<Validation>, probe: Option<SourceProbe>) -> Provenance {
    match v {
        None => Provenance::Ungated,
        Some(v) => if v.exempt {
            if is_prefix("[--no-dossier"@, v.plan@) {
                Provenance::ExemptNoDossier
            } else {
                Provenance::ExemptBackfilled
            }
        } else if !genuinely_concluded(v) {
            Provenance::Ungated
        } else {
            match (probe, v.content_hash) {
                (Some(p), Some(h)) => if p.current_hash@ != h@ && p.files@.len() > 0 {
                    Provenance::Stale
                } else {
                    Provenance::Genuine
                },
                _ => Provenance::Genuine,
            }
        },
    }
}

/// Classify a single dossier's provenance; with no probe, staleness is not
/// judged.
pub fn classify(v: Option<&Validation>, probe: Option<&SourceProbe>) -> (r: Provenance)
    ensures
        r == classify_spec(
            match v { Some(x) => Some(*x), None => None },
            match probe { Some(p) => Some(*p), None => None },
        ),
{
    let v = match v {
        None => return Provenance::Ungated,
        Some(v) => v,
    };
    if v.exempt {
        return if str_starts_with(v.plan.as_str(), "[--no-dossier") {
            Provenance::ExemptNoDossier
        } else {
            Provenance::ExemptBackfilled
        };
    }
    let genuine = matches!(v.verdict, Some(TestOutcome::Pass)) && v.analysis.is_some()
        && v.testing.is_some() && v.statement.is_some();
    if !genuine {
        return Provenance::Ungated;
    }
    if let (Some(p), Some(hash)) = (probe, &v.content_hash) {
        if !str_eq(p.current_hash.as_str(), hash.as_str()) && p.files.len() > 0 {
            return Provenance::Stale;
        }
    }
    Provenance::Genuine
}

/// One row of the provenance report.
pub struct ProvenanceRow {
    pub id: String,
    pub family: &'static str,
    pub provenance: Provenance,
    pub sil: Option<String>,
}

/// A row as plain values: id, family, provenance, SIL name.
pub open spec fn row_view(r: ProvenanceRow) -> (Seq<char>, Seq<char>, Provenance, Option<Seq<char>>) {
    (r.id@, r.family@, r.provenance, match r.sil { Some(s) => Some(s@), None => None })
}

pub open spec fn probe_for(probes: Option<Seq<SourceProbe>>, id: Seq<char>) -> Option<SourceProbe> {
    match probes {
        Some(s) => lookup(s, id),
        None => None,
    }
}

/// Report rows for the Verified requirements among `reqs`, in order.
pub open spec fn req_rows(reqs: Seq<Requirement>, probes: Option<Seq<SourceProbe>>) -> Seq<(Seq<char>, Seq<char>, Provenance, Option<Seq<char>>)>
    decreases reqs.len(),
{
    if reqs.len() == 0 {
        Seq::empty()
    } else {
        let prev = req_rows(reqs.drop_last(), probes);
        let r = reqs.last();
        if r.status == Status::Verified {
            prev.push((r.id@, "requirement"@, classify_spec(r.validation, probe_for(probes, r.id@)), None))
        } else {
            prev
        }
    }
}

/// A safety requirement's provenance: as classified, except that a genuine
/// dossier without the human co-sign is `Unconfirmed`.
pub open spec fn sr_provenance(sr: SafetyRequirement, probes: Option<Seq<SourceProbe>>) -> Provenance {
    let p = classify_spec(sr.validation, probe_for(probes, sr.id@));
    if p == Provenance::Genuine && match sr.validation {
        Some(v) => v.human_confirmation.is_none(),
        None => false,
    } {
        Provenance::Unconfirmed
    } else {
        p
    }
}

/// Report rows for the Verified safety requirements among `srs`, in order.
pub open spec fn sr_rows(p: Project, srs: Seq<SafetyRequirement>, probes: Option<Seq<SourceProbe>>) -> Seq<(Seq<char>, Seq<char>, Provenance, Option<Seq<char>>)>
    decreases srs.len(),
{
    if srs.len() == 0 {
        Seq::empty()
    } else {
        let prev = sr_rows(p, srs.drop_last(), probes);
        let sr = srs.last();
        if sr.status == Status::Verified {
            prev.push((sr.id@, "safety-requirement"@, sr_provenance(sr, probes), match p.inherited_sil_spec(sr) {
                Some(s) => Some(s.name()),
                None => None,
            }))
        } else {
            prev
        }
    }
}

fn probe_lookup<'a>(probes: Option<&'a IdMap<SourceProbe>>, id: &str) -> (r: Option<&'a SourceProbe>)
    ensures
        match r { Some(x) => Some(*x), None => None } == probe_for(
            match probes { Some(m) => Some(m.view()), None => None },
            id@,
        ),
{
    match probes {
        Some(m) => m.get(id),
        None => None,
    }
}

/// Classify every Verified requirement, then every Verified safety
/// requirement, each family in id order. `probes` carries the current
/// state of anchored sources; without it staleness is not judged.
pub fn provenance_report(project: &Project, probes: Option<&IdMap<SourceProbe>>) -> (rows: Vec<ProvenanceRow>)
    ensures
        rows@.map_values(|r: ProvenanceRow| row_view(r)) == req_rows(
            project.requirements.view(),
            match probes { Some(m) => Some(m.view()), None => None },
        ) + sr_rows(
            *project,
            project.safety_requirements.view(),
            match probes { Some(m) => Some(m.view()), None => None },
        ),
{
    let ghost pv = match probes { Some(m) => Some(m.view()), None => None };
    let mut rows: Vec<ProvenanceRow> = Vec::new();
    let reqs = &project.requirements;
    let n = reqs.len();
    let mut i: usize = 0;
    while i < n
        invariant
            n == reqs.view().len(),
            i <= n,
            pv == match probes { Some(m) => Some(m.view()), None => None },
            rows@.map_values(|r: ProvenanceRow| row_view(r)) == req_rows(reqs.view().subrange(0, i as int), pv),
        decreases n - i,
    {
        let r = reqs.at(i);
        let ghost pre = reqs.view().subrange(0, i as int);
        let ghost nxt = reqs.view().subrange(0, i + 1);
        assert(nxt.drop_last() =~= pre);
        assert(nxt.last() == *r);
        if matches!(r.status, Status::Verified) {
            let prov = classify(r.validation.as_ref(), probe_lookup(probes, r.id.as_str()));
            let row = ProvenanceRow { id: r.id.clone(), family: "requirement", provenance: prov, sil: None };
            let ghost before = rows@;
            rows.push(row);
            assert(rows@.map_values(|r: ProvenanceRow| row_view(r)) =~= before.map_values(|r: ProvenanceRow| row_view(r)).push(row_view(row)));
        }
        i = i + 1;
    }
    assert(reqs.view().subrange(0, n as int) =~= reqs.view());
    let ghost base = rows@.map_values(|r: ProvenanceRow| row_view(r));
    let srs = &project.safety_requirements;
    let m = srs.len();
    let mut j: usize = 0;
    while j < m
        invariant
            m == srs.view().len(),
            j <= m,
            pv == match probes { Some(m) => Some(m.view()), None => None },
            base == req_rows(project.requirements.view(), pv),
            rows@.map_values(|r: ProvenanceRow| row_view(r)) == base + sr_rows(*project, srs.view().subrange(0, j as int), pv),
        decreases m - j,
    {
        let sr = srs.at(j);
        let ghost pre = srs.view().subrange(0, j as int);
        let ghost nxt = srs.view().subrange(0, j + 1);
        assert(nxt.drop_last() =~= pre);
        assert(nxt.last() == *sr);
        if matches!(sr.status, Status::Verified) {
            let mut prov = classify(sr.validation.as_ref(), probe_lookup(probes, sr.id.as_str()));
            let unsigned = match &sr.validation {
                Some(v) => v.human_confirmation.is_none(),
                None => false,
            };
            if matches!(prov, Provenance::Genuine) && unsigned {
                prov = Provenance::Unconfirmed;
            }
            let sil = match project.inherited_sil(sr) {
                Some(s) => Some(crate::text::string_of(&crate::text::chars_of(s.as_str()))),
                None => None,
            };
            let row = ProvenanceRow { id: sr.id.clone(), family: "safety-requirement", provenance: prov, sil };
            let ghost before = rows@;
            rows.push(row);
            assert(rows@.map_values(|r: ProvenanceRow| row_view(r)) =~= before.map_values(|r: ProvenanceRow| row_view(r)).push(row_view(row)));
        }
        j = j + 1;
    }
    assert(srs.view().subrange(0, m as int) =~= srs.view());
    rows
}

} // verus!
