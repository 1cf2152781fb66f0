//! Functional-safety governance: the liability acknowledgement that gates
//! the safety features, the per-project risk-graph calibration, the guided
//! walkthrough's acknowledgement rules, and the read-only impact preview.
use vstd::prelude::*;

use crate::cli::{SafetyCalibrateArgs, SafetyCmd};
use crate::errors::ReqError;
use crate::idmap::{has_key, lookup, replaced, IdMap};
use crate::safety_ops::srs_changed;
use crate::model::{
    entry_records, history, LinkKind, SafetyFunction, SafetyRequirement, Status, TestOutcome, WalkthroughAck, calibration_leaf, leaf_name, ActionContext, ActorKind, Avoidance, CalibrationEntry,
    CalibrationRow, Consequence, Frequency, Probability, Project, Sil, SAFETY_DISCLAIMER_VERSION,
};
use crate::safety::{mitigates, mitigators};
use crate::validation::{resolve, resolve_spec};
use crate::text::{
    clone_opt, prefix_upto, contains_str, is_prefix, starts_with, flush, pad_right, push_spaces, spaces, words, words_of, chars_of, split_char, split_on, split_once_char, split_once_spec, str_eq, string_of, trim,
    trim_seq, to_upper, upper_seq, views,
};

verus! {

/// The agreement a user must accept before any functional-safety feature is
/// enabled. It disclaims all developer liability and states that req is a
/// research tool not intended for real safety applications. A change of
/// substance comes with a new `SAFETY_DISCLAIMER_VERSION`, so that an
/// acceptance of older terms no longer satisfies the check.
pub const DISCLAIMER: &'static str = "\
FUNCTIONAL-SAFETY DISCLAIMER — read before enabling these features.

  • req is NOT a qualified safety tool. Under IEC 61508-3 §7.4.4 (and
    ISO 26262-8), a tool whose output you rely on without independent
    verification needs a tool-confidence/qualification argument. req
    provides none. Qualifying it, or independently verifying every SIL
    it computes, is YOUR responsibility.
  • The SIL req shows is a CANDIDATE derived from the qualitative risk
    parameters you enter, using the IEC 61508-5 Annex D worked-example
    calibration (or your own, if you set one). It is not objective and
    does not remove the need for competent review.
  • req tracks the REQUIRED integrity target and traceability — NOT
    achieved integrity (no PFD/PFH, diagnostic coverage, SFF, SIL
    decomposition). A \"complete\" trace means linked-and-verified, not
    safe.
  • req is a RESEARCH / EXPERIMENTAL tool. It is NOT intended for use
    in real safety applications and must not be relied upon for any
    safety-related decision.
  • This software is provided \"AS IS\", without warranty of any kind.
    The authors accept NO liability whatsoever. Nothing it produces is
    safety assurance or fitness for any safety-related purpose.

By accepting you confirm you understand the above — including that req
is a research tool, not for real safety use, and carries no developer
liability whatsoever — and take responsibility for the safety
determination.";

/// The name of the acceptance file that sits beside the project file.
pub const ACCEPTANCE_FILE: &'static str = "req-safety-acceptance.json";

/// The committed record of a human accepting the disclaimer.
#[derive(Clone, Debug)]
pub struct DisclaimerAcceptance {
    pub notice: String,
    pub accepted_by: String,
    /// RFC 3339 timestamp of the acceptance.
    pub at: String,
    pub tool_version: String,
    pub disclaimer_version: String,
}

// ---------------------------------------------------------------------------
// The acceptance gate
// ---------------------------------------------------------------------------

/// The safety features are active: an acceptance is on file for the current
/// disclaimer version.
pub open spec fn enabled_spec(a: Option<DisclaimerAcceptance>) -> bool {
    match a {
        Some(x) => x.disclaimer_version@ == SAFETY_DISCLAIMER_VERSION@,
        None => false,
    }
}

/// Whether the safety features are activated, given the acceptance record
/// read from beside the project (if one was present and parseable).
pub fn is_enabled(acceptance: &Option<DisclaimerAcceptance>) -> (b: bool)
    ensures
        b == enabled_spec(*acceptance),
{
    match acceptance {
        Some(a) => str_eq(a.disclaimer_version.as_str(), SAFETY_DISCLAIMER_VERSION),
        None => false,
    }
}

/// The refusal: the features are not enabled; `older` when an
/// acceptance of an older disclaimer is on file; `file` names the file a
/// human must create.
pub open spec fn refused_as(e: ReqError, acceptance: Option<DisclaimerAcceptance>, file: Seq<char>) -> bool {
    e matches ReqError::SafetyDisabled { older, file: f } && older == acceptance.is_some() && f@ == file
}

/// The check every safety mutation passes, for a caller that holds the
/// acceptance file's path: it passes exactly when the features are enabled.
pub fn ensure_enabled_path(acceptance: &Option<DisclaimerAcceptance>, acceptance_file: &str) -> (r: Result<(), ReqError>)
    ensures
        r is Ok <==> enabled_spec(*acceptance),
        match r {
            Ok(_) => true,
            Err(e) => refused_as(e, *acceptance, acceptance_file@),
        },
{
    if is_enabled(acceptance) {
        return Ok(());
    }
    Err(ReqError::SafetyDisabled { older: acceptance.is_some(), file: string_of(&chars_of(acceptance_file)) })
}

/// The check every safety mutation passes (reading is always allowed, so an
/// existing safety case stays inspectable).
pub fn ensure_enabled(acceptance: &Option<DisclaimerAcceptance>, acceptance_file: &str) -> (r: Result<(), ReqError>)
    ensures
        r is Ok <==> enabled_spec(*acceptance),
        match r {
            Ok(_) => true,
            Err(e) => refused_as(e, *acceptance, acceptance_file@),
        },
{
    ensure_enabled_path(acceptance, acceptance_file)
}

// ---------------------------------------------------------------------------
// Risk-graph parameters and calibration rows, as typed on the command line
// ---------------------------------------------------------------------------

/// What was wrong with a calibration or risk-parameter argument.
#[derive(Copy, Clone, Debug, PartialEq, Eq, Structural)]
pub enum CalFault {
    /// `LEAF=...` without the `=`.
    MissingEquals,
    /// A leaf that is not three `/`-separated parts.
    BadLeafShape,
    BadConsequence,
    BadFrequency,
    BadAvoidance,
    BadProbability,
    /// A row entry that is not `Wn:SIL`.
    ExpectedPair,
    /// A row entry whose SIL does not parse.
    NotASil,
    /// A row entry for something other than W1, W2, W3.
    UnknownProbability,
    /// A row without all three of W1, W2, W3.
    IncompleteRow,
}

/// `e` reports fault `f`, quoting `token`.
pub open spec fn cal_error(e: ReqError, f: CalFault, token: Seq<char>) -> bool {
    e matches ReqError::Calibration { fault, token: t } && fault == f && t@ == token
}

/// A parameter as typed, trimmed and uppercased.
pub open spec fn canon(s: Seq<char>) -> Seq<char> {
    upper_seq(trim_seq(s))
}

fn canon_of(s: &str) -> (r: String)
    ensures
        r@ == canon(s@),
{
    let cs = chars_of(s);
    let t = trim(&cs);
    let ts = string_of(&t);
    to_upper(ts.as_str())
}

fn cal_err(fault: CalFault, token: String) -> (e: ReqError)
    ensures
        cal_error(e, fault, token@),
{
    ReqError::Calibration { fault, token }
}

pub open spec fn consequence_of(s: Seq<char>) -> Option<Consequence> {
    let u = canon(s);
    if u == "C_A"@ {
        Some(Consequence::Ca)
    } else if u == "C_B"@ {
        Some(Consequence::Cb)
    } else if u == "C_C"@ {
        Some(Consequence::Cc)
    } else if u == "C_D"@ {
        Some(Consequence::Cd)
    } else {
        None
    }
}

pub open spec fn frequency_of(s: Seq<char>) -> Option<Frequency> {
    let u = canon(s);
    if u == "F_A"@ {
        Some(Frequency::Fa)
    } else if u == "F_B"@ {
        Some(Frequency::Fb)
    } else {
        None
    }
}

pub open spec fn avoidance_of(s: Seq<char>) -> Option<Avoidance> {
    let u = canon(s);
    if u == "P_A"@ {
        Some(Avoidance::Pa)
    } else if u == "P_B"@ {
        Some(Avoidance::Pb)
    } else {
        None
    }
}

pub open spec fn probability_of(s: Seq<char>) -> Option<Probability> {
    let u = canon(s);
    if u == "W1"@ {
        Some(Probability::W1)
    } else if u == "W2"@ {
        Some(Probability::W2)
    } else if u == "W3"@ {
        Some(Probability::W3)
    } else {
        None
    }
}

/// Read a consequence `C_A`..`C_D` (case-insensitive, trimmed).
pub fn parse_c(s: &str) -> (r: Result<Consequence, ReqError>)
    ensures
        match consequence_of(s@) {
            Some(c) => r is Ok && r.unwrap() == c,
            None => match r {
                Ok(_) => false,
                Err(e) => cal_error(e, CalFault::BadConsequence, canon(s@)),
            },
        },
{
    let u = canon_of(s);
    let us = u.as_str();
    if str_eq(us, "C_A") {
        Ok(Consequence::Ca)
    } else if str_eq(us, "C_B") {
        Ok(Consequence::Cb)
    } else if str_eq(us, "C_C") {
        Ok(Consequence::Cc)
    } else if str_eq(us, "C_D") {
        Ok(Consequence::Cd)
    } else {
        Err(cal_err(CalFault::BadConsequence, u))
    }
}

/// Read a frequency `F_A`/`F_B` (case-insensitive, trimmed).
pub fn parse_f(s: &str) -> (r: Result<Frequency, ReqError>)
    ensures
        match frequency_of(s@) {
            Some(f) => r is Ok && r.unwrap() == f,
            None => match r {
                Ok(_) => false,
                Err(e) => cal_error(e, CalFault::BadFrequency, canon(s@)),
            },
        },
{
    let u = canon_of(s);
    let us = u.as_str();
    if str_eq(us, "F_A") {
        Ok(Frequency::Fa)
    } else if str_eq(us, "F_B") {
        Ok(Frequency::Fb)
    } else {
        Err(cal_err(CalFault::BadFrequency, u))
    }
}

/// Read an avoidance `P_A`/`P_B` (case-insensitive, trimmed).
pub fn parse_p(s: &str) -> (r: Result<Avoidance, ReqError>)
    ensures
        match avoidance_of(s@) {
            Some(p) => r is Ok && r.unwrap() == p,
            None => match r {
                Ok(_) => false,
                Err(e) => cal_error(e, CalFault::BadAvoidance, canon(s@)),
            },
        },
{
    let u = canon_of(s);
    let us = u.as_str();
    if str_eq(us, "P_A") {
        Ok(Avoidance::Pa)
    } else if str_eq(us, "P_B") {
        Ok(Avoidance::Pb)
    } else {
        Err(cal_err(CalFault::BadAvoidance, u))
    }
}

/// Read a probability `W1`..`W3` (case-insensitive, trimmed).
pub fn parse_w(s: &str) -> (r: Result<Probability, ReqError>)
    ensures
        match probability_of(s@) {
            Some(w) => r is Ok && r.unwrap() == w,
            None => match r {
                Ok(_) => false,
                Err(e) => cal_error(e, CalFault::BadProbability, canon(s@)),
            },
        },
{
    let u = canon_of(s);
    let us = u.as_str();
    if str_eq(us, "W1") {
        Ok(Probability::W1)
    } else if str_eq(us, "W2") {
        Ok(Probability::W2)
    } else if str_eq(us, "W3") {
        Ok(Probability::W3)
    } else {
        Err(cal_err(CalFault::BadProbability, u))
    }
}

/// A spec-level outcome: a value, or a fault with the text it quotes.
pub type Parsed<T> = Result<T, (CalFault, Seq<char>)>;

/// The leaf `C_x/F_x/P_x` a typed leaf names.
pub open spec fn leaf_spec(raw: Seq<char>) -> Parsed<(Consequence, Frequency, Avoidance)> {
    let parts = split_on(raw, '/');
    if parts.len() != 3 {
        Err((CalFault::BadLeafShape, raw))
    } else {
        match consequence_of(parts[0]) {
            None => Err((CalFault::BadConsequence, canon(parts[0]))),
            Some(c) => match frequency_of(parts[1]) {
                None => Err((CalFault::BadFrequency, canon(parts[1]))),
                Some(f) => match avoidance_of(parts[2]) {
                    None => Err((CalFault::BadAvoidance, canon(parts[2]))),
                    Some(p) => Ok((c, f, p)),
                },
            },
        }
    }
}

/// Confirm a leaf names a real (C, F, P) combination and give its
/// canonical form.
pub fn validate_leaf(raw: &str) -> (r: Result<String, ReqError>)
    ensures
        match leaf_spec(raw@) {
            Ok((c, f, p)) => r is Ok && r.unwrap()@ == leaf_name(c, f, p),
            Err((fault, token)) => match r {
                Ok(_) => false,
                Err(e) => cal_error(e, fault, token),
            },
        },
{
    let parts = split_char(raw, '/');
    if parts.len() != 3 {
        return Err(cal_err(CalFault::BadLeafShape, string_of(&chars_of(raw))));
    }
    assert(views(parts@)[0] == parts@[0]@);
    assert(views(parts@)[1] == parts@[1]@);
    assert(views(parts@)[2] == parts@[2]@);
    let c = match parse_c(parts[0].as_str()) {
        Ok(c) => c,
        Err(e) => return Err(e),
    };
    let f = match parse_f(parts[1].as_str()) {
        Ok(f) => f,
        Err(e) => return Err(e),
    };
    let p = match parse_p(parts[2].as_str()) {
        Ok(p) => p,
        Err(e) => return Err(e),
    };
    Ok(calibration_leaf(c, f, p))
}

/// The probability and SIL one row entry `Wn:SIL` assigns.
pub open spec fn entry_spec(tok: Seq<char>) -> Parsed<(Probability, Sil)> {
    match split_once_spec(tok, ':') {
        None => Err((CalFault::ExpectedPair, trim_seq(tok))),
        Some((w, sv)) => match Sil::parse_spec(sv) {
            None => Err((CalFault::NotASil, trim_seq(sv))),
            Some(s) => match probability_of(w) {
                Some(pw) => Ok((pw, s)),
                None => Err((CalFault::UnknownProbability, canon(w))),
            },
        },
    }
}

/// The (W1, W2, W3) entries after reading `toks` in order, a later entry
/// for the same probability replacing an earlier one.
pub open spec fn row_fold(toks: Seq<Seq<char>>, acc: (Option<Sil>, Option<Sil>, Option<Sil>)) -> Parsed<(Option<Sil>, Option<Sil>, Option<Sil>)>
    decreases toks.len(),
{
    if toks.len() == 0 {
        Ok(acc)
    } else {
        match entry_spec(toks[0]) {
            Err(e) => Err(e),
            Ok((w, s)) => row_fold(
                toks.drop_first(),
                match w {
                    Probability::W1 => (Some(s), acc.1, acc.2),
                    Probability::W2 => (acc.0, Some(s), acc.2),
                    Probability::W3 => (acc.0, acc.1, Some(s)),
                },
            ),
        }
    }
}

/// The leaf and row that `--set "LEAF=W3:x,W2:y,W1:z"` names.
pub open spec fn set_spec(spec: Seq<char>) -> Parsed<(Seq<char>, CalibrationRow)> {
    match split_once_spec(spec, '=') {
        None => Err((CalFault::MissingEquals, spec)),
        Some((lhs, rhs)) => match leaf_spec(trim_seq(lhs)) {
            Err(e) => Err(e),
            Ok((c, f, p)) => finish_row(row_fold(split_on(rhs, ','), (None, None, None)), leaf_name(c, f, p)),
        },
    }
}

/// The row for `leaf` once all entries are read: complete, or refused.
pub open spec fn finish_row(r: Parsed<(Option<Sil>, Option<Sil>, Option<Sil>)>, leaf: Seq<char>) -> Parsed<(Seq<char>, CalibrationRow)> {
    match r {
        Err(e) => Err(e),
        Ok((Some(a), Some(b), Some(d))) => Ok((leaf, CalibrationRow { w1: a, w2: b, w3: d })),
        Ok(_) => Err((CalFault::IncompleteRow, leaf)),
    }
}

fn read_entry(tok: &str) -> (r: Result<(Probability, Sil), ReqError>)
    ensures
        match entry_spec(tok@) {
            Ok(x) => r is Ok && r.unwrap() == x,
            Err((fault, token)) => match r {
                Ok(_) => false,
                Err(e) => cal_error(e, fault, token),
            },
        },
{
    let (w, sv) = match split_once_char(tok, ':') {
        Some(x) => x,
        None => {
            let cs = chars_of(tok);
            return Err(cal_err(CalFault::ExpectedPair, string_of(&trim(&cs))));
        },
    };
    let sil = match Sil::parse(sv.as_str()) {
        Some(s) => s,
        None => {
            let cs = chars_of(sv.as_str());
            return Err(cal_err(CalFault::NotASil, string_of(&trim(&cs))));
        },
    };
    match parse_w(w.as_str()) {
        Ok(pw) => Ok((pw, sil)),
        Err(_) => Err(cal_err(CalFault::UnknownProbability, canon_of(w.as_str()))),
    }
}

/// Parse a calibration override `--set "C_D/F_B/P_B=W3:4,W2:3,W1:2"`. All
/// three W entries are required; SIL tokens read `1..4`, `SIL1..SIL4`, `a`,
/// `b` or `none`; the leaf must be a real (C, F, P) combination.
pub fn parse_set(spec: &str) -> (r: Result<(String, CalibrationRow), ReqError>)
    ensures
        match set_spec(spec@) {
            Ok((leaf, row)) => r is Ok && r.unwrap().0@ == leaf && r.unwrap().1 == row,
            Err((fault, token)) => match r {
                Ok(_) => false,
                Err(e) => cal_error(e, fault, token),
            },
        },
{
    let (lhs, rhs) = match split_once_char(spec, '=') {
        Some(x) => x,
        None => return Err(cal_err(CalFault::MissingEquals, string_of(&chars_of(spec)))),
    };
    let lv = chars_of(lhs.as_str());
    let lt = string_of(&trim(&lv));
    let leaf = match validate_leaf(lt.as_str()) {
        Ok(l) => l,
        Err(e) => return Err(e),
    };
    let toks = split_char(rhs.as_str(), ',');
    let ghost tv = views(toks@);
    let mut w1: Option<Sil> = None;
    let mut w2: Option<Sil> = None;
    let mut w3: Option<Sil> = None;
    let mut i: usize = 0;
    assert(tv.skip(0) =~= tv);
    while i < toks.len()
        invariant
            i <= toks@.len(),
            tv == views(toks@),
            tv.len() == toks@.len(),
            row_fold(tv, (None, None, None)) == row_fold(tv.skip(i as int), (w1, w2, w3)),
            set_spec(spec@) == finish_row(row_fold(tv, (None, None, None)), leaf@),
        decreases toks@.len() - i,
    {
        assert(tv.skip(i as int)[0] == toks@[i as int]@);
        assert(tv.skip(i as int).drop_first() =~= tv.skip(i + 1));
        match read_entry(toks[i].as_str()) {
            Ok((pw, s)) => match pw {
                Probability::W1 => w1 = Some(s),
                Probability::W2 => w2 = Some(s),
                Probability::W3 => w3 = Some(s),
            },
            Err(e) => return Err(e),
        }
        i = i + 1;
    }
    assert(tv.skip(i as int) =~= Seq::<Seq<char>>::empty());
    match (w1, w2, w3) {
        (Some(a), Some(b), Some(d)) => Ok((leaf, CalibrationRow { w1: a, w2: b, w3: d })),
        _ => Err(cal_err(CalFault::IncompleteRow, leaf)),
    }
}

// ---------------------------------------------------------------------------
// Walkthrough layout: word wrapping and labelled fields
// ---------------------------------------------------------------------------

/// Greedy word wrap: each word joins the current line (after one space)
/// while the line stays within `width` characters, else starts a new line;
/// `cur` is the line being filled.
pub open spec fn wrap_from(ws: Seq<Seq<char>>, cur: Seq<char>, width: nat) -> Seq<Seq<char>>
    decreases ws.len(),
{
    if ws.len() == 0 {
        flush(cur)
    } else if cur.len() == 0 {
        wrap_from(ws.drop_first(), ws[0], width)
    } else if cur.len() + 1 + ws[0].len() <= width {
        wrap_from(ws.drop_first(), cur + seq![' '] + ws[0], width)
    } else {
        seq![cur] + wrap_from(ws.drop_first(), ws[0], width)
    }
}

/// The lines of `text` wrapped to `width` columns on whitespace: at least
/// one line, possibly empty.
pub open spec fn wrapped(text: Seq<char>, width: nat) -> Seq<Seq<char>> {
    let ls = wrap_from(words_of(text), Seq::empty(), width);
    if ls.len() == 0 { seq![Seq::empty()] } else { ls }
}

/// Word-wrap `text` to at most `width` columns on whitespace boundaries (a
/// single word longer than `width` stands alone on its line).
pub fn wrap_text(text: &str, width: usize) -> (r: Vec<String>)
    ensures
        views(r@) == wrapped(text@, width as nat),
{
    let ws = words(text);
    let ghost wv = views(ws@);
    let mut lines: Vec<String> = Vec::new();
    let mut cur: Vec<char> = Vec::new();
    let mut i: usize = 0;
    assert(wv.skip(0) =~= wv);
    assert(views(lines@) =~= Seq::<Seq<char>>::empty());
    while i < ws.len()
        invariant
            i <= ws@.len(),
            wv == views(ws@),
            wv.len() == ws@.len(),
            views(lines@) + wrap_from(wv.skip(i as int), cur@, width as nat) == wrap_from(wv, Seq::empty(), width as nat),
        decreases ws@.len() - i,
    {
        let ghost pre = views(lines@);
        let ghost rest = wv.skip(i as int);
        let ghost cur0 = cur@;
        assert(rest[0] == ws@[i as int]@);
        assert(rest.drop_first() =~= wv.skip(i + 1));
        let w = chars_of(ws[i].as_str());
        if cur.len() == 0 {
            cur = w;
        } else if cur.len() < width && w.len() <= width - cur.len() - 1 {
            cur.push(' ');
            let joined = crate::text::concat_chars(&cur, &w);
            cur = joined;
            assert(cur@ =~= cur0 + seq![' '] + rest[0]);
        } else {
            lines.push(string_of(&cur));
            cur = w;
            assert(views(lines@) =~= pre.push(cur0));
            assert(pre.push(cur0) + wrap_from(rest.drop_first(), cur@, width as nat) =~= pre + (seq![cur0] + wrap_from(rest.drop_first(), cur@, width as nat)));
        }
        i = i + 1;
    }
    assert(wv.skip(i as int) =~= Seq::<Seq<char>>::empty());
    let ghost pre = views(lines@);
    if cur.len() > 0 {
        lines.push(string_of(&cur));
    }
    assert(views(lines@) =~= pre + flush(cur@));
    if lines.len() == 0 {
        lines.push(String::new());
        assert(views(lines@) =~= seq![Seq::<char>::empty()]);
    }
    lines
}

/// The width of the label gutter, and of the wrapped body beside it.
pub const LABEL_WIDTH: usize = 12;
pub const BODY_WIDTH: usize = 58;

/// Line `i` of a labelled field: the label padded into its gutter on the
/// first line, continuation lines indented under the body column.
pub open spec fn field_line(label: Seq<char>, line: Seq<char>, i: int) -> Seq<char> {
    if i == 0 {
        "  "@ + pad_right(label, LABEL_WIDTH as nat) + " "@ + line
    } else {
        spaces((2 + LABEL_WIDTH + 1) as nat) + line
    }
}

/// The lines of a labelled, word-wrapped field.
pub open spec fn field_lines(label: Seq<char>, body: Seq<char>) -> Seq<Seq<char>> {
    let ls = wrapped(body, BODY_WIDTH as nat);
    Seq::new(ls.len(), |i: int| field_line(label, ls[i], i))
}

/// Push a labelled, word-wrapped field: an empty label continues the
/// previous field's body.
pub fn field(out: &mut Vec<String>, label: &str, body: &str)
    ensures
        views(final(out)@) == views(old(out)@) + field_lines(label@, body@),
{
    let ls = wrap_text(body, BODY_WIDTH);
    let ghost lv = views(ls@);
    let ghost start = views(out@);
    let lab = chars_of(label);
    let mut i: usize = 0;
    while i < ls.len()
        invariant
            i <= ls@.len(),
            lv == views(ls@),
            lv == wrapped(body@, BODY_WIDTH as nat),
            lab@ == label@,
            views(out@) == start + field_lines(label@, body@).subrange(0, i as int),
        decreases ls@.len() - i,
    {
        let mut line = String::new();
        if i == 0 {
            line.append("  ");
            line.append(label);
            if lab.len() < LABEL_WIDTH {
                push_spaces(&mut line, LABEL_WIDTH - lab.len());
            }
            line.append(" ");
        } else {
            push_spaces(&mut line, 2 + LABEL_WIDTH + 1);
        }
        line.append(ls[i].as_str());
        assert(line@ =~= field_line(label@, lv[i as int], i as int));
        let ghost pre = views(out@);
        out.push(line);
        assert(views(out@) =~= pre.push(field_line(label@, lv[i as int], i as int)));
        assert(field_lines(label@, body@).subrange(0, i + 1) =~= field_lines(label@, body@).subrange(0, i as int).push(field_line(label@, lv[i as int], i as int)));
        i = i + 1;
    }
    assert(field_lines(label@, body@).subrange(0, ls@.len() as int) =~= field_lines(label@, body@));
}

// ---------------------------------------------------------------------------
// The guided walkthrough: what can be acknowledged, and what blocks sign-off
// ---------------------------------------------------------------------------

/// A fresh acknowledgement: a non-objection made at the current commit.
pub open spec fn fresh_spec(ack: Option<WalkthroughAck>, head: Seq<char>) -> bool {
    match ack {
        Some(a) => !a.objected && a.commit@.len() > 0 && a.commit@ == head,
        None => false,
    }
}

/// Whether an acknowledgement is fresh at `head`.
pub fn ack_is_fresh(ack: Option<&WalkthroughAck>, head: &str) -> (b: bool)
    ensures
        b == fresh_spec(match ack { Some(a) => Some(*a), None => None }, head@),
{
    match ack {
        Some(a) => !a.objected && chars_of(a.commit.as_str()).len() > 0 && str_eq(a.commit.as_str(), head),
        None => false,
    }
}

/// Why a safety requirement's chain cannot be acknowledged yet.
#[derive(Copy, Clone, Debug, PartialEq, Eq, Structural)]
pub enum ChainGap {
    NoSuchRequirement,
    /// No assessed hazard reaches a live safety function it realizes.
    NothingToInherit,
    NoPassingEvidence,
}

impl ChainGap {
    pub open spec fn text(self) -> Seq<char> {
        match self {
            ChainGap::NoSuchRequirement => "no such safety requirement"@,
            ChainGap::NothingToInherit => "chain has no assessed hazard reaching a live safety function (nothing to inherit a SIL from)"@,
            ChainGap::NoPassingEvidence => "no passing verification evidence yet"@,
        }
    }

    pub fn message(self) -> (r: &'static str)
        ensures
            r@ == self.text(),
    {
        match self {
            ChainGap::NoSuchRequirement => "no such safety requirement",
            ChainGap::NothingToInherit => "chain has no assessed hazard reaching a live safety function (nothing to inherit a SIL from)",
            ChainGap::NoPassingEvidence => "no passing verification evidence yet",
        }
    }
}

/// The requirement has passing evidence: a passed dossier or a passing
/// test record.
pub open spec fn has_pass(sr: SafetyRequirement) -> bool {
    ||| (sr.validation matches Some(v) && v.passed_spec())
    ||| exists|i: int| 0 <= i < sr.tests@.len() && (#[trigger] sr.tests@[i]).outcome == TestOutcome::Pass
}

/// The gap in the chain of safety requirement `id`, or none when the chain
/// is complete (an assessed hazard reaches a live safety function it
/// realizes, and there is passing evidence).
pub open spec fn gap_spec(p: Project, id: Seq<char>) -> Option<ChainGap> {
    match lookup(p.safety_requirements.view(), id) {
        None => Some(ChainGap::NoSuchRequirement),
        Some(sr) => if p.inherited_sil_spec(sr).is_none() {
            Some(ChainGap::NothingToInherit)
        } else if !has_pass(sr) {
            Some(ChainGap::NoPassingEvidence)
        } else {
            None
        },
    }
}

fn passing_evidence(sr: &SafetyRequirement) -> (b: bool)
    ensures
        b == has_pass(*sr),
{
    let dossier = match &sr.validation {
        Some(v) => v.passed(),
        None => false,
    };
    if dossier {
        return true;
    }
    let mut i: usize = 0;
    while i < sr.tests.len()
        invariant
            i <= sr.tests@.len(),
            forall|j: int| 0 <= j < i ==> (#[trigger] sr.tests@[j]).outcome != TestOutcome::Pass,
        decreases sr.tests@.len() - i,
    {
        if matches!(sr.tests[i].outcome, TestOutcome::Pass) {
            return true;
        }
        i = i + 1;
    }
    false
}

/// Why the chain of safety requirement `sr_id` is not yet acknowledgeable,
/// or `None` when it is complete.
pub fn chain_incompleteness(project: &Project, sr_id: &str) -> (r: Option<ChainGap>)
    ensures
        r == gap_spec(*project, sr_id@),
{
    let sr = match project.safety_requirements.get(sr_id) {
        Some(sr) => sr,
        None => return Some(ChainGap::NoSuchRequirement),
    };
    if project.inherited_sil(sr).is_none() {
        return Some(ChainGap::NothingToInherit);
    }
    if !passing_evidence(sr) {
        return Some(ChainGap::NoPassingEvidence);
    }
    None
}

/// The ids of `srs`, in order.
pub open spec fn sr_ids(srs: Seq<SafetyRequirement>) -> Seq<Seq<char>> {
    srs.map_values(|x: SafetyRequirement| x.id@)
}

/// The live (non-obsolete) members of `srs`, in order.
pub open spec fn live_srs(srs: Seq<SafetyRequirement>) -> Seq<SafetyRequirement>
    decreases srs.len(),
{
    if srs.len() == 0 {
        Seq::empty()
    } else {
        let rest = live_srs(srs.drop_last());
        if srs.last().status != Status::Obsolete { rest.push(srs.last()) } else { rest }
    }
}

/// The safety requirements in scope for the project-wide sign-off: every
/// non-obsolete one, in id order.
pub fn in_scope_srs(project: &Project) -> (r: Vec<String>)
    ensures
        views(r@) == sr_ids(live_srs(project.safety_requirements.view())),
{
    let ghost s = project.safety_requirements.view();
    let n = project.safety_requirements.len();
    let mut out: Vec<String> = Vec::new();
    let mut i: usize = 0;
    while i < n
        invariant
            n == s.len(),
            s == project.safety_requirements.view(),
            i <= n,
            views(out@) == sr_ids(live_srs(s.take(i as int))),
        decreases n - i,
    {
        assert(s.take(i + 1).drop_last() =~= s.take(i as int));
        assert(s.take(i + 1).last() == s[i as int]);
        let sr = project.safety_requirements.at(i);
        let ghost pre = live_srs(s.take(i as int));
        if !matches!(sr.status, Status::Obsolete) {
            out.push(sr.id.clone());
            assert(sr_ids(pre.push(*sr)) =~= sr_ids(pre).push(sr.id@));
        }
        assert(views(out@) =~= sr_ids(live_srs(s.take(i + 1))));
        i = i + 1;
    }
    assert(s.take(n as int) =~= s);
    out
}

/// `sr` has a realizes-link to one of `sfs`.
pub open spec fn realizes_any(sr: SafetyRequirement, sfs: Seq<Seq<char>>) -> bool {
    exists|j: int| 0 <= j < sr.links@.len() && (#[trigger] sr.links@[j]).kind == LinkKind::Realizes && sfs.contains(sr.links@[j].target@)
}

/// The members of `srs` that realize one of `sfs`, in order.
pub open spec fn realizers_of_any(srs: Seq<SafetyRequirement>, sfs: Seq<Seq<char>>) -> Seq<SafetyRequirement>
    decreases srs.len(),
{
    if srs.len() == 0 {
        Seq::empty()
    } else {
        let rest = realizers_of_any(srs.drop_last(), sfs);
        if realizes_any(srs.last(), sfs) { rest.push(srs.last()) } else { rest }
    }
}

/// The ids of `sfs`, in order.
pub open spec fn sf_ids(sfs: Seq<SafetyFunction>) -> Seq<Seq<char>> {
    sfs.map_values(|x: SafetyFunction| x.id@)
}

fn realizes_one_of(sr: &SafetyRequirement, sfs: &Vec<String>) -> (b: bool)
    ensures
        b == realizes_any(*sr, views(sfs@)),
{
    let mut i: usize = 0;
    while i < sr.links.len()
        invariant
            i <= sr.links@.len(),
            forall|j: int| 0 <= j < i ==> !((#[trigger] sr.links@[j]).kind == LinkKind::Realizes && views(sfs@).contains(sr.links@[j].target@)),
        decreases sr.links@.len() - i,
    {
        if matches!(sr.links[i].kind, LinkKind::Realizes) && contains_str(sfs, sr.links[i].target.as_str()) {
            return true;
        }
        i = i + 1;
    }
    false
}

fn realizing_ids(project: &Project, sfs: &Vec<String>) -> (r: Vec<String>)
    ensures
        views(r@) == sr_ids(realizers_of_any(project.safety_requirements.view(), views(sfs@))),
{
    let ghost s = project.safety_requirements.view();
    let n = project.safety_requirements.len();
    let mut out: Vec<String> = Vec::new();
    let mut i: usize = 0;
    while i < n
        invariant
            n == s.len(),
            s == project.safety_requirements.view(),
            i <= n,
            views(out@) == sr_ids(realizers_of_any(s.take(i as int), views(sfs@))),
        decreases n - i,
    {
        assert(s.take(i + 1).drop_last() =~= s.take(i as int));
        assert(s.take(i + 1).last() == s[i as int]);
        let sr = project.safety_requirements.at(i);
        let ghost pre = realizers_of_any(s.take(i as int), views(sfs@));
        if realizes_one_of(sr, sfs) {
            out.push(sr.id.clone());
            assert(sr_ids(pre.push(*sr)) =~= sr_ids(pre).push(sr.id@));
        }
        assert(views(out@) =~= sr_ids(realizers_of_any(s.take(i + 1), views(sfs@))));
        i = i + 1;
    }
    assert(s.take(n as int) =~= s);
    out
}

fn mitigating_ids(project: &Project, haz: &str) -> (r: Vec<String>)
    ensures
        views(r@) == sf_ids(mitigators(project.safety_functions.view(), haz@)),
{
    let ghost s = project.safety_functions.view();
    let n = project.safety_functions.len();
    let mut out: Vec<String> = Vec::new();
    let mut i: usize = 0;
    while i < n
        invariant
            n == s.len(),
            s == project.safety_functions.view(),
            i <= n,
            views(out@) == sf_ids(mitigators(s.take(i as int), haz@)),
        decreases n - i,
    {
        assert(s.take(i + 1).drop_last() =~= s.take(i as int));
        assert(s.take(i + 1).last() == s[i as int]);
        let sf = project.safety_functions.at(i);
        let ghost pre = mitigators(s.take(i as int), haz@);
        if mitigates(sf, haz) {
            out.push(sf.id.clone());
            assert(sf_ids(pre.push(*sf)) =~= sf_ids(pre).push(sf.id@));
        }
        assert(views(out@) =~= sf_ids(mitigators(s.take(i + 1), haz@)));
        i = i + 1;
    }
    assert(s.take(n as int) =~= s);
    out
}

/// The safety requirements in the chain a walkthrough target names: an
/// `SR` names itself (it must exist), an `SF` the requirements realizing
/// it, a `HAZ` those realizing a safety function that mitigates it.
pub open spec fn target_srs(p: Project, raw: Seq<char>) -> Option<Seq<Seq<char>>> {
    let up = canon(raw);
    if is_prefix("SR"@, up) {
        match resolve_spec(p, raw) {
            Some((id, _)) => Some(seq![id]),
            None => None,
        }
    } else if is_prefix("SF"@, up) {
        Some(sr_ids(realizers_of_any(p.safety_requirements.view(), seq![up])))
    } else if is_prefix("HAZ"@, up) {
        Some(sr_ids(realizers_of_any(p.safety_requirements.view(), sf_ids(mitigators(p.safety_functions.view(), up)))))
    } else {
        None
    }
}

/// Resolve a HAZ/SF/SR walkthrough target to the safety requirements in
/// its chain, in id order.
pub fn srs_for_target(project: &Project, raw: &str) -> (r: Result<Vec<String>, ReqError>)
    ensures
        match target_srs(*project, raw@) {
            Some(ids) => r is Ok && views(r.unwrap()@) == ids,
            None => r is Err,
        },
{
    let up = canon_of(raw);
    let uv = chars_of(up.as_str());
    if starts_with(&uv, &chars_of("SR")) {
        match resolve(project, raw) {
            Ok((id, _)) => {
                let ghost idv = id@;
                let mut v: Vec<String> = Vec::new();
                v.push(id);
                assert(views(v@) =~= seq![idv]);
                Ok(v)
            },
            Err(e) => Err(e),
        }
    } else if starts_with(&uv, &chars_of("SF")) {
        let mut sfs: Vec<String> = Vec::new();
        sfs.push(up);
        assert(views(sfs@) =~= seq![canon(raw@)]);
        Ok(realizing_ids(project, &sfs))
    } else if starts_with(&uv, &chars_of("HAZ")) {
        let sfs = mitigating_ids(project, up.as_str());
        Ok(realizing_ids(project, &sfs))
    } else {
        Err(ReqError::BadTarget { raw: string_of(&chars_of(raw)) })
    }
}

/// Why a safety requirement blocks the sign-off gate.
#[derive(Copy, Clone, Debug, PartialEq, Eq, Structural)]
pub enum BlockReason {
    NeverAcknowledged,
    ObjectionOnRecord,
    /// The acknowledgement was made at another commit.
    Stale,
}

pub struct Blocker {
    pub id: String,
    pub why: BlockReason,
}

/// Why an acknowledgement state that is not fresh blocks the sign-off.
pub open spec fn reason_of(ack: Option<WalkthroughAck>) -> BlockReason {
    match ack {
        None => BlockReason::NeverAcknowledged,
        Some(a) => if a.objected { BlockReason::ObjectionOnRecord } else { BlockReason::Stale },
    }
}

/// The blockers among `ids`, in order: each id whose acknowledgement is
/// not fresh at `head`, with the reason.
pub open spec fn blockers_spec(p: Project, ids: Seq<Seq<char>>, head: Seq<char>) -> Seq<(Seq<char>, BlockReason)>
    decreases ids.len(),
{
    if ids.len() == 0 {
        Seq::empty()
    } else {
        let rest = blockers_spec(p, ids.drop_last(), head);
        let ack = match lookup(p.safety_requirements.view(), ids.last()) {
            Some(sr) => sr.walkthrough,
            None => None,
        };
        if fresh_spec(ack, head) { rest } else { rest.push((ids.last(), reason_of(ack))) }
    }
}

pub open spec fn blocker_views(b: Seq<Blocker>) -> Seq<(Seq<char>, BlockReason)> {
    b.map_values(|x: Blocker| (x.id@, x.why))
}

/// The sign-off gate: the safety requirements among `ids` that do not
/// carry a fresh acknowledgement at `head` (the sign-off passes when there are
/// none).
pub fn walkthrough_gate(project: &Project, ids: &Vec<String>, head: &str) -> (r: Vec<Blocker>)
    ensures
        blocker_views(r@) == blockers_spec(*project, views(ids@), head@),
{
    let ghost iv = views(ids@);
    let mut out: Vec<Blocker> = Vec::new();
    let mut i: usize = 0;
    while i < ids.len()
        invariant
            i <= ids@.len(),
            iv == views(ids@),
            blocker_views(out@) == blockers_spec(*project, iv.take(i as int), head@),
        decreases ids@.len() - i,
    {
        assert(iv.take(i + 1).drop_last() =~= iv.take(i as int));
        assert(iv.take(i + 1).last() == ids@[i as int]@);
        let ack: Option<&WalkthroughAck> = match project.safety_requirements.get(ids[i].as_str()) {
            Some(sr) => match &sr.walkthrough {
                Some(a) => Some(a),
                None => None,
            },
            None => None,
        };
        if !ack_is_fresh(ack, head) {
            let why = match ack {
                None => BlockReason::NeverAcknowledged,
                Some(a) => if a.objected { BlockReason::ObjectionOnRecord } else { BlockReason::Stale },
            };
            let ghost pre = blocker_views(out@);
            out.push(Blocker { id: ids[i].clone(), why });
            assert(blocker_views(out@) =~= pre.push((ids@[i as int]@, why)));
        }
        i = i + 1;
    }
    assert(iv.take(ids@.len() as int) =~= iv);
    out
}

/// The first (up to) eight characters of a commit id.
pub open spec fn short_head(head: Seq<char>) -> Seq<char> {
    if head.len() <= 8 { head } else { head.take(8) }
}

/// The status line `record_ack` reports.
pub open spec fn ack_message(id: Seq<char>, reviewer: Seq<char>, object: bool, head: Seq<char>) -> Seq<char> {
    if object {
        "Recorded objection on "@ + id + " by "@ + reviewer + "."@
    } else {
        "Acknowledged "@ + id + " by "@ + reviewer + " at "@ + short_head(head) + "."@
    }
}

/// The acknowledgement `record_ack` stores.
pub open spec fn ack_records(a: WalkthroughAck, ctx: ActionContext, head: Seq<char>, object: bool, note: Option<String>) -> bool {
    &&& a.reviewer == ctx.actor
    &&& a.at == ctx.now
    &&& a.commit@ == head
    &&& a.objected == object
    &&& a.note == note
}

/// Apply a walkthrough acknowledgement (or, with `object`, an objection) by
/// the context's actor to safety requirement `id` at commit `head`, and give
/// the status line to report. An acknowledgement of an incomplete chain is
/// refused; an objection is always recorded.
pub fn record_ack(project: &mut Project, id: &str, object: bool, note: Option<String>, head: &str, ctx: &ActionContext) -> (r: Result<String, ReqError>)
    ensures
        r is Err ==> *final(project) == *old(project),
        !object && gap_spec(*old(project), id@).is_some() ==> match r {
            Err(ReqError::ChainIncomplete { id: x, why }) => x@ == id@ && why@ == gap_spec(*old(project), id@).unwrap().text(),
            _ => false,
        },
        object && !has_key(old(project).safety_requirements.view(), id@) ==> match r {
            Err(ReqError::NoSuchSafetyRequirement { raw }) => raw@ == id@,
            _ => false,
        },
        (object || gap_spec(*old(project), id@).is_none()) && has_key(old(project).safety_requirements.view(), id@) ==> {
            let o = lookup(old(project).safety_requirements.view(), id@).unwrap();
            let n = lookup(final(project).safety_requirements.view(), id@).unwrap();
            &&& r is Ok && r.unwrap()@ == ack_message(id@, ctx.actor@, object, head@)
            &&& has_key(final(project).safety_requirements.view(), id@)
            &&& replaced(old(project).safety_requirements.view(), final(project).safety_requirements.view(), n)
            &&& srs_changed(*old(project), *final(project), ctx.now)
            &&& n == SafetyRequirement { walkthrough: n.walkthrough, history: n.history, updated: ctx.now, ..o }
            &&& n.walkthrough is Some && ack_records(n.walkthrough.unwrap(), *ctx, head@, object, note)
            &&& n.history@.len() == o.history@.len() + 1 && n.history@.drop_last() == o.history@
            &&& entry_records(n.history@.last(), *ctx,
                    if object { "walkthrough objection"@ } else { "walkthrough acknowledged"@ },
                    match note { Some(t) => Some(t@), None => None })
        },
{
    if !object {
        match chain_incompleteness(project, id) {
            Some(g) => return Err(ReqError::ChainIncomplete {
                id: string_of(&chars_of(id)),
                why: string_of(&chars_of(g.message())),
            }),
            None => {},
        }
    }
    if !project.safety_requirements.contains_key(id) {
        return Err(ReqError::NoSuchSafetyRequirement { raw: string_of(&chars_of(id)) });
    }
    let mut sr = project.safety_requirements.remove(id).unwrap();
    let ghost o = sr;
    let action = if object { "walkthrough objection" } else { "walkthrough acknowledged" };
    let e = history(string_of(&chars_of(action)), clone_opt(&note), ctx);
    sr.walkthrough = Some(WalkthroughAck {
        reviewer: ctx.actor.clone(),
        at: ctx.now.clone(),
        commit: string_of(&chars_of(head)),
        objected: object,
        note,
    });
    sr.updated = ctx.now.clone();
    sr.history.push(e);
    assert(sr.history@.drop_last() =~= o.history@);
    let ghost mid = project.safety_requirements.view();
    project.safety_requirements.insert(sr);
    proof {
        assert(!has_key(mid, id@));
    }
    project.updated = ctx.now.clone();
    let mut msg = String::new();
    if object {
        msg.append("Recorded objection on ");
        msg.append(id);
        msg.append(" by ");
        msg.append(ctx.actor.as_str());
        msg.append(".");
    } else {
        let hv = chars_of(head);
        let cut = if hv.len() <= 8 { hv.len() } else { 8 };
        let short = string_of(&prefix_upto(&hv, cut));
        msg.append("Acknowledged ");
        msg.append(id);
        msg.append(" by ");
        msg.append(ctx.actor.as_str());
        msg.append(" at ");
        msg.append(short.as_str());
        msg.append(".");
        assert(short@ =~= short_head(head@));
    }
    Ok(msg)
}

// ---------------------------------------------------------------------------
// Calibration, acceptance and status: `req safety ...`
// ---------------------------------------------------------------------------

/// The overrides the `--set` arguments name, in order, or the first fault.
pub open spec fn parsed_sets(specs: Seq<Seq<char>>) -> Parsed<Seq<(Seq<char>, CalibrationRow)>>
    decreases specs.len(),
{
    if specs.len() == 0 {
        Ok(Seq::empty())
    } else {
        match parsed_sets(specs.drop_last()) {
            Err(e) => Err(e),
            Ok(es) => match set_spec(specs.last()) {
                Err(e) => Err(e),
                Ok(x) => Ok(es.push(x)),
            },
        }
    }
}

/// The row the last override for leaf `k` sets, if any.
pub open spec fn last_row(es: Seq<(Seq<char>, CalibrationRow)>, k: Seq<char>) -> Option<CalibrationRow>
    decreases es.len(),
{
    if es.len() == 0 {
        None
    } else if es.last().0 == k {
        Some(es.last().1)
    } else {
        last_row(es.drop_last(), k)
    }
}

/// The override row a calibration holds for leaf `k`.
pub open spec fn row_at(cal: Seq<CalibrationEntry>, k: Seq<char>) -> Option<CalibrationRow> {
    match lookup(cal, k) {
        Some(e) => Some(e.row),
        None => None,
    }
}

/// The invocation only shows the calibration.
pub open spec fn show_only(args: SafetyCalibrateArgs) -> bool {
    args.show && args.label.is_none() && args.set@.len() == 0 && !args.reset
}

/// Everything but the calibration and its label is as it was.
pub open spec fn only_calibration_changed(old: Project, new: Project) -> bool {
    &&& new.name == old.name && new.requirements == old.requirements
    &&& new.hazards == old.hazards && new.safety_functions == old.safety_functions
    &&& new.safety_requirements == old.safety_requirements && new.updated == old.updated
}

fn parse_sets(specs: &Vec<String>) -> (r: Result<Vec<(String, CalibrationRow)>, ReqError>)
    ensures
        match parsed_sets(views(specs@)) {
            Ok(es) => r is Ok && r.unwrap()@.len() == es.len()
                && forall|i: int| 0 <= i < es.len() ==> (#[trigger] r.unwrap()@[i]).0@ == es[i].0 && r.unwrap()@[i].1 == es[i].1,
            Err((fault, token)) => match r {
                Ok(_) => false,
                Err(e) => cal_error(e, fault, token),
            },
        },
{
    let ghost sv = views(specs@);
    let mut out: Vec<(String, CalibrationRow)> = Vec::new();
    let mut i: usize = 0;
    while i < specs.len()
        invariant
            i <= specs@.len(),
            sv == views(specs@),
            parsed_sets(sv.take(i as int)) is Ok,
            out@.len() == parsed_sets(sv.take(i as int))->Ok_0.len(),
            forall|k: int| 0 <= k < out@.len() ==> (#[trigger] out@[k]).0@ == parsed_sets(sv.take(i as int))->Ok_0[k].0
                && out@[k].1 == parsed_sets(sv.take(i as int))->Ok_0[k].1,
        decreases specs@.len() - i,
    {
        assert(sv.take(i + 1).drop_last() =~= sv.take(i as int));
        assert(sv.take(i + 1).last() == specs@[i as int]@);
        match parse_set(specs[i].as_str()) {
            Ok(x) => out.push(x),
            Err(e) => {
                proof {
                    lemma_sets_fail_later(sv, i as int);
                }
                return Err(e);
            },
        }
        i = i + 1;
    }
    assert(sv.take(specs@.len() as int) =~= sv);
    Ok(out)
}

/// Once a prefix of the arguments fails, the whole list fails the same way.
proof fn lemma_sets_fail_later(sv: Seq<Seq<char>>, i: int)
    requires
        0 <= i < sv.len(),
        parsed_sets(sv.take(i)) is Ok,
        set_spec(sv[i]) is Err,
    ensures
        parsed_sets(sv) == Err::<Seq<(Seq<char>, CalibrationRow)>, (CalFault, Seq<char>)>(set_spec(sv[i])->Err_0),
    decreases sv.len() - i,
{
    assert(sv.take(i + 1).drop_last() =~= sv.take(i));
    assert(sv.take(i + 1).last() == sv[i]);
    lemma_fail_stays(sv, i + 1);
}

/// A failing prefix makes every longer prefix fail the same way.
proof fn lemma_fail_stays(sv: Seq<Seq<char>>, j: int)
    requires
        0 < j <= sv.len(),
        parsed_sets(sv.take(j)) is Err,
    ensures
        parsed_sets(sv) == parsed_sets(sv.take(j)),
    decreases sv.len() - j,
{
    if j == sv.len() {
        assert(sv.take(j) =~= sv);
    } else {
        assert(sv.take(j + 1).drop_last() =~= sv.take(j));
        lemma_fail_stays(sv, j + 1);
    }
}

/// What `calibrate` does: see its doc comment.
pub open spec fn calibrated(args: SafetyCalibrateArgs, old: Project, new: Project, r: Result<bool, ReqError>) -> bool {
    if show_only(args) {
        r is Ok && !r->Ok_0 && new == old
    } else {
        match parsed_sets(views(args.set@)) {
            Err((fault, token)) => new == old && match r {
                Ok(_) => false,
                Err(e) => cal_error(e, fault, token),
            },
            Ok(es) => {
                &&& r is Ok && r->Ok_0
                &&& only_calibration_changed(old, new)
                &&& new.calibration_label == match args.label {
                    Some(l) => Some(l),
                    None => if args.reset { None } else { old.calibration_label },
                }
                &&& forall|k: Seq<char>| #[trigger] row_at(new.calibration.view(), k) == match last_row(es, k) {
                    Some(x) => Some(x),
                    None => if args.reset { None } else { row_at(old.calibration.view(), k) },
                }
            },
        }
    }
}

/// Apply `req safety calibrate` to the project: `--reset` clears every
/// override and the label, `--label` sets the label, each `--set` overrides
/// one leaf (a later one for the same leaf wins). With only `--show` nothing
/// changes. A malformed `--set` refuses the whole command. Gives whether the
/// calibration was (re)written.
pub fn calibrate(args: &SafetyCalibrateArgs, project: &mut Project) -> (r: Result<bool, ReqError>)
    ensures
        calibrated(*args, *old(project), *final(project), r),
{
    if args.show && args.label.is_none() && args.set.len() == 0 && !args.reset {
        return Ok(false);
    }
    let parsed = match parse_sets(&args.set) {
        Ok(p) => p,
        Err(e) => return Err(e),
    };
    let ghost es = parsed_sets(views(args.set@))->Ok_0;
    let ghost base = old(project).calibration.view();
    if args.reset {
        project.calibration = IdMap::new();
        project.calibration_label = None;
    }
    match &args.label {
        Some(l) => project.calibration_label = Some(l.clone()),
        None => {},
    }
    let ghost start = project.calibration.view();
    assert(forall|k: Seq<char>| #[trigger] row_at(start, k) == (if args.reset { None } else { row_at(base, k) })) by {
        if args.reset {
            assert forall|k: Seq<char>| #[trigger] row_at(start, k) == (if args.reset { None } else { row_at(base, k) }) by {
                assert(start.len() == 0);
                assert(!has_key(start, k));
            }
        }
    }
    let mut i: usize = 0;
    while i < parsed.len()
        invariant
            i <= parsed@.len(),
            parsed@.len() == es.len(),
            forall|k: int| 0 <= k < parsed@.len() ==> (#[trigger] parsed@[k]).0@ == es[k].0 && parsed@[k].1 == es[k].1,
            only_calibration_changed(*old(project), *project),
            project.calibration_label == match args.label {
                Some(l) => Some(l),
                None => if args.reset { None } else { old(project).calibration_label },
            },
            forall|k: Seq<char>| #[trigger] row_at(project.calibration.view(), k) == match last_row(es.take(i as int), k) {
                Some(x) => Some(x),
                None => if args.reset { None } else { row_at(base, k) },
            },
        decreases parsed@.len() - i,
    {
        let leaf = parsed[i].0.clone();
        let row = parsed[i].1;
        let ghost before = project.calibration.view();
        let ghost lk = leaf@;
        let _ = project.calibration.len();
        project.calibration.insert(CalibrationEntry { leaf, row });
        let _ = project.calibration.len();
        assert(es.take(i + 1).drop_last() =~= es.take(i as int));
        assert(es.take(i + 1).last() == es[i as int]);
        assert forall|k: Seq<char>| #[trigger] row_at(project.calibration.view(), k) == match last_row(es.take(i + 1), k) {
            Some(x) => Some(x),
            None => if args.reset { None } else { row_at(base, k) },
        } by {
            if k != lk {
                crate::idmap::lemma_insert_lookup(before, project.calibration.view(), CalibrationEntry { leaf: parsed@[i as int].0, row }, k);
                assert(row_at(project.calibration.view(), k) == row_at(before, k));
            }
        }
        i = i + 1;
    }
    assert(es.take(es.len() as int) =~= es);
    Ok(true)
}

/// The notice written into the acceptance file.
pub const ACCEPTANCE_NOTICE: &'static str = "By committing this file the named person accepts the req functional-safety disclaimer: req is an unqualified aid (IEC 61508-3 §7.4.4), the SIL is a candidate, the software is provided AS IS with no warranty or liability, and the safety determination remains the user's responsibility.";

/// The acceptance record that `accept` prepares.
pub open spec fn accepted_as(a: DisclaimerAcceptance, name: String, ctx: ActionContext, tool_version: Seq<char>) -> bool {
    &&& a.notice@ == ACCEPTANCE_NOTICE@
    &&& a.accepted_by == name
    &&& a.at == ctx.now
    &&& a.tool_version@ == tool_version
    &&& a.disclaimer_version@ == SAFETY_DISCLAIMER_VERSION@
}

/// What `accept` decides: see its doc comment.
pub open spec fn accept_outcome(name: Option<String>, ctx: ActionContext, tool_version: Seq<char>, r: Result<DisclaimerAcceptance, ReqError>) -> bool {
    if ctx.actor_kind == ActorKind::Agent {
        r matches Err(ReqError::HumanRequired)
    } else {
        match name {
            Some(n) if trim_seq(n@).len() > 0 => r is Ok && accepted_as(r->Ok_0, n, ctx, tool_version),
            _ => r matches Err(ReqError::NameRequired),
        }
    }
}

/// Decide `req safety accept-disclaimer`: a self-identified agent is
/// refused, and a non-blank name is required; otherwise the record to write
/// once a human confirms at a terminal.
pub fn accept(name: &Option<String>, ctx: &ActionContext, tool_version: &str) -> (r: Result<DisclaimerAcceptance, ReqError>)
    ensures
        accept_outcome(*name, *ctx, tool_version@, r),
{
    if matches!(ctx.actor_kind, ActorKind::Agent) {
        return Err(ReqError::HumanRequired);
    }
    let n = match name {
        Some(n) => {
            let cs = chars_of(n.as_str());
            if trim(&cs).len() == 0 {
                return Err(ReqError::NameRequired);
            }
            n.clone()
        },
        None => return Err(ReqError::NameRequired),
    };
    Ok(DisclaimerAcceptance {
        notice: string_of(&chars_of(ACCEPTANCE_NOTICE)),
        accepted_by: n,
        at: ctx.now.clone(),
        tool_version: string_of(&chars_of(tool_version)),
        disclaimer_version: string_of(&chars_of(SAFETY_DISCLAIMER_VERSION)),
    })
}

/// The governance state `req safety status` reports.
pub struct SafetyStatus {
    pub enabled: bool,
    pub acceptance: Option<DisclaimerAcceptance>,
    pub calibration_label: Option<String>,
    /// How many risk-graph leaves the project overrides.
    pub overrides: usize,
}

fn copy_acceptance(a: &DisclaimerAcceptance) -> (r: DisclaimerAcceptance)
    ensures
        r == *a,
{
    DisclaimerAcceptance {
        notice: a.notice.clone(),
        accepted_by: a.accepted_by.clone(),
        at: a.at.clone(),
        tool_version: a.tool_version.clone(),
        disclaimer_version: a.disclaimer_version.clone(),
    }
}

/// The status of a project (none when it could not be loaded) and its
/// acceptance record.
pub open spec fn status_of(s: SafetyStatus, project: Option<Project>, acceptance: Option<DisclaimerAcceptance>) -> bool {
    &&& s.enabled == enabled_spec(acceptance)
    &&& s.acceptance == acceptance
    &&& match project {
        Some(p) => s.calibration_label == p.calibration_label && s.overrides == p.calibration.view().len(),
        None => s.calibration_label.is_none() && s.overrides == 0,
    }
}

/// Report whether the features are enabled, who accepted, and the
/// calibration in use.
pub fn safety_status(project: Option<&Project>, acceptance: &Option<DisclaimerAcceptance>) -> (s: SafetyStatus)
    ensures
        status_of(s, match project { Some(p) => Some(*p), None => None }, *acceptance),
{
    let acc = match acceptance {
        Some(a) => Some(copy_acceptance(a)),
        None => None,
    };
    match project {
        Some(p) => SafetyStatus {
            enabled: is_enabled(acceptance),
            acceptance: acc,
            calibration_label: clone_opt(&p.calibration_label),
            overrides: p.calibration.len(),
        },
        None => SafetyStatus { enabled: is_enabled(acceptance), acceptance: acc, calibration_label: None, overrides: 0 },
    }
}

/// What a `req safety` subcommand comes to.
pub enum SafetyOutcome {
    /// The acceptance record to write once a human confirms.
    Accepted(DisclaimerAcceptance),
    Status(SafetyStatus),
    /// The calibration to print; `changed` when it was rewritten.
    Calibration { changed: bool },
}

/// Run a `req safety` subcommand against the loaded project.
pub fn run(cmd: &SafetyCmd, project: &mut Project, acceptance: &Option<DisclaimerAcceptance>, ctx: &ActionContext, tool_version: &str) -> (r: Result<SafetyOutcome, ReqError>)
    ensures
        match cmd {
            SafetyCmd::Accept(a) => *final(project) == *old(project) && match r {
                Ok(SafetyOutcome::Accepted(x)) => accept_outcome(a.name, *ctx, tool_version@, Ok(x)),
                Err(e) => accept_outcome(a.name, *ctx, tool_version@, Err(e)),
                _ => false,
            },
            SafetyCmd::Status(_) => *final(project) == *old(project) && match r {
                Ok(SafetyOutcome::Status(s)) => status_of(s, Some(*old(project)), *acceptance),
                _ => false,
            },
            SafetyCmd::Calibrate(a) => match r {
                Ok(SafetyOutcome::Calibration { changed }) => calibrated(*a, *old(project), *final(project), Ok(changed)),
                Err(e) => calibrated(*a, *old(project), *final(project), Err(e)),
                _ => false,
            },
        },
{
    match cmd {
        SafetyCmd::Accept(a) => match accept(&a.name, ctx, tool_version) {
            Ok(x) => Ok(SafetyOutcome::Accepted(x)),
            Err(e) => Err(e),
        },
        SafetyCmd::Status(_) => Ok(SafetyOutcome::Status(safety_status(Some(&*project), acceptance))),
        SafetyCmd::Calibrate(a) => match calibrate(a, project) {
            Ok(changed) => Ok(SafetyOutcome::Calibration { changed }),
            Err(e) => Err(e),
        },
    }
}

} // verus!
