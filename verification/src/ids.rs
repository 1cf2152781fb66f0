//! Identifier handling: normalising what a user typed (`req-1`, `REQ-0001`,
//! `1`) to the canonical `PREFIX-NNNN` form, resolving it against a project
//! with a did-you-mean suggestion, and the substantive-reason rule for
//! forced changes.
use vstd::prelude::*;

use crate::errors::ReqError;
use crate::idmap::{has_key, IdMap};
use crate::model::{Project, Requirement};
use crate::text::{pow10, ascii_upper_char, is_ascii_seq, is_digit, lemma_dec_seq_digits, lemma_pad_zeros_value, lemma_trim_fixed, lemma_trim_idempotent, all_ascii_digits, all_digits, chars_of, concat_chars, dec_padded, dec_seq, digits_value, is_prefix, lemma_zeros_value, pad_zeros, parse_uint, parse_uint_spec, starts_with, string_of, suffix_from, to_upper, trim, trim_seq, trimmed_char_count, upper_seq};

verus! {

/// Zero-padded four-digit rendering of `n`, as `{:04}` formats it.
pub open spec fn pad4(n: nat) -> Seq<char> {
    pad_zeros(dec_seq(n), 4)
}

/// How many `0` characters `d` starts with.
pub open spec fn lead_zeros(d: Seq<char>) -> nat
    decreases d.len(),
{
    if d.len() > 0 && d[0] == '0' {
        1 + lead_zeros(d.drop_first())
    } else {
        0
    }
}

/// `d` without its leading zeros.
pub open spec fn strip_zeros(d: Seq<char>) -> Seq<char> {
    d.skip(lead_zeros(d) as int)
}

/// The canonical requirement id for what a user typed: `REQ-` and the
/// number padded to four digits, when the trimmed input is `REQ-<digits>`
/// in any case or bare digits (a number too large for `u32` keeps all its
/// digits, leading zeros dropped). Any other input comes back trimmed,
/// unchanged otherwise.
pub open spec fn normalize_id_spec(raw: Seq<char>) -> Seq<char> {
    let t = trim_seq(raw);
    let up = upper_seq(t);
    let digits: Option<Seq<char>> = if is_prefix("REQ-"@, up) {
        Some(up.subrange(4, up.len() as int))
    } else if all_digits(t) && t.len() > 0 {
        Some(t)
    } else {
        None
    };
    match digits {
        None => t,
        Some(d) => if d.len() == 0 || !all_digits(d) {
            t
        } else {
            match parse_uint_spec(d, u32::MAX as nat) {
                Some(n) => "REQ-"@ + pad4(n),
                None => "REQ-"@ + strip_zeros(d),
            }
        },
    }
}

/// The leading zeros of `d` are all `0`, and the character after them is not.
proof fn lemma_lead_zeros(d: Seq<char>)
    ensures
        lead_zeros(d) <= d.len(),
        forall|i: int| 0 <= i < lead_zeros(d) ==> d[i] == '0',
        lead_zeros(d) < d.len() ==> d[lead_zeros(d) as int] != '0',
    decreases d.len(),
{
    if d.len() > 0 && d[0] == '0' {
        lemma_lead_zeros(d.drop_first());
        assert forall|i: int| 0 <= i < lead_zeros(d) implies d[i] == '0' by {
            if i > 0 {
                assert(d[i] == d.drop_first()[i - 1]);
            }
        }
    }
}

/// Dropping leading zeros keeps a digit string's value and its digits, and
/// leaves nothing more to drop.
proof fn lemma_strip_zeros(d: Seq<char>)
    requires
        all_digits(d),
    ensures
        digits_value(strip_zeros(d)) == digits_value(d),
        all_digits(strip_zeros(d)),
        strip_zeros(strip_zeros(d)) == strip_zeros(d),
        strip_zeros(d).len() > 0 ==> strip_zeros(d)[0] != '0',
{
    lemma_lead_zeros(d);
    let k = lead_zeros(d) as int;
    let z = d.take(k);
    let s = d.skip(k);
    assert(d =~= z + s);
    lemma_zeros_value(z, s);
    assert(digits_value(z) * pow10(s.len()) == 0);
    if s.len() > 0 {
        assert(s[0] == d[k]);
    }
    assert(lead_zeros(s) == 0);
    assert(s.skip(0) =~= s);
}

/// `d` with its leading zeros dropped, scanning from the front.
fn drop_leading_zeros(d: &Vec<char>) -> (r: Vec<char>)
    ensures
        r@ == strip_zeros(d@),
{
    let mut k: usize = 0;
    assert(d@.skip(0) =~= d@);
    while k < d.len() && d[k] == '0'
        invariant
            k <= d@.len(),
            k + lead_zeros(d@.skip(k as int)) == lead_zeros(d@),
        decreases d@.len() - k,
    {
        assert(d@.skip(k as int).drop_first() =~= d@.skip(k + 1));
        k = k + 1;
    }
    assert(lead_zeros(d@.skip(k as int)) == 0);
    suffix_from(d, k)
}

fn req_prefix() -> (r: Vec<char>)
    ensures
        r@ == "REQ-"@,
        r@.len() == 4,
{
    proof {
        reveal_strlit("REQ-");
    }
    let v = chars_of("REQ-");
    v
}

/// `prefix` followed by `n` zero-padded to four digits.
fn prefixed_number(prefix: &Vec<char>, n: u64) -> (r: String)
    ensures
        r@ == prefix@ + pad4(n as nat),
{
    let d = dec_padded(n, 4);
    let all = concat_chars(prefix, &d);
    string_of(&all)
}

/// Normalise a user-typed requirement id to the canonical `REQ-NNNN`
/// (`req-1`, `REQ-1`, `1` all give `REQ-0001`; `REQ-99999999999` stays as
/// it is); input that does not look like a requirement id is returned
/// trimmed.
pub fn normalize_id(raw: &str) -> (r: String)
    ensures
        r@ == normalize_id_spec(raw@),
{
    let rv = chars_of(raw);
    let t = trim(&rv);
    let ts = string_of(&t);
    let upper = to_upper(ts.as_str());
    let uv = chars_of(upper.as_str());
    let pre = req_prefix();
    let digits: Vec<char> = if starts_with(&uv, &pre) {
        suffix_from(&uv, 4)
    } else if all_ascii_digits(&t) && t.len() > 0 {
        t.clone()
    } else {
        return ts;
    };
    if digits.len() == 0 || !all_ascii_digits(&digits) {
        return ts;
    }
    match parse_uint(&digits, 0xffff_ffff) {
        Some(n) => prefixed_number(&pre, n),
        None => {
            let z = drop_leading_zeros(&digits);
            string_of(&concat_chars(&pre, &z))
        },
    }
}

/// Canonical `PREFIX-NNNN` for an id of the family `prefix` (`HAZ`, `SF`,
/// `SR`): the trimmed, uppercased input with `PREFIX-` stripped (or the
/// bare digits) must parse as a `u32`; anything else comes back uppercased.
pub open spec fn norm_id_spec(prefix: Seq<char>, raw: Seq<char>) -> Seq<char> {
    let t = trim_seq(raw);
    let up = upper_seq(t);
    let want = prefix + "-"@;
    let digits: Option<Seq<char>> = if is_prefix(want, up) {
        Some(up.subrange(want.len() as int, up.len() as int))
    } else if all_digits(t) && t.len() > 0 {
        Some(t)
    } else {
        None
    };
    match digits {
        None => up,
        Some(d) => match parse_uint_spec(d, u32::MAX as nat) {
            Some(n) => want + pad4(n),
            None => up,
        },
    }
}

/// Normalise a typed id of the family `prefix` (`HAZ`, `SF`, `SR`) to its
/// canonical `PREFIX-NNNN`.
pub fn norm_id(prefix: &str, raw: &str) -> (r: String)
    ensures
        r@ == norm_id_spec(prefix@, raw@),
{
    let rv = chars_of(raw);
    let t = trim(&rv);
    let ts = string_of(&t);
    let upper = to_upper(ts.as_str());
    let uv = chars_of(upper.as_str());
    let pv = chars_of(prefix);
    let dash = chars_of("-");
    let want = concat_chars(&pv, &dash);
    let digits: Vec<char> = if starts_with(&uv, &want) {
        suffix_from(&uv, want.len())
    } else if all_ascii_digits(&t) && t.len() > 0 {
        t.clone()
    } else {
        return upper;
    };
    match parse_uint(&digits, 0xffff_ffff) {
        Some(n) => prefixed_number(&want, n),
        None => upper,
    }
}

/// Does `s`, uppercased, read `REQ-` followed by one or more ASCII digits?
pub open spec fn looks_like_req_id_spec(s: Seq<char>) -> bool {
    let up = upper_seq(s);
    is_prefix("REQ-"@, up) && up.len() > 4 && all_digits(up.subrange(4, up.len() as int))
}

/// Whether `s` looks like a requirement id (`REQ-` and digits, any case).
pub fn looks_like_req_id(s: &str) -> (b: bool)
    ensures
        b == looks_like_req_id_spec(s@),
{
    let up = to_upper(s);
    let uv = chars_of(up.as_str());
    let pre = req_prefix();
    if !starts_with(&uv, &pre) {
        return false;
    }
    let rest = suffix_from(&uv, 4);
    rest.len() > 0 && all_ascii_digits(&rest)
}

/// `REQ-` followed by one or more digits has no whitespace and no
/// lowercase, and its digits follow the prefix.
proof fn lemma_req_shape(z: Seq<char>)
    requires
        all_digits(z),
        z.len() >= 1,
    ensures
        ({
            let r = "REQ-"@ + z;
            &&& trim_seq(r) == r
            &&& upper_seq(r) == r
            &&& is_prefix("REQ-"@, r)
            &&& r.subrange(4, r.len() as int) == z
        }),
{
    reveal_strlit("REQ-");
    let r = "REQ-"@ + z;
    assert(r[0] == 'R');
    assert(r[r.len() - 1] == z[z.len() - 1]);
    assert(is_digit(z[z.len() - 1]));
    lemma_trim_fixed(r);
    assert(is_ascii_seq(r)) by {
        assert forall|i: int| 0 <= i < r.len() implies (r[i] as u32) < 128 by {
            if i >= 4 {
                assert(r[i] == z[i - 4]);
                assert(is_digit(z[i - 4]));
            }
        }
    }
    assert(r.map_values(|c: char| ascii_upper_char(c)) =~= r) by {
        assert forall|i: int| 0 <= i < r.len() implies ascii_upper_char(r[i]) == r[i] by {
            if i >= 4 {
                assert(r[i] == z[i - 4]);
                assert(is_digit(z[i - 4]));
            }
        }
    }
    assert(r.subrange(0, 4) =~= "REQ-"@);
    assert(r.subrange(4, r.len() as int) =~= z);
}

/// A canonical id `REQ-` + four or more digits has no whitespace, no
/// lowercase, and reads back as the number it was made from.
proof fn lemma_canonical_shape(n: nat)
    requires
        n <= u32::MAX,
    ensures
        ({
            let r = "REQ-"@ + pad4(n);
            &&& trim_seq(r) == r
            &&& upper_seq(r) == r
            &&& is_prefix("REQ-"@, r)
            &&& r.subrange(4, r.len() as int) == pad4(n)
            &&& parse_uint_spec(pad4(n), u32::MAX as nat) == Some(n)
        }),
{
    let d = pad4(n);
    lemma_dec_seq_digits(n);
    lemma_pad_zeros_value(dec_seq(n), 4);
    lemma_req_shape(d);
    assert(is_digit(d[0]));
}

/// Normalising twice is normalising once: a canonical id, and any text
/// that is not an id, normalise to themselves.
pub proof fn lemma_normalize_id_idempotent(raw: Seq<char>)
    ensures
        normalize_id_spec(normalize_id_spec(raw)) == normalize_id_spec(raw),
{
    let t = trim_seq(raw);
    let r = normalize_id_spec(raw);
    lemma_trim_idempotent(raw);
    if r != t {
        let up = upper_seq(t);
        let d: Seq<char> = if is_prefix("REQ-"@, up) { up.subrange(4, up.len() as int) } else { t };
        match parse_uint_spec(d, u32::MAX as nat) {
            Some(n) => {
                assert(r == "REQ-"@ + pad4(n));
                lemma_canonical_shape(n);
            },
            None => {
                let z = strip_zeros(d);
                assert(r == "REQ-"@ + z);
                lemma_strip_zeros(d);
                assert(is_digit(d[0]));
                assert(digits_value(d) > u32::MAX);
                assert(z.len() >= 1);
                assert(is_digit(z[0]));
                lemma_req_shape(z);
                assert(parse_uint_spec(z, u32::MAX as nat) is None);
            },
        }
    }
}

// ---------------------------------------------------------------------------
// Resolution against a project
// ---------------------------------------------------------------------------

/// What `str::parse::<i64>` gives: an optional sign, then one or more ASCII
/// digits, within the range of `i64`.
pub open spec fn parse_i64_spec(s: Seq<char>) -> Option<int> {
    if s.len() > 0 && s[0] == '-' {
        let body = s.drop_first();
        if body.len() > 0 && all_digits(body) && digits_value(body) <= 0x8000_0000_0000_0000 {
            Some(-(digits_value(body) as int))
        } else {
            None
        }
    } else {
        match parse_uint_spec(s, 0x7fff_ffff_ffff_ffff) {
            Some(v) => Some(v as int),
            None => None,
        }
    }
}

/// Parse a signed 64-bit decimal integer as `str::parse::<i64>` does.
pub fn parse_i64(s: &[char]) -> (r: Option<i128>)
    ensures
        match parse_i64_spec(s@) {
            Some(v) => r == Some(v as i128),
            None => r.is_none(),
        },
{
    if s.len() > 0 && s[0] == '-' {
        let body = suffix_from(s, 1);
        assert(body@ =~= s@.drop_first());
        if body.len() == 0 || !all_ascii_digits(&body) {
            return None;
        }
        proof {
            assert(parse_uint_spec(body@, 0x8000_0000_0000_0000) == Some(digits_value(body@)) || digits_value(body@) > 0x8000_0000_0000_0000);
        }
        match parse_uint(&body, 0x8000_0000_0000_0000) {
            Some(v) => {
                assert(body@[0] != '+');
                Some(-(v as i128))
            },
            None => {
                assert(body@[0] != '+');
                None
            },
        }
    } else {
        match parse_uint(s, 0x7fff_ffff_ffff_ffff) {
            Some(v) => Some(v as i128),
            None => None,
        }
    }
}

/// The number in a `REQ-<n>` id, if it has one.
pub open spec fn req_number(id: Seq<char>) -> Option<int> {
    if is_prefix("REQ-"@, id) {
        parse_i64_spec(id.subrange(4, id.len() as int))
    } else {
        None
    }
}

pub open spec fn abs_diff(a: int, b: int) -> int {
    if a >= b { a - b } else { b - a }
}

/// Over the requirements `s` (in id order), the id whose number is
/// closest to `t` and that distance; the first such id on ties.
pub open spec fn nearest_fold(s: Seq<Requirement>, t: int) -> Option<(Seq<char>, int)>
    decreases s.len(),
{
    if s.len() == 0 {
        None
    } else {
        let prev = nearest_fold(s.drop_last(), t);
        let id = s.last().id@;
        match req_number(id) {
            None => prev,
            Some(n) => {
                let d = abs_diff(n, t);
                match prev {
                    None => Some((id, d)),
                    Some(p) => if d < p.1 { Some((id, d)) } else { prev },
                }
            },
        }
    }
}

/// The suggested id for an unknown `target`: the numerically nearest
/// existing `REQ-<n>` id, when it lies within 5.
pub open spec fn nearest_id_spec(reqs: Seq<Requirement>, target: Seq<char>) -> Option<Seq<char>> {
    match req_number(target) {
        None => None,
        Some(t) => match nearest_fold(reqs, t) {
            Some(p) => if p.1 <= 5 { Some(p.0) } else { None },
            None => None,
        },
    }
}

fn req_number_of(id: &str) -> (r: Option<i128>)
    ensures
        match req_number(id@) {
            Some(v) => r == Some(v as i128),
            None => r.is_none(),
        },
{
    let v = chars_of(id);
    let pre = req_prefix();
    if !starts_with(&v, &pre) {
        return None;
    }
    let rest = suffix_from(&v, 4);
    parse_i64(&rest)
}

/// The existing id closest to `target`, for a did-you-mean hint.
pub fn nearest_id(project: &Project, target: &str) -> (r: Option<String>)
    ensures
        match nearest_id_spec(project.requirements.view(), target@) {
            Some(k) => r.is_some() && r.unwrap()@ == k,
            None => r.is_none(),
        },
{
    let t = match req_number_of(target) {
        Some(t) => t,
        None => return None,
    };
    let reqs = &project.requirements;
    let mut best: Option<(String, i128)> = None;
    let mut i: usize = 0;
    let n = reqs.len();
    while i < n
        invariant
            n == reqs.view().len(),
            i <= n,
            -0x8000_0000_0000_0000 <= t <= 0x7fff_ffff_ffff_ffff,
            match nearest_fold(reqs.view().subrange(0, i as int), t as int) {
                Some(p) => best.is_some() && best.unwrap().0@ == p.0 && best.unwrap().1 == p.1,
                None => best.is_none(),
            },
        decreases n - i,
    {
        let r = reqs.at(i);
        let ghost pre = reqs.view().subrange(0, i as int);
        let ghost nxt = reqs.view().subrange(0, i + 1);
        assert(nxt.drop_last() =~= pre);
        assert(nxt.last() == *r);
        match req_number_of(r.id.as_str()) {
            None => {},
            Some(k) => {
                let d: i128 = if k >= t { k - t } else { t - k };
                let replace = match &best {
                    None => true,
                    Some(b) => d < b.1,
                };
                if replace {
                    best = Some((r.id.clone(), d));
                }
            },
        }
        i = i + 1;
    }
    assert(reqs.view().subrange(0, n as int) =~= reqs.view());
    match best {
        Some(b) => if b.1 <= 5 { Some(b.0) } else { None },
        None => None,
    }
}

/// Resolve a typed requirement id against the project: its canonical
/// form when that requirement exists, else a not-found error carrying the
/// nearest existing id as a suggestion.
pub fn resolve_id(project: &Project, raw: &str) -> (r: Result<String, ReqError>)
    ensures
        has_key(project.requirements.view(), normalize_id_spec(raw@)) ==> r.is_ok() && r.unwrap()@ == normalize_id_spec(raw@),
        !has_key(project.requirements.view(), normalize_id_spec(raw@)) ==> match r {
            Err(e) => req_not_found(project.requirements.view(), raw@, e),
            Ok(_) => false,
        },
{
    let canonical = normalize_id(raw);
    if project.requirements.contains_key(canonical.as_str()) {
        return Ok(canonical);
    }
    let suggestion = nearest_id(project, canonical.as_str());
    Err(ReqError::NoSuchRequirement { raw: string_of(&chars_of(raw)), suggestion })
}

/// `e` reports that no requirement answers to `raw`, quoting it as typed
/// and suggesting the nearest existing id when there is one.
pub open spec fn req_not_found(reqs: Seq<Requirement>, raw: Seq<char>, e: ReqError) -> bool {
    match e {
        ReqError::NoSuchRequirement { raw: got, suggestion } => got@ == raw && match nearest_id_spec(reqs, normalize_id_spec(raw)) {
            Some(k) => suggestion.is_some() && suggestion.unwrap()@ == k,
            None => suggestion.is_none(),
        },
        _ => false,
    }
}

/// A forced, irregular change needs a reason of at least `min_len`
/// characters once trimmed; a missing reason counts as empty.
pub fn ensure_force_reason(reason: &Option<String>, min_len: usize) -> (r: Result<(), ReqError>)
    ensures
        ({
            let len = match reason {
                Some(s) => trim_seq(s@).len(),
                None => 0,
            };
            if len < min_len {
                r == Err::<(), ReqError>(ReqError::ForceReasonTooShort { min_len, got: len as usize })
            } else {
                r is Ok
            }
        }),
{
    let len: usize = match reason {
        Some(s) => trimmed_char_count(s.as_str()),
        None => 0,
    };
    if len < min_len {
        return Err(ReqError::ForceReasonTooShort { min_len, got: len });
    }
    Ok(())
}


// ---------------------------------------------------------------------------
// Allocating a new id
// ---------------------------------------------------------------------------

/// The number of a `REQ-<digits>` id, when it fits in `u32`.
pub open spec fn issued_number(id: Seq<char>) -> Option<nat> {
    if is_prefix("REQ-"@, id) { parse_uint_spec(id.subrange(4, id.len() as int), u32::MAX as nat) } else { None }
}

/// The largest issued number among `reqs` (0 when none).
pub open spec fn max_issued(reqs: Seq<Requirement>) -> nat
    decreases reqs.len(),
{
    if reqs.len() == 0 {
        0
    } else {
        let m = max_issued(reqs.drop_last());
        match issued_number(reqs.last().id@) {
            Some(n) => if n > m { n } else { m },
            None => m,
        }
    }
}

/// The id for a new requirement: one past the largest number in use.
pub open spec fn next_id_spec(reqs: Seq<Requirement>) -> Seq<char> {
    "REQ-"@ + pad4(max_issued(reqs) + 1)
}

proof fn lemma_max_issued_bound(reqs: Seq<Requirement>)
    ensures
        max_issued(reqs) <= u32::MAX,
        forall|i: int| 0 <= i < reqs.len() ==> match issued_number(#[trigger] reqs[i].id@) {
            Some(n) => n <= max_issued(reqs),
            None => true,
        },
    decreases reqs.len(),
{
    if reqs.len() > 0 {
        lemma_max_issued_bound(reqs.drop_last());
        assert forall|i: int| 0 <= i < reqs.len() implies match issued_number(#[trigger] reqs[i].id@) {
            Some(n) => n <= max_issued(reqs),
            None => true,
        } by {
            if i < reqs.len() - 1 {
                assert(reqs[i] == reqs.drop_last()[i]);
            }
        }
    }
}

/// The id `allocate_id` hands out for a new requirement.
pub fn allocate_id(project: &Project) -> (id: String)
    ensures
        id@ == next_id_spec(project.requirements.view()),
{
    let n = project.requirements.len();
    let ghost s = project.requirements.view();
    let prefix = req_prefix();
    let mut m: u64 = 0;
    let mut i: usize = 0;
    while i < n
        invariant
            n == s.len(),
            s == project.requirements.view(),
            prefix@ == "REQ-"@,
            prefix@.len() == 4,
            i <= n,
            m == max_issued(s.take(i as int)),
            m <= u32::MAX,
        decreases n - i,
    {
        let r = project.requirements.at(i);
        assert(s.take(i + 1).drop_last() =~= s.take(i as int));
        assert(s.take(i + 1).last() == s[i as int]);
        let v = chars_of(r.id.as_str());
        if starts_with(&v, &prefix) {
            assert(v@.len() >= 4);
            let rest = suffix_from(&v, 4);
            assert(rest@ =~= r.id@.subrange(4, r.id@.len() as int));
            match parse_uint(&rest, u32::MAX as u64) {
                Some(k) => if k > m {
                    m = k;
                },
                None => {},
            }
        }
        i = i + 1;
    }
    assert(s.take(n as int) =~= s);
    prefixed_number(&prefix, m + 1)
}

/// A new id is not in use, so long as every `REQ-<digits>` id in use has a
/// number that fits in `u32` (as every id the tool issues does).
pub proof fn lemma_allocated_id_fresh(reqs: Seq<Requirement>)
    requires
        forall|i: int| 0 <= i < reqs.len() && is_prefix("REQ-"@, #[trigger] reqs[i].id@) && reqs[i].id@.len() > 4
            && all_digits(reqs[i].id@.subrange(4, reqs[i].id@.len() as int)) ==> issued_number(reqs[i].id@).is_some(),
    ensures
        forall|i: int| 0 <= i < reqs.len() ==> (#[trigger] reqs[i]).id@ != next_id_spec(reqs),
{
    reveal_strlit("REQ-");
    lemma_max_issued_bound(reqs);
    let n = max_issued(reqs) + 1;
    lemma_dec_seq_digits(n);
    lemma_pad_zeros_value(dec_seq(n), 4);
    let id = next_id_spec(reqs);
    assert(id.subrange(0, 4) =~= "REQ-"@);
    assert(is_prefix("REQ-"@, id));
    assert(id.subrange(4, id.len() as int) =~= pad4(n));
    assert forall|i: int| 0 <= i < reqs.len() implies (#[trigger] reqs[i]).id@ != id by {
        if reqs[i].id@ == id {
            assert(all_digits(pad4(n)));
            assert(pad4(n).len() > 0);
            assert(issued_number(reqs[i].id@).is_some());
            if n <= u32::MAX {
                assert(issued_number(id) == Some(n));
            }
        }
    }
}


/// The number of a `<prefix>-<digits>` id, when it fits in `u32`.
pub open spec fn prefixed_number_of(prefix: Seq<char>, id: Seq<char>) -> Option<nat> {
    let want = prefix + "-"@;
    if is_prefix(want, id) { parse_uint_spec(id.subrange(want.len() as int, id.len() as int), u32::MAX as nat) } else { None }
}

/// The largest `<prefix>-<n>` number among the keys of `s` (0 when none).
pub open spec fn max_prefixed<T: crate::idmap::Keyed>(s: Seq<T>, prefix: Seq<char>) -> nat
    decreases s.len(),
{
    if s.len() == 0 {
        0
    } else {
        let m = max_prefixed(s.drop_last(), prefix);
        match prefixed_number_of(prefix, s.last().key()) {
            Some(n) => if n > m { n } else { m },
            None => m,
        }
    }
}

/// The id for a new item of family `prefix`: one past the largest number in use.
pub open spec fn next_prefixed<T: crate::idmap::Keyed>(s: Seq<T>, prefix: Seq<char>) -> Seq<char> {
    prefix + "-"@ + pad4(max_prefixed(s, prefix) + 1)
}

proof fn lemma_max_prefixed_bound<T: crate::idmap::Keyed>(s: Seq<T>, prefix: Seq<char>)
    ensures
        max_prefixed(s, prefix) <= u32::MAX,
    decreases s.len(),
{
    if s.len() > 0 {
        lemma_max_prefixed_bound(s.drop_last(), prefix);
    }
}

/// The largest `<prefix>-<n>` number among the ids of `m` (0 when none).
pub fn max_number<T: crate::idmap::Keyed>(m: &IdMap<T>, prefix: &str) -> (mx: u64)
    ensures
        mx == max_prefixed(m.view(), prefix@),
        mx <= u32::MAX,
{
    let n = m.len();
    let ghost s = m.view();
    let pv = chars_of(prefix);
    let dash = chars_of("-");
    let want = concat_chars(&pv, &dash);
    let mut mx: u64 = 0;
    let mut i: usize = 0;
    proof {
        lemma_max_prefixed_bound(s.take(0), prefix@);
    }
    while i < n
        invariant
            n == s.len(),
            s == m.view(),
            want@ == prefix@ + "-"@,
            i <= n,
            mx == max_prefixed(s.take(i as int), prefix@),
            mx <= u32::MAX,
        decreases n - i,
    {
        let e = m.at(i);
        assert(s.take(i + 1).drop_last() =~= s.take(i as int));
        assert(s.take(i + 1).last() == s[i as int]);
        let v = chars_of(e.key_str());
        if starts_with(&v, &want) {
            let rest = suffix_from(&v, want.len());
            assert(rest@ =~= s[i as int].key().subrange(want@.len() as int, s[i as int].key().len() as int));
            match parse_uint(&rest, u32::MAX as u64) {
                Some(k) => if k > mx {
                    mx = k;
                },
                None => {},
            }
        }
        i = i + 1;
    }
    assert(s.take(n as int) =~= s);
    mx
}

/// The id a new hazard, safety function or safety requirement gets.
pub fn allocate_prefixed<T: crate::idmap::Keyed>(m: &IdMap<T>, prefix: &str) -> (id: String)
    ensures
        id@ == next_prefixed(m.view(), prefix@),
{
    let mx = max_number(m, prefix);
    let pv = chars_of(prefix);
    let dash = chars_of("-");
    let want = concat_chars(&pv, &dash);
    let d = dec_padded(mx + 1, 4);
    let all = concat_chars(&want, &d);
    string_of(&all)
}

} // verus!
