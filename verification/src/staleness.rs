//! Evidence staleness: whether a test record or a validation anchor still
//! describes the source as it is now, and the content hash that anchors it.
use vstd::prelude::*;

use crate::idmap::{IdMap, Keyed};
use crate::text::{chars_of, dec_string, join, join_seq, str_eq, string_of, views};

verus! {

/// The result of a SHA-256 digest of `data`.
pub uninterp spec fn sha256_of(data: Seq<u8>) -> Seq<u8>;

/// `sha2::Sha256::digest`: the SHA-256 digest of `data`, 32 bytes.
#[verifier::external_body]
pub(crate) fn sha256(data: &[u8]) -> (r: Vec<u8>)
    ensures
        r@ == sha256_of(data@),
        r@.len() == 32,
{
    <sha2::Sha256 as sha2::Digest>::digest(data).to_vec()
}

/// Three-state (plus unknown) staleness of a piece of evidence.
#[derive(Clone, Debug)]
pub enum Staleness {
    /// The evidence matches the current source (or the current commit).
    Fresh,
    /// HEAD moved but none of the linked files changed; `linked` counts them.
    Drifted { linked: usize },
    /// At least one linked file changed since the evidence was recorded.
    Stale { changed: Vec<String>, linked: usize },
    /// No git context: neither fresh nor stale can be judged.
    Unknown,
}

pub open spec fn hex_digit(d: nat) -> char {
    if d < 10 {
        (('0' as u32) + d) as char
    } else {
        (('a' as u32) + d - 10) as char
    }
}

/// Lowercase hexadecimal rendering, two digits per byte (`{:x}`).
pub open spec fn hex_seq(b: Seq<u8>) -> Seq<char>
    decreases b.len(),
{
    if b.len() == 0 {
        Seq::empty()
    } else {
        hex_seq(b.drop_last()) + seq![hex_digit((b.last() / 16) as nat), hex_digit((b.last() % 16) as nat)]
    }
}

fn hex_digit_exec(d: u8) -> (c: char)
    requires
        d < 16,
    ensures
        c == hex_digit(d as nat),
{
    if d < 10 {
        ((('0' as u8) + d) as char)
    } else {
        ((('a' as u8) + d - 10) as char)
    }
}

/// Lowercase hexadecimal rendering of `b`.
pub fn to_hex(b: &[u8]) -> (r: String)
    ensures
        r@ == hex_seq(b@),
{
    let mut out: Vec<char> = Vec::new();
    let mut i: usize = 0;
    while i < b.len()
        invariant
            i <= b@.len(),
            out@ == hex_seq(b@.subrange(0, i as int)),
        decreases b@.len() - i,
    {
        let ghost pre = b@.subrange(0, i as int);
        let ghost nxt = b@.subrange(0, i + 1);
        assert(nxt.drop_last() =~= pre);
        out.push(hex_digit_exec(b[i] / 16));
        out.push(hex_digit_exec(b[i] % 16));
        assert(out@ =~= hex_seq(nxt));
        i = i + 1;
    }
    assert(b@.subrange(0, b@.len() as int) =~= b@);
    string_of(&out)
}

/// A linked file and its bytes as they are now (`None` when unreadable).
pub struct FileContent {
    pub path: String,
    pub bytes: Option<Vec<u8>>,
}

/// The bytes hashed for a list of files: for each, its path, a NUL byte,
/// its contents (nothing when unreadable) and a newline. The path is always
/// included, so a deletion and a same-content rename differ.
pub open spec fn hash_input(files: Seq<FileContent>) -> Seq<u8>
    decreases files.len(),
{
    if files.len() == 0 {
        Seq::empty()
    } else {
        let f = files.last();
        hash_input(files.drop_last()) + vstd::utf8::encode_utf8(f.path@) + seq![0u8] + (match f.bytes {
            Some(b) => b@,
            None => Seq::empty(),
        }) + seq![10u8]
    }
}

pub(crate) fn append_bytes(out: &mut Vec<u8>, b: &[u8])
    ensures
        final(out)@ == old(out)@ + b@,
{
    let mut i: usize = 0;
    while i < b.len()
        invariant
            i <= b@.len(),
            out@ == old(out)@ + b@.subrange(0, i as int),
        decreases b@.len() - i,
    {
        out.push(b[i]);
        assert(b@.subrange(0, i + 1) =~= b@.subrange(0, i as int).push(b@[i as int]));
        i = i + 1;
    }
    assert(b@.subrange(0, b@.len() as int) =~= b@);
}


/// Hash a list of files: SHA-256 over each file's path, a NUL byte, its
/// contents and a newline, rendered as lowercase hex.
pub fn hash_files(files: &Vec<FileContent>) -> (r: String)
    ensures
        r@ == hex_seq(sha256_of(hash_input(files@))),
{
    let mut data: Vec<u8> = Vec::new();
    let mut i: usize = 0;
    while i < files.len()
        invariant
            i <= files@.len(),
            data@ == hash_input(files@.subrange(0, i as int)),
        decreases files@.len() - i,
    {
        let f = &files[i];
        let ghost pre = files@.subrange(0, i as int);
        let ghost nxt = files@.subrange(0, i + 1);
        assert(nxt.drop_last() =~= pre);
        assert(nxt.last() == *f);
        append_bytes(&mut data, f.path.as_str().as_bytes());
        data.push(0u8);
        match &f.bytes {
            Some(b) => append_bytes(&mut data, b.as_slice()),
            None => {},
        }
        data.push(10u8);
        proof {
            let fb: Seq<u8> = match &f.bytes {
                Some(b) => b@,
                None => Seq::empty(),
            };
            assert(data@ =~= hash_input(pre) + vstd::utf8::encode_utf8(f.path@) + seq![0u8] + fb + seq![10u8]);
        }
        i = i + 1;
    }
    assert(files@.subrange(0, files@.len() as int) =~= files@);
    let digest = sha256(data.as_slice());
    to_hex(digest.as_slice())
}

/// The staleness of a content anchor. `files` are the files the anchor
/// covers (its recorded list, else those found referencing the id) and
/// `current_hash` their hash now: fresh when that equals the stored hash;
/// otherwise stale, naming those files, or drifted when there are none.
pub fn staleness_by_content(stored_hash: &str, files: &Vec<String>, current_hash: &str) -> (r: Staleness)
    ensures
        current_hash@ == stored_hash@ ==> r is Fresh,
        current_hash@ != stored_hash@ && files@.len() == 0 ==> r == (Staleness::Drifted { linked: 0 }),
        current_hash@ != stored_hash@ && files@.len() > 0 ==> match r {
            Staleness::Stale { changed, linked } => changed@ == files@ && linked == files@.len(),
            _ => false,
        },
{
    if str_eq(current_hash, stored_hash) {
        Staleness::Fresh
    } else if files.len() == 0 {
        Staleness::Drifted { linked: 0 }
    } else {
        let changed = files.clone();
        Staleness::Stale { linked: changed.len(), changed }
    }
}

/// The first nine characters of a commit id (all of it when shorter).
pub open spec fn short_spec(sha: Seq<char>) -> Seq<char> {
    if sha.len() <= 9 { sha } else { sha.subrange(0, 9) }
}

/// Abbreviate a commit id to nine characters.
pub fn short(sha: &str) -> (r: String)
    ensures
        r@ == short_spec(sha@),
{
    let v = chars_of(sha);
    if v.len() <= 9 {
        string_of(&v)
    } else {
        let p = crate::text::prefix_upto(&v, 9);
        string_of(&p)
    }
}

impl Staleness {
    pub open spec fn tag_spec(&self) -> Seq<char> {
        match self {
            Staleness::Fresh => "[matches HEAD]"@,
            Staleness::Drifted { linked } => if *linked == 0 {
                "[drifted — no linked files]"@
            } else {
                "[drifted — no changes to "@ + crate::text::dec_seq(*linked as nat) + " linked file(s)]"@
            },
            Staleness::Stale { changed, .. } => "[STALE — changed: "@ + join_seq(views(changed@), ", "@) + "]"@,
            Staleness::Unknown => "[HEAD unknown]"@,
        }
    }

    /// The bracketed label `req stale` prints for this staleness.
    pub fn tag(&self) -> (r: String)
        ensures
            r@ == self.tag_spec(),
    {
        match self {
            Staleness::Fresh => string_of(&chars_of("[matches HEAD]")),
            Staleness::Drifted { linked } => if *linked == 0 {
                string_of(&chars_of("[drifted — no linked files]"))
            } else {
                let mut s = string_of(&chars_of("[drifted — no changes to "));
                let n = dec_string(*linked as u64);
                s.append(n.as_str());
                s.append(" linked file(s)]");
                s
            },
            Staleness::Stale { changed, .. } => {
                let mut s = string_of(&chars_of("[STALE — changed: "));
                let j = join(changed, ", ");
                s.append(j.as_str());
                s.append("]");
                s
            },
            Staleness::Unknown => string_of(&chars_of("[HEAD unknown]")),
        }
    }
}


/// A linked file counts as changed when a changed path (slashes forward)
/// ends with it, or it ends with a changed path as given.
pub open spec fn touched(f: Seq<char>, changed: Seq<Seq<char>>) -> bool {
    exists|k: int| 0 <= k < changed.len() && (crate::text::is_suffix(f, crate::validation::forward_slashed(#[trigger] changed[k]))
        || crate::text::is_suffix(changed[k], f))
}

/// The linked files (slashes forward) that changed.
pub open spec fn overlap_set(linked: Seq<Seq<char>>, changed: Seq<Seq<char>>) -> Set<Seq<char>> {
    Set::new(|f: Seq<char>| exists|i: int| 0 <= i < linked.len() && f == crate::validation::forward_slashed(#[trigger] linked[i])
        && touched(f, changed))
}

fn is_touched(f: &str, changed: &Vec<String>) -> (b: bool)
    ensures
        b == touched(f@, views(changed@)),
{
    let fv = chars_of(f);
    let mut k: usize = 0;
    while k < changed.len()
        invariant
            k <= changed@.len(),
            fv@ == f@,
            forall|q: int| 0 <= q < k ==> !(crate::text::is_suffix(f@, crate::validation::forward_slashed(#[trigger] views(changed@)[q]))
                || crate::text::is_suffix(views(changed@)[q], f@)),
        decreases changed@.len() - k,
    {
        let c = crate::validation::to_forward_slashes(changed[k].as_str());
        let cv = chars_of(c.as_str());
        let raw = chars_of(changed[k].as_str());
        assert(views(changed@)[k as int] == changed@[k as int]@);
        if crate::text::ends_with(&cv, &fv) || crate::text::ends_with(&fv, &raw) {
            return true;
        }
        k = k + 1;
    }
    false
}

/// Staleness of a test record judged by git: unknown without a HEAD; fresh
/// when HEAD is the recorded commit; unknown when the changes since that
/// commit cannot be listed; otherwise stale, naming the linked files that
/// changed (slashes forward, sorted, once each), or drifted when none did.
/// `linked` are the files that reference the requirement and `changed` the
/// paths git reports changed since the recorded commit.
pub fn staleness(head: Option<&str>, record_commit: &str, linked: &Vec<String>, changed: Option<&Vec<String>>) -> (r: Staleness)
    ensures
        match head {
            None => r is Unknown,
            Some(h) => if h@ == record_commit@ {
                r is Fresh
            } else {
                match changed {
                    None => r is Unknown,
                    Some(c) => {
                        let o = overlap_set(views(linked@), views(c@));
                        match r {
                            Staleness::Drifted { linked: n } => o.is_empty() && n == linked@.len(),
                            Staleness::Stale { changed: v, linked: n } => !o.is_empty() && n == linked@.len()
                                && crate::sets::strictly_sorted(views(v@)) && views(v@).to_set() == o,
                            _ => false,
                        }
                    },
                }
            },
        },
{
    let h = match head {
        Some(h) => h,
        None => return Staleness::Unknown,
    };
    if str_eq(h, record_commit) {
        return Staleness::Fresh;
    }
    let c = match changed {
        Some(c) => c,
        None => return Staleness::Unknown,
    };
    let ghost lv = views(linked@);
    let ghost cv = views(c@);
    let mut overlap: Vec<String> = Vec::new();
    let mut i: usize = 0;
    assert(views(overlap@).to_set() =~= Set::<Seq<char>>::empty());
    while i < linked.len()
        invariant
            i <= linked@.len(),
            lv == views(linked@),
            cv == views(c@),
            crate::sets::strictly_sorted(views(overlap@)),
            views(overlap@).to_set() == overlap_set(lv.take(i as int), cv),
        decreases linked@.len() - i,
    {
        let f = crate::validation::to_forward_slashes(linked[i].as_str());
        let ghost before = views(overlap@).to_set();
        assert(lv.take(i + 1) =~= lv.take(i as int).push(lv[i as int]));
        let t = is_touched(f.as_str(), c);
        if t {
            crate::sets::set_insert(&mut overlap, f);
        }
        proof {
            let fv = crate::validation::forward_slashed(lv[i as int]);
            assert forall|g: Seq<char>| #[trigger] overlap_set(lv.take(i + 1), cv).contains(g)
                == (overlap_set(lv.take(i as int), cv).contains(g) || (g == fv && touched(fv, cv))) by {
                if overlap_set(lv.take(i + 1), cv).contains(g) {
                    let q = choose|q: int| 0 <= q < lv.take(i + 1).len() && g == crate::validation::forward_slashed(#[trigger] lv.take(i + 1)[q]) && touched(g, cv);
                    if q < i {
                        assert(lv.take(i as int)[q] == lv.take(i + 1)[q]);
                    }
                }
                if overlap_set(lv.take(i as int), cv).contains(g) {
                    let q = choose|q: int| 0 <= q < lv.take(i as int).len() && g == crate::validation::forward_slashed(#[trigger] lv.take(i as int)[q]) && touched(g, cv);
                    assert(lv.take(i + 1)[q] == lv.take(i as int)[q]);
                }
                if g == fv && touched(fv, cv) {
                    assert(lv.take(i + 1)[i as int] == lv[i as int]);
                }
            }
            assert(views(overlap@).to_set() =~= overlap_set(lv.take(i + 1), cv));
        }
        i = i + 1;
    }
    assert(lv.take(linked@.len() as int) =~= lv);
    if overlap.len() == 0 {
        assert(views(overlap@).to_set() =~= Set::<Seq<char>>::empty());
        Staleness::Drifted { linked: linked.len() }
    } else {
        assert(views(overlap@).to_set().contains(views(overlap@)[0]));
        Staleness::Stale { changed: overlap, linked: linked.len() }
    }
}

} // verus!
