//! Regular-expression searches, done by the `regex` crate. What a pattern
//! matches is that crate's business and is only named here; the library
//! decides what to do with the matches.
use vstd::prelude::*;

use crate::text::views;

verus! {

/// Whether `pattern` compiles (`regex::Regex::new` succeeds).
pub uninterp spec fn regex_valid(pattern: Seq<char>) -> bool;

/// The texts of the successive matches of `pattern` in `text`
/// (`regex::Regex::find_iter`).
pub uninterp spec fn regex_matches(pattern: Seq<char>, text: Seq<char>) -> Seq<Seq<char>>;

/// For each successive match of `pattern` in `text`, the texts of its
/// groups, group 0 (the whole match) first, each when it took part
/// (`regex::Regex::captures_iter`, then `Captures::get` for every group).
pub uninterp spec fn regex_captures(pattern: Seq<char>, text: Seq<char>) -> Seq<Seq<Option<Seq<char>>>>;

pub open spec fn opt_views(v: Seq<Option<String>>) -> Seq<Option<Seq<char>>> {
    v.map_values(|o: Option<String>| match o {
        Some(s) => Some(s@),
        None => None,
    })
}

/// Compile `pattern` with `regex::Regex::new` and collect the text of every
/// match in `text` (`find_iter`); `None` when the pattern does not compile.
/// Claimed: the result is present exactly when the pattern compiles, and
/// then lists the matches the crate reports, in order.
#[verifier::external_body]
pub(crate) fn find_all(pattern: &str, text: &str) -> (r: Option<Vec<String>>)
    ensures
        r.is_some() == regex_valid(pattern@),
        r matches Some(v) ==> views(v@) == regex_matches(pattern@, text@),
{
    let re = regex::Regex::new(pattern).ok()?;
    Some(re.find_iter(text).map(|m| m.as_str().to_string()).collect())
}

pub open spec fn group_views(v: Seq<Vec<Option<String>>>) -> Seq<Seq<Option<Seq<char>>>> {
    v.map_values(|g: Vec<Option<String>>| opt_views(g@))
}

/// Compile `pattern` with `regex::Regex::new` and collect, for every match
/// in `text` (`captures_iter`), the text of each of its groups; `None` when
/// the pattern does not compile. Claimed: present exactly when the pattern
/// compiles, and then the groups the crate reports, match by match.
#[verifier::external_body]
pub(crate) fn captures_all(pattern: &str, text: &str) -> (r: Option<Vec<Vec<Option<String>>>>)
    ensures
        r.is_some() == regex_valid(pattern@),
        r matches Some(v) ==> group_views(v@) == regex_captures(pattern@, text@),
{
    let re = regex::Regex::new(pattern).ok()?;
    Some(re.captures_iter(text).map(|c| c.iter().map(|g| g.map(|m| m.as_str().to_string())).collect()).collect())
}

/// Group `i` of one match, when it took part.
pub open spec fn group_at(m: Seq<Option<Seq<char>>>, i: int) -> Option<Seq<char>> {
    if 0 <= i < m.len() { m[i] } else { None }
}

/// The groups of every match of `pattern` in `text`, none when it does not
/// compile.
pub open spec fn captures_of(pattern: Seq<char>, text: Seq<char>) -> Seq<Seq<Option<Seq<char>>>> {
    if regex_valid(pattern) { regex_captures(pattern, text) } else { Seq::empty() }
}

/// The groups of every match of `pattern` in `text` (none when it does not
/// compile).
pub fn captures_in(pattern: &str, text: &str) -> (r: Vec<Vec<Option<String>>>)
    ensures
        group_views(r@) == captures_of(pattern@, text@),
{
    match captures_all(pattern, text) {
        Some(v) => v,
        None => {
            let e: Vec<Vec<Option<String>>> = Vec::new();
            assert(group_views(e@) =~= Seq::<Seq<Option<Seq<char>>>>::empty());
            e
        },
    }
}

/// The matches of `pattern` in `text`, none when it does not compile.
pub open spec fn matches_of(pattern: Seq<char>, text: Seq<char>) -> Seq<Seq<char>> {
    if regex_valid(pattern) { regex_matches(pattern, text) } else { Seq::empty() }
}

/// The first groups of the matches of `pattern` in `text`, none when it
/// does not compile.
pub open spec fn groups_of(pattern: Seq<char>, text: Seq<char>) -> Seq<Option<Seq<char>>> {
    captures_of(pattern, text).map_values(|m: Seq<Option<Seq<char>>>| group_at(m, 1))
}

/// The matches of `pattern` in `text` (none when it does not compile).
pub fn matches_in(pattern: &str, text: &str) -> (r: Vec<String>)
    ensures
        views(r@) == matches_of(pattern@, text@),
{
    match find_all(pattern, text) {
        Some(v) => v,
        None => {
            let e: Vec<String> = Vec::new();
            assert(views(e@) =~= Seq::<Seq<char>>::empty());
            e
        },
    }
}

/// The first groups of the matches of `pattern` in `text` (none when it
/// does not compile).
pub fn groups_in(pattern: &str, text: &str) -> (r: Vec<Option<String>>)
    ensures
        opt_views(r@) == groups_of(pattern@, text@),
{
    let all = captures_in(pattern, text);
    let ghost av = group_views(all@);
    let mut out: Vec<Option<String>> = Vec::new();
    let mut i: usize = 0;
    while i < all.len()
        invariant
            i <= all@.len(),
            av == group_views(all@),
            av == captures_of(pattern@, text@),
            opt_views(out@) == av.take(i as int).map_values(|m: Seq<Option<Seq<char>>>| group_at(m, 1)),
        decreases all@.len() - i,
    {
        let m = &all[i];
        let g: Option<String> = if m.len() > 1 {
            match &m[1] {
                Some(x) => Some(x.clone()),
                None => None,
            }
        } else {
            None
        };
        let ghost pre = opt_views(out@);
        out.push(g);
        proof {
            assert(av[i as int] == opt_views(m@));
            assert(opt_views(out@) =~= pre.push(group_at(av[i as int], 1)));
            assert(av.take(i + 1).map_values(|m: Seq<Option<Seq<char>>>| group_at(m, 1))
                =~= av.take(i as int).map_values(|m: Seq<Option<Seq<char>>>| group_at(m, 1)).push(group_at(av[i as int], 1)));
        }
        i = i + 1;
    }
    assert(av.take(all@.len() as int) =~= av);
    out
}

} // verus!
