//! Glob patterns for the review's ignore list: `**` spans any run of path
//! segments (a `/` right after it is part of it), `*` any run of characters
//! within one segment, and every other character stands for itself.
use vstd::prelude::*;

use crate::text::chars_of;

verus! {

pub open spec fn all_stars(p: Seq<char>) -> bool {
    forall|i: int| 0 <= i < p.len() ==> p[i] == '*'
}

pub open spec fn no_slash(t: Seq<char>) -> bool {
    forall|i: int| 0 <= i < t.len() ==> t[i] != '/'
}

/// The pattern after a leading `**` and the `/` that may follow it.
pub open spec fn after_double_star(p: Seq<char>) -> Seq<char> {
    if p.len() >= 3 && p[2] == '/' { p.skip(3) } else { p.skip(2) }
}

/// Whether pattern `p` matches the whole of path `t`. An exhausted path
/// is matched only by stars; a `**` with nothing after it matches any rest,
/// otherwise what follows it must match some suffix of the path; a `*`
/// either ends here or takes one more character that is not a `/`.
pub open spec fn glob(p: Seq<char>, t: Seq<char>) -> bool
    decreases p.len(), t.len(), 0nat,
{
    if t.len() == 0 {
        all_stars(p)
    } else if p.len() == 0 {
        false
    } else if p[0] == '*' && p.len() >= 2 && p[1] == '*' {
        let r = after_double_star(p);
        r.len() == 0 || glob_suffix(r, t)
    } else if p[0] == '*' {
        glob(p.skip(1), t) || (t[0] != '/' && glob(p, t.skip(1)))
    } else {
        p[0] == t[0] && glob(p.skip(1), t.skip(1))
    }
}

/// Whether `p` matches some suffix of `t` (the whole of it included, and
/// the empty one).
pub open spec fn glob_suffix(p: Seq<char>, t: Seq<char>) -> bool
    decreases p.len(), t.len(), 1nat,
{
    glob(p, t) || (t.len() > 0 && glob_suffix(p, t.skip(1)))
}

/// Whether the glob `pattern` matches the whole of `path`.
pub fn glob_match(pattern: &str, path: &str) -> (b: bool)
    ensures
        b == glob(pattern@, path@),
{
    let p = chars_of(pattern);
    let t = chars_of(path);
    let m = p.len();
    let n = t.len();
    // rows[m - i] holds, for every j in 0..=n, whether p[i..] matches t[j..].
    let mut rows: Vec<Vec<bool>> = Vec::new();
    let mut ci: usize = m;
    loop
        invariant_except_break
            ci <= m,
            rows@.len() == m - ci,
        invariant
            m == p@.len(),
            n == t@.len(),
            forall|a: int| 0 <= a < rows@.len() ==> #[trigger] rows@[a]@.len() == n + 1,
            forall|a: int, j: int| 0 <= a < rows@.len() && 0 <= j <= n ==>
                #[trigger] rows@[a]@[j] == glob(p@.skip(m - a), t@.skip(j)),
        ensures
            rows@.len() == m + 1,
        decreases ci,
    {
        let mut row: Vec<bool> = Vec::new();
        let mut k: usize = 0;
        while k < n
            invariant
                k <= n,
                row@.len() == k,
            decreases n - k,
        {
            row.push(false);
            k = k + 1;
        }
        let ghost ps = p@.skip(ci as int);
        assert(t@.skip(n as int).len() == 0);
        // The column at the end of the path: stars only.
        let end_val = if ci == m {
            true
        } else {
            p[ci] == '*' && rows[m - ci - 1][n]
        };
        proof {
            if ci == m {
                assert(ps.len() == 0);
            } else {
                let ps1 = p@.skip(ci + 1);
                assert(ps[0] == p@[ci as int]);
                assert(all_stars(ps) == (p@[ci as int] == '*' && all_stars(ps1))) by {
                    if all_stars(ps) {
                        assert forall|q: int| 0 <= q < ps1.len() implies #[trigger] ps1[q] == '*' by {
                            assert(ps1[q] == ps[q + 1]);
                        }
                    }
                    if p@[ci as int] == '*' && all_stars(ps1) {
                        assert forall|q: int| 0 <= q < ps.len() implies #[trigger] ps[q] == '*' by {
                            if q > 0 {
                                assert(ps[q] == ps1[q - 1]);
                            }
                        }
                    }
                }
            }
        }
        row.push(end_val);
        let double = ci < m && m - ci > 1 && p[ci] == '*' && p[ci + 1] == '*';
        let r: usize = if double {
            if m - ci > 2 && p[ci + 2] == '/' { ci + 3 } else { ci + 2 }
        } else {
            0
        };
        proof {
            if double {
                assert(after_double_star(ps) =~= p@.skip(r as int));
            }
        }
        let mut some: bool = if double { rows[m - r][n] } else { false };
        proof {
            if double {
                assert(glob_suffix(p@.skip(r as int), t@.skip(n as int)) == glob(p@.skip(r as int), t@.skip(n as int)));
            }
        }
        let mut j: usize = n;
        while j > 0
            invariant
                j <= n,
                ci <= m,
                m == p@.len(),
                n == t@.len(),
                ps == p@.skip(ci as int),
                row@.len() == n + 1,
                rows@.len() == m - ci,
                forall|a: int| 0 <= a < rows@.len() ==> #[trigger] rows@[a]@.len() == n + 1,
                forall|a: int, jj: int| 0 <= a < rows@.len() && 0 <= jj <= n ==>
                    #[trigger] rows@[a]@[jj] == glob(p@.skip(m - a), t@.skip(jj)),
                forall|q: int| j <= q <= n ==> #[trigger] row@[q] == glob(ps, t@.skip(q)),
                double == (ci + 1 < m && p@[ci as int] == '*' && p@[ci + 1] == '*'),
                double ==> r == (if ci + 2 < m && p@[ci + 2] == '/' { ci + 3 } else { ci + 2 }),
                double ==> r <= m && after_double_star(ps) == p@.skip(r as int),
                double ==> some == glob_suffix(p@.skip(r as int), t@.skip(j as int)),
            decreases j,
        {
            let jj = j - 1;
            let ghost ts = t@.skip(jj as int);
            assert(ts.skip(1) =~= t@.skip(j as int));
            assert(ts[0] == t@[jj as int]);
            let v: bool = if ci == m {
                proof {
                    assert(ps.len() == 0);
                }
                false
            } else if double {
                let ghost old_some = some;
                some = rows[m - r][jj] || some;
                proof {
                    assert(ps[0] == '*' && ps[1] == '*');
                    assert(rows@[m - r]@[jj as int] == glob(p@.skip(r as int), ts));
                    assert(glob_suffix(p@.skip(r as int), ts) == (glob(p@.skip(r as int), ts) || glob_suffix(p@.skip(r as int), ts.skip(1))));
                    assert(some == glob_suffix(p@.skip(r as int), ts));
                    assert(after_double_star(ps).len() == 0 <==> r == m);
                    assert(glob(ps, ts) == (r == m || some));
                }
                r == m || some
            } else if p[ci] == '*' {
                proof {
                    assert(ps[0] == '*');
                    assert(ps.skip(1) =~= p@.skip(ci + 1));
                    assert(rows@[m - ci - 1]@[jj as int] == glob(p@.skip(ci + 1), ts));
                    assert(row@[j as int] == glob(ps, ts.skip(1)));
                }
                rows[m - ci - 1][jj] || (t[jj] != '/' && row[j])
            } else {
                proof {
                    assert(ps[0] == p@[ci as int]);
                    assert(ps.skip(1) =~= p@.skip(ci + 1));
                    assert(rows@[m - ci - 1]@[j as int] == glob(p@.skip(ci + 1), ts.skip(1)));
                }
                p[ci] == t[jj] && rows[m - ci - 1][j]
            };
            row.set(jj, v);
            j = jj;
        }
        rows.push(row);
        if ci == 0 {
            break;
        }
        ci = ci - 1;
    }
    assert(p@.skip(0) =~= p@);
    assert(t@.skip(0) =~= t@);
    rows[m][0]
}

} // verus!
