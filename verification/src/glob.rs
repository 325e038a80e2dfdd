//! Shell-style pattern matching over path names
//! (as used for the `cache_skip` patterns of the whitelist): `*` matches any
//! run without `/`, `?` one character other than `/`, `[...]` a class
//! (`^` negates; `\` escapes, also inside a class), `\x` the literal `x`.
//! A malformed pattern is reported as `Err(())` once the matcher reaches the
//! malformed part.

use vstd::prelude::*;
use crate::text::chars_of;

verus! {

/// First index at or after `i` that does not hold `*`.
pub open spec fn star_end(p: Seq<char>, i: int) -> int
    decreases p.len() - i,
{
    if 0 <= i < p.len() && p[i] == '*' {
        star_end(p, i + 1)
    } else {
        i
    }
}

pub proof fn lemma_star_end(p: Seq<char>, i: int)
    requires
        0 <= i <= p.len(),
    ensures
        i <= star_end(p, i) <= p.len(),
        star_end(p, i) < p.len() ==> p[star_end(p, i)] != '*',
    decreases p.len() - i,
{
    if i < p.len() && p[i] == '*' {
        lemma_star_end(p, i + 1);
    }
}

/// Scans the body of a character class starting at `j`: `Ok((end, m))` gives
/// the index just past the closing `]` and whether `c` is in one of the
/// ranges; `Err(())` for an unclosed class, a dangling escape or dash, or a
/// range whose low end exceeds its high end.
pub open spec fn class_scan(p: Seq<char>, c: char, j: int, matched: bool, nrange: int) -> Result<
    (int, bool),
    (),
>
    decreases p.len() - j,
{
    if j < 0 || j >= p.len() {
        Err(())
    } else if p[j] == ']' && nrange > 0 {
        Ok((j + 1, matched))
    } else if p[j] == '\\' && j + 1 >= p.len() {
        Err(())
    } else {
        let lo = if p[j] == '\\' {
            p[j + 1]
        } else {
            p[j]
        };
        let j1 = if p[j] == '\\' {
            j + 2
        } else {
            j + 1
        };
        if j1 < p.len() && p[j1] == '-' {
            let j2 = j1 + 1;
            let j3 = if j2 < p.len() && p[j2] == '\\' {
                j2 + 1
            } else {
                j2
            };
            if j3 >= p.len() {
                Err(())
            } else if lo > p[j3] {
                Err(())
            } else {
                class_scan(p, c, j3 + 1, matched || (lo <= c && c <= p[j3]), nrange + 1)
            }
        } else {
            class_scan(p, c, j1, matched || c == lo, nrange + 1)
        }
    }
}

pub proof fn lemma_class_scan(p: Seq<char>, c: char, j: int, matched: bool, nrange: int)
    ensures
        class_scan(p, c, j, matched, nrange) matches Ok((e, _)) ==> j < e <= p.len(),
    decreases p.len() - j,
{
    if j < 0 || j >= p.len() {
    } else if p[j] == ']' && nrange > 0 {
    } else if p[j] == '\\' && j + 1 >= p.len() {
    } else {
        let lo = if p[j] == '\\' {
            p[j + 1]
        } else {
            p[j]
        };
        let j1 = if p[j] == '\\' {
            j + 2
        } else {
            j + 1
        };
        if j1 < p.len() && p[j1] == '-' {
            let j2 = j1 + 1;
            let j3 = if j2 < p.len() && p[j2] == '\\' {
                j2 + 1
            } else {
                j2
            };
            if j3 < p.len() && lo <= p[j3] {
                lemma_class_scan(p, c, j3 + 1, matched || (lo <= c && c <= p[j3]), nrange + 1);
            }
        } else {
            lemma_class_scan(p, c, j1, matched || c == lo, nrange + 1);
        }
    }
}

/// Matching of `p[pi..]` against `n[ni..]`.
pub open spec fn glob_at(p: Seq<char>, n: Seq<char>, pi: int, ni: int) -> Result<bool, ()>
    decreases p.len() - pi, n.len() - ni + 1,
{
    if pi < 0 || ni < 0 || ni > n.len() {
        Ok(false)
    } else if pi >= p.len() {
        Ok(ni == n.len())
    } else if p[pi] == '*' {
        let pe = star_end(p, pi);
        proof {
            lemma_star_end(p, pi);
        }
        if pe >= p.len() {
            Ok(!n.subrange(ni, n.len() as int).contains('/'))
        } else {
            star_try(p, n, pe, ni)
        }
    } else if p[pi] == '?' {
        if ni >= n.len() || n[ni] == '/' {
            Ok(false)
        } else {
            glob_at(p, n, pi + 1, ni + 1)
        }
    } else if p[pi] == '[' {
        if ni >= n.len() || n[ni] == '/' {
            Ok(false)
        } else {
            let neg = pi + 1 < p.len() && p[pi + 1] == '^';
            let j0 = if neg {
                pi + 2
            } else {
                pi + 1
            };
            proof {
                lemma_class_scan(p, n[ni], j0, false, 0);
            }
            match class_scan(p, n[ni], j0, false, 0) {
                Err(_) => Err(()),
                Ok((j, matched)) => if matched == neg {
                    Ok(false)
                } else {
                    glob_at(p, n, j, ni + 1)
                },
            }
        }
    } else if p[pi] == '\\' {
        if pi + 1 >= p.len() {
            Err(())
        } else if ni >= n.len() || n[ni] != p[pi + 1] {
            Ok(false)
        } else {
            glob_at(p, n, pi + 2, ni + 1)
        }
    } else {
        if ni >= n.len() || n[ni] != p[pi] {
            Ok(false)
        } else {
            glob_at(p, n, pi + 1, ni + 1)
        }
    }
}

/// After a run of stars ending at `pe`, tries the rest of the pattern at
/// every split point `k`, `k + 1`, ... of the name, stopping at a `/`.
pub open spec fn star_try(p: Seq<char>, n: Seq<char>, pe: int, k: int) -> Result<bool, ()>
    decreases p.len() - pe, n.len() - k + 2,
{
    if pe < 0 || pe >= p.len() || k < 0 || k > n.len() {
        Ok(false)
    } else {
        match glob_at(p, n, pe, k) {
            Err(_) => Err(()),
            Ok(true) => Ok(true),
            Ok(false) => if k >= n.len() || n[k] == '/' {
                Ok(false)
            } else {
                star_try(p, n, pe, k + 1)
            },
        }
    }
}

/// The result of matching the whole `pattern` against the whole `name`.
pub open spec fn glob(pattern: Seq<char>, name: Seq<char>) -> Result<bool, ()> {
    glob_at(pattern, name, 0, 0)
}

/// A lone `*` matches exactly the names that hold no `/`: a star never
/// crosses a path separator.
pub proof fn law_star_stays_in_segment(name: Seq<char>)
    ensures
        glob(seq!['*'], name) == Ok::<bool, ()>(!name.contains('/')),
{
    let p = seq!['*'];
    assert(star_end(p, 1) == 1);
    assert(star_end(p, 0) == 1);
    assert(name.subrange(0, name.len() as int) =~= name);
}

/// The name holds no `/` from index `ni` on.
spec fn no_slash_from(n: Seq<char>, ni: int) -> bool {
    forall|m: int| ni <= m < n.len() ==> #[trigger] n[m] != '/'
}

proof fn lemma_match_no_slash(p: Seq<char>, n: Seq<char>, pi: int, ni: int)
    requires
        !p.contains('/'),
        0 <= pi,
        0 <= ni <= n.len(),
        glob_at(p, n, pi, ni) == Ok::<bool, ()>(true),
    ensures
        no_slash_from(n, ni),
    decreases p.len() - pi, n.len() - ni + 1,
{
    if pi >= p.len() {
    } else if p[pi] == '*' {
        let pe = star_end(p, pi);
        lemma_star_end(p, pi);
        if pe >= p.len() {
            assert forall|m: int| ni <= m < n.len() implies #[trigger] n[m] != '/' by {
                assert(n.subrange(ni, n.len() as int)[m - ni] == n[m]);
            }
        } else {
            lemma_star_try_no_slash(p, n, pe, ni);
        }
    } else if p[pi] == '?' {
        lemma_match_no_slash(p, n, pi + 1, ni + 1);
    } else if p[pi] == '[' {
        let neg = pi + 1 < p.len() && p[pi + 1] == '^';
        let j0 = if neg {
            pi + 2
        } else {
            pi + 1
        };
        lemma_class_scan(p, n[ni], j0, false, 0);
        let (j, _) = class_scan(p, n[ni], j0, false, 0)->Ok_0;
        lemma_match_no_slash(p, n, j, ni + 1);
    } else if p[pi] == '\\' {
        assert(p[pi + 1] != '/') by {
            if p[pi + 1] == '/' {
                assert(p.contains('/'));
            }
        }
        lemma_match_no_slash(p, n, pi + 2, ni + 1);
    } else {
        assert(p[pi] != '/') by {
            if p[pi] == '/' {
                assert(p.contains('/'));
            }
        }
        lemma_match_no_slash(p, n, pi + 1, ni + 1);
    }
}

proof fn lemma_star_try_no_slash(p: Seq<char>, n: Seq<char>, pe: int, k: int)
    requires
        !p.contains('/'),
        0 <= pe,
        0 <= k <= n.len(),
        star_try(p, n, pe, k) == Ok::<bool, ()>(true),
    ensures
        no_slash_from(n, k),
    decreases p.len() - pe, n.len() - k + 2,
{
    if glob_at(p, n, pe, k) == Ok::<bool, ()>(true) {
        lemma_match_no_slash(p, n, pe, k);
    } else {
        lemma_star_try_no_slash(p, n, pe, k + 1);
    }
}

/// A pattern without `/` matches only names without `/`: no part of such a
/// pattern, a star included, matches a path separator.
pub proof fn law_no_slash_matches_no_slash(pattern: Seq<char>, name: Seq<char>)
    requires
        !pattern.contains('/'),
        glob(pattern, name) == Ok::<bool, ()>(true),
    ensures
        !name.contains('/'),
{
    lemma_match_no_slash(pattern, name, 0, 0);
}

/// The pattern holds none of the characters with a special meaning.
pub open spec fn is_literal_pattern(p: Seq<char>) -> bool {
    !p.contains('*') && !p.contains('?') && !p.contains('[') && !p.contains('\\')
}

proof fn lemma_literal_at(p: Seq<char>, n: Seq<char>, pi: int, ni: int)
    requires
        is_literal_pattern(p),
        0 <= pi <= p.len(),
        0 <= ni <= n.len(),
    ensures
        glob_at(p, n, pi, ni) == Ok::<bool, ()>(p.subrange(pi, p.len() as int) == n.subrange(ni, n.len() as int)),
    decreases p.len() - pi,
{
    let ps = p.subrange(pi, p.len() as int);
    let ns = n.subrange(ni, n.len() as int);
    if pi >= p.len() {
        if ni == n.len() {
            assert(ps =~= ns);
        } else {
            assert(ps.len() != ns.len());
        }
    } else {
        assert(p[pi] != '*' && p[pi] != '?' && p[pi] != '[' && p[pi] != '\\') by {
            if p[pi] == '*' {
                assert(p.contains('*'));
            }
            if p[pi] == '?' {
                assert(p.contains('?'));
            }
            if p[pi] == '[' {
                assert(p.contains('['));
            }
            if p[pi] == '\\' {
                assert(p.contains('\\'));
            }
        }
        if ni >= n.len() {
            assert(ps.len() != ns.len());
        } else if n[ni] != p[pi] {
            assert(ps[0] != ns[0]);
        } else {
            lemma_literal_at(p, n, pi + 1, ni + 1);
            let ps1 = p.subrange(pi + 1, p.len() as int);
            let ns1 = n.subrange(ni + 1, n.len() as int);
            if ps1 == ns1 {
                assert(ps =~= seq![p[pi]] + ps1);
                assert(ns =~= seq![n[ni]] + ns1);
            } else {
                if ps == ns {
                    assert(ps1 =~= ps.subrange(1, ps.len() as int));
                    assert(ns1 =~= ns.subrange(1, ns.len() as int));
                }
            }
        }
    }
}

/// A pattern with none of `*`, `?`, `[` and `\` matches exactly the name
/// equal to it, and is never malformed.
pub proof fn law_literal_matches_itself(pattern: Seq<char>, name: Seq<char>)
    requires
        is_literal_pattern(pattern),
    ensures
        glob(pattern, name) == Ok::<bool, ()>(pattern == name),
{
    lemma_literal_at(pattern, name, 0, 0);
    assert(pattern.subrange(0, pattern.len() as int) =~= pattern);
    assert(name.subrange(0, name.len() as int) =~= name);
}

/// A one-character range class matches exactly the characters between its
/// ends: `[lo-hi]`, with neither end an escape and `lo` not the negation
/// mark, matches a one-character name `c` (not `/`) exactly when
/// `lo <= c <= hi`; a range whose ends are reversed is malformed.
pub proof fn law_range_class(lo: char, hi: char, c: char)
    requires
        lo != '\\',
        lo != '^',
        hi != '\\',
        c != '/',
    ensures
        lo <= hi ==> glob(seq!['[', lo, '-', hi, ']'], seq![c]) == Ok::<bool, ()>(lo <= c && c <= hi),
        lo > hi ==> glob(seq!['[', lo, '-', hi, ']'], seq![c]) is Err,
{
    let p = seq!['[', lo, '-', hi, ']'];
    let n = seq![c];
    let m = lo <= c && c <= hi;
    assert(p[1] == lo && p[2] == '-' && p[3] == hi && p[4] == ']');
    if lo <= hi {
        assert(class_scan(p, c, 4, m, 1) == Ok::<(int, bool), ()>((5, m)));
        assert(class_scan(p, c, 1, false, 0) == Ok::<(int, bool), ()>((5, m)));
        if m {
            assert(glob_at(p, n, 5, 1) == Ok::<bool, ()>(true));
        }
        assert(glob_at(p, n, 0, 0) == Ok::<bool, ()>(m));
    } else {
        assert(class_scan(p, c, 1, false, 0) is Err);
        assert(glob_at(p, n, 0, 0) is Err);
    }
}

/// A negated range class `[^lo-hi]` matches a one-character name `c` (not
/// `/`) exactly when `c` lies outside the range.
pub proof fn law_negated_range_class(lo: char, hi: char, c: char)
    requires
        lo != '\\',
        hi != '\\',
        c != '/',
        lo <= hi,
    ensures
        glob(seq!['[', '^', lo, '-', hi, ']'], seq![c]) == Ok::<bool, ()>(!(lo <= c && c <= hi)),
{
    let p = seq!['[', '^', lo, '-', hi, ']'];
    let n = seq![c];
    let m = lo <= c && c <= hi;
    assert(p[1] == '^' && p[2] == lo && p[3] == '-' && p[4] == hi && p[5] == ']');
    assert(class_scan(p, c, 5, m, 1) == Ok::<(int, bool), ()>((6, m)));
    assert(class_scan(p, c, 2, false, 0) == Ok::<(int, bool), ()>((6, m)));
    if !m {
        assert(glob_at(p, n, 6, 1) == Ok::<bool, ()>(true));
    }
    assert(glob_at(p, n, 0, 0) == Ok::<bool, ()>(!m));
}

/// A class of one plain character `[x]` matches a one-character name `c`
/// (not `/`) exactly when `c` is `x`.
pub proof fn law_single_char_class(x: char, c: char)
    requires
        x != '\\',
        x != '^',
        x != ']',
        c != '/',
    ensures
        glob(seq!['[', x, ']'], seq![c]) == Ok::<bool, ()>(c == x),
{
    let p = seq!['[', x, ']'];
    let n = seq![c];
    assert(p[1] == x && p[2] == ']');
    assert(class_scan(p, c, 2, c == x, 1) == Ok::<(int, bool), ()>((3, c == x)));
    assert(class_scan(p, c, 1, false, 0) == Ok::<(int, bool), ()>((3, c == x)));
    if c == x {
        assert(glob_at(p, n, 3, 1) == Ok::<bool, ()>(true));
    }
    assert(glob_at(p, n, 0, 0) == Ok::<bool, ()>(c == x));
}

/// `?` matches any one character but `/`, and nothing longer or shorter.
pub proof fn law_question_mark(n: Seq<char>)
    ensures
        glob(seq!['?'], n) == Ok::<bool, ()>(n.len() == 1 && n[0] != '/'),
{
    let p = seq!['?'];
    if n.len() >= 1 && n[0] != '/' {
        assert(glob_at(p, n, 1, 1) == Ok::<bool, ()>(n.len() == 1));
    }
}

fn class_exec(p: &[char], c: char, j0: usize) -> (r: Result<(usize, bool), ()>)
    requires
        j0 <= p@.len(),
    ensures
        match r {
            Ok((e, m)) => class_scan(p@, c, j0 as int, false, 0) == Ok::<(int, bool), ()>(
                (e as int, m),
            ),
            Err(_) => class_scan(p@, c, j0 as int, false, 0) is Err,
        },
{
    let mut j = j0;
    let mut matched = false;
    let mut nrange: usize = 0;
    while j < p.len()
        invariant
            j0 <= j <= p@.len(),
            p@.len() == p.len(),
            nrange <= j,
            class_scan(p@, c, j0 as int, false, 0) == class_scan(
                p@,
                c,
                j as int,
                matched,
                nrange as int,
            ),
        decreases p.len() - j,
    {
        if p[j] == ']' && nrange > 0 {
            return Ok((j + 1, matched));
        }
        let lo;
        if p[j] == '\\' {
            if j + 1 >= p.len() {
                return Err(());
            }
            lo = p[j + 1];
            j = j + 2;
        } else {
            lo = p[j];
            j = j + 1;
        }
        let mut hi = lo;
        if j < p.len() && p[j] == '-' {
            j += 1;
            if j >= p.len() {
                return Err(());
            }
            if p[j] == '\\' {
                j += 1;
                if j >= p.len() {
                    return Err(());
                }
            }
            hi = p[j];
            j += 1;
            if lo > hi {
                return Err(());
            }
        }
        nrange += 1;
        if c >= lo && c <= hi {
            matched = true;
        }
    }
    Err(())
}

fn glob_exec(p: &[char], n: &[char], pi0: usize, ni0: usize) -> (r: Result<bool, ()>)
    requires
        pi0 <= p@.len(),
        ni0 <= n@.len(),
    ensures
        r == glob_at(p@, n@, pi0 as int, ni0 as int),
    decreases p@.len() - pi0,
{
    let mut pi = pi0;
    let mut ni = ni0;
    while pi < p.len()
        invariant
            pi0 <= pi <= p@.len(),
            ni <= n@.len(),
            p@.len() == p.len(),
            n@.len() == n.len(),
            glob_at(p@, n@, pi0 as int, ni0 as int) == glob_at(p@, n@, pi as int, ni as int),
        decreases p.len() - pi,
    {
        let pc = p[pi];
        if pc == '*' {
            let mut pe = pi;
            while pe < p.len() && p[pe] == '*'
                invariant
                    pi <= pe <= p@.len(),
                    star_end(p@, pi as int) == star_end(p@, pe as int),
                decreases p.len() - pe,
            {
                pe += 1;
            }
            proof {
                lemma_star_end(p@, pi as int);
            }
            if pe == p.len() {
                assert(glob_at(p@, n@, pi0 as int, ni0 as int) == Ok::<bool, ()>(
                    !n@.subrange(ni as int, n@.len() as int).contains('/'),
                ));
                let mut k = ni;
                while k < n.len()
                    invariant
                        ni <= k <= n@.len(),
                        n@.len() == n.len(),
                        glob_at(p@, n@, pi0 as int, ni0 as int) == Ok::<bool, ()>(
                            !n@.subrange(ni as int, n@.len() as int).contains('/'),
                        ),
                        forall|j: int| ni <= j < k ==> n@[j] != '/',
                    decreases n.len() - k,
                {
                    if n[k] == '/' {
                        assert(n@.subrange(ni as int, n@.len() as int)[k - ni] == '/');
                        assert(n@.subrange(ni as int, n@.len() as int).contains('/'));
                        return Ok(false);
                    }
                    k += 1;
                }
                assert(!n@.subrange(ni as int, n@.len() as int).contains('/')) by {
                    assert forall|j: int|
                        0 <= j < n@.len() - ni implies n@.subrange(
                        ni as int,
                        n@.len() as int,
                    )[j] != '/' by {
                        assert(n@.subrange(ni as int, n@.len() as int)[j] == n@[ni + j]);
                    }
                }
                return Ok(true);
            }
            let mut k = ni;
            loop
                invariant
                    pi0 <= pi < pe < p@.len(),
                    ni <= k <= n@.len(),
                    p@.len() == p.len(),
                    n@.len() == n.len(),
                    glob_at(p@, n@, pi0 as int, ni0 as int) == star_try(
                        p@,
                        n@,
                        pe as int,
                        k as int,
                    ),
                decreases n.len() - k,
            {
                let sub = glob_exec(p, n, pe, k);
                match sub {
                    Err(e) => {
                        return Err(e);
                    },
                    Ok(true) => {
                        return Ok(true);
                    },
                    Ok(false) => {},
                }
                if k >= n.len() || n[k] == '/' {
                    return Ok(false);
                }
                k += 1;
            }
        } else if pc == '?' {
            if ni >= n.len() || n[ni] == '/' {
                return Ok(false);
            }
            pi += 1;
            ni += 1;
        } else if pc == '[' {
            if ni >= n.len() {
                return Ok(false);
            }
            let c = n[ni];
            if c == '/' {
                return Ok(false);
            }
            let neg = pi + 1 < p.len() && p[pi + 1] == '^';
            let j0 = if neg {
                pi + 2
            } else {
                pi + 1
            };
            proof {
                lemma_class_scan(p@, c, j0 as int, false, 0);
            }
            match class_exec(p, c, j0) {
                Err(e) => {
                    return Err(e);
                },
                Ok((j, matched)) => {
                    if matched == neg {
                        return Ok(false);
                    }
                    pi = j;
                    ni += 1;
                },
            }
        } else if pc == '\\' {
            if pi + 1 >= p.len() {
                return Err(());
            }
            if ni >= n.len() || n[ni] != p[pi + 1] {
                return Ok(false);
            }
            pi += 2;
            ni += 1;
        } else {
            if ni >= n.len() || n[ni] != pc {
                return Ok(false);
            }
            pi += 1;
            ni += 1;
        }
    }
    Ok(ni == n.len())
}

/// `filepath.Match(pattern, name)`: `Ok(true)` when `name` matches,
/// `Ok(false)` when it does not, `Err(())` when the matcher meets a
/// malformed part of `pattern` (unclosed class, trailing `\`, bad range).
pub fn glob_match(pattern: &str, name: &str) -> (r: Result<bool, ()>)
    ensures
        r == glob(pattern@, name@),
{
    let p = chars_of(pattern);
    let n = chars_of(name);
    glob_exec(p.as_slice(), n.as_slice(), 0, 0)
}

/// [`glob_match`] over character slices.
pub fn glob_match_chars(p: &[char], n: &[char]) -> (r: Result<bool, ()>)
    ensures
        r == glob(p@, n@),
{
    glob_exec(p, n, 0, 0)
}

/// A pattern is valid when matching it against itself meets no malformed
/// part (the pattern matched against itself).
pub fn glob_validate(pattern: &str) -> (r: Result<(), ()>)
    ensures
        r is Ok <==> glob(pattern@, pattern@) is Ok,
{
    match glob_match(pattern, pattern) {
        Ok(_) => Ok(()),
        Err(e) => Err(e),
    }
}

} // verus!
