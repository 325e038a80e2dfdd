//! Reading `apt-get -s autoremove --purge`: the packages APT would remove
//! and the size it says will be freed.

use vstd::prelude::*;
use crate::text::{
    chars_of, eq_str, fields, occurs_at, split, split_fields, split_on, string_of, string_views,
    trim, trimmed, views,
};

verus! {

/// Whether a simulation line names a package APT removes: `Remv` or `Purg`
/// followed by the package.
pub open spec fn removal_row(l: Seq<char>) -> bool {
    let f = fields(l);
    f.len() >= 2 && (f[0] == "Remv"@ || f[0] == "Purg"@)
}

/// The packages of the first `n` lines, each once, in order of first mention.
pub open spec fn removals(ls: Seq<Seq<char>>, n: int) -> Seq<Seq<char>>
    decreases n,
{
    if n <= 0 || n > ls.len() {
        seq![]
    } else {
        let prev = removals(ls, n - 1);
        if removal_row(ls[n - 1]) && !prev.contains(fields(ls[n - 1])[1]) {
            prev.push(fields(ls[n - 1])[1])
        } else {
            prev
        }
    }
}

fn contains_seq(v: &Vec<String>, x: &Vec<char>) -> (b: bool)
    ensures
        b == string_views(v@).contains(x@),
{
    let ghost sv = string_views(v@);
    let mut i: usize = 0;
    while i < v.len()
        invariant
            i <= v@.len(),
            sv == string_views(v@),
            forall|j: int| 0 <= j < i ==> sv[j] != x@,
        decreases v.len() - i,
    {
        let c = chars_of(v[i].as_str());
        if crate::text::eq(c.as_slice(), x.as_slice()) {
            assert(sv[i as int] == x@);
            return true;
        }
        i += 1;
    }
    false
}

/// The complete set of packages APT's autoremove policy would remove, from
/// the `Remv`/`Purg` lines of its simulation; packages are never picked by
/// name.
pub fn autoremove_candidates(output: &str) -> (r: Vec<String>)
    ensures
        string_views(r@) == removals(split(output@, '\n'), split(output@, '\n').len() as int),
{
    let c = chars_of(output);
    let ls = split_on(c.as_slice(), '\n');
    let ghost lv = views(ls@);
    let mut out: Vec<String> = Vec::new();
    let mut i: usize = 0;
    while i < ls.len()
        invariant
            i <= ls@.len(),
            lv == views(ls@),
            string_views(out@) == removals(lv, i as int),
        decreases ls.len() - i,
    {
        let f = split_fields(ls[i].as_slice());
        if f.len() >= 2 && (eq_str(f[0].as_slice(), "Remv") || eq_str(f[0].as_slice(), "Purg")) {
            if !contains_seq(&out, &f[1]) {
                let ghost before = string_views(out@);
                out.push(string_of(f[1].as_slice()));
                assert(string_views(out@) =~= before.push(views(f@)[1]));
            }
        }
        i += 1;
    }
    out
}

// ---------------------------------------------------------------------------
// The freed-space sentence
// ---------------------------------------------------------------------------

pub open spec fn ascii_ws(c: char) -> bool {
    c == ' ' || c == '\t' || c == '\n' || c == '\x0C' || c == '\r'
}

pub open spec fn is_digit(c: char) -> bool {
    '0' <= c <= '9'
}

/// The start of the run of ASCII whitespace that ends at `j`.
pub open spec fn ws_back(l: Seq<char>, j: int) -> int
    decreases j,
{
    if j > 0 && j <= l.len() && ascii_ws(l[j - 1]) {
        ws_back(l, j - 1)
    } else {
        j
    }
}

/// The start of the run of digits and dots that ends at `j`.
pub open spec fn num_run_back(l: Seq<char>, j: int) -> int
    decreases j,
{
    if j > 0 && j <= l.len() && (is_digit(l[j - 1]) || l[j - 1] == '.') {
        num_run_back(l, j - 1)
    } else {
        j
    }
}

pub open spec fn all_digits(s: Seq<char>) -> bool {
    s.len() > 0 && forall|k: int| 0 <= k < s.len() ==> is_digit(s[k])
}

/// `^[0-9]+(\.[0-9]+)?$`
pub open spec fn apt_number(s: Seq<char>) -> bool {
    all_digits(s) || exists|d: int| 0 < d < s.len() - 1 && s[d] == '.' && all_digits(s.subrange(0, d))
        && all_digits(s.subrange(d + 1, s.len() as int))
}

/// The first start in `[s, e)` of a number that ends at `e`, or `e`.
pub open spec fn first_number(l: Seq<char>, s: int, e: int) -> int
    decreases e - s,
{
    if s >= e {
        e
    } else if is_digit(l[s]) && apt_number(l.subrange(s, e)) {
        s
    } else {
        first_number(l, s + 1, e)
    }
}

/// `NUM \s* UNIT \s+` right before index `p`: the number's start, the
/// number and the unit (`b`, or one of `kmgt` then `b`).
pub open spec fn num_unit_before(l: Seq<char>, p: int) -> Option<(int, Seq<char>, Seq<char>)> {
    let j0 = ws_back(l, p);
    if j0 == p || j0 == 0 || l[j0 - 1] != 'b' {
        None
    } else {
        let j1 = j0 - 1;
        let ustart = if j1 > 0 && (l[j1 - 1] == 'k' || l[j1 - 1] == 'm' || l[j1 - 1] == 'g' || l[j1 - 1] == 't') {
            j1 - 1
        } else {
            j1
        };
        let num_end = ws_back(l, ustart);
        let run = num_run_back(l, num_end);
        let s = first_number(l, run, num_end);
        if s < num_end {
            Some((s, l.subrange(s, num_end), l.subrange(ustart, j0)))
        } else {
            None
        }
    }
}

/// `l` without trailing ASCII whitespace, as a length.
pub open spec fn rtrim_len(l: Seq<char>, e: int) -> int {
    ws_back(l, e)
}

/// The leftmost match of APT's size sentence in a lowercased line, as
/// `(start, Some((number, unit)))` for `NUM UNIT disk space will be freed`
/// or `(start, None)` for `after this operation, NUM UNIT of additional
/// disk space will be used`; the earlier start wins, the freed sentence on
/// a tie.
pub open spec fn best_match(l: Seq<char>, i: int) -> Option<(int, Option<(Seq<char>, Seq<char>)>)>
    decreases l.len() - i,
{
    if i < 0 || i >= l.len() {
        None
    } else {
        let rest = best_match(l, i + 1);
        let freed = if occurs_at(l, "disk space will be freed"@, i) {
            match num_unit_before(l, i) {
                Some((s, v, u)) => Some((s, Some((v, u)))),
                None => None,
            }
        } else {
            None
        };
        let used = if occurs_at(l, "of additional disk space will be used"@, i) {
            match num_unit_before(l, i) {
                Some((s, v, u)) => {
                    let e = rtrim_len(l, s);
                    let a = "after this operation,"@;
                    if e >= a.len() && l.subrange(e - a.len(), e) == a {
                        Some((e - a.len(), None::<(Seq<char>, Seq<char>)>))
                    } else {
                        None
                    }
                },
                None => None,
            }
        } else {
            None
        };
        earliest(earliest(freed, used), rest)
    }
}

/// The candidate with the smaller start; the first on a tie.
pub open spec fn earliest(
    a: Option<(int, Option<(Seq<char>, Seq<char>)>)>,
    b: Option<(int, Option<(Seq<char>, Seq<char>)>)>,
) -> Option<(int, Option<(Seq<char>, Seq<char>)>)> {
    match (a, b) {
        (None, _) => b,
        (_, None) => a,
        (Some(x), Some(y)) => if y.0 < x.0 {
            b
        } else {
            a
        },
    }
}

/// ASCII letters lowered.
pub open spec fn ascii_lower(s: Seq<char>) -> Seq<char> {
    s.map_values(|c: char| if 'A' <= c <= 'Z' { ((c as u32) + 32) as char } else { c })
}

/// The number and unit of the last line whose leftmost size sentence is the
/// freed one (lines are trimmed and lowercased first).
pub open spec fn freed_from(ls: Seq<Seq<char>>, n: int) -> Option<(Seq<char>, Seq<char>)>
    decreases n,
{
    if n <= 0 || n > ls.len() {
        None
    } else {
        match best_match(ascii_lower(trim(ls[n - 1])), 0) {
            Some((_, Some(m))) => Some(m),
            _ => freed_from(ls, n - 1),
        }
    }
}

pub(crate) fn lower_ascii(s: &[char]) -> (r: Vec<char>)
    ensures
        r@ == ascii_lower(s@),
{
    let mut r: Vec<char> = Vec::new();
    let mut i: usize = 0;
    while i < s.len()
        invariant
            i <= s@.len(),
            r@ == ascii_lower(s@.subrange(0, i as int)),
        decreases s.len() - i,
    {
        let c = s[i];
        let d = if 'A' <= c && c <= 'Z' {
            let x: u8 = (c as u8) + 32;
            x as char
        } else {
            c
        };
        r.push(d);
        assert(ascii_lower(s@.subrange(0, i + 1)) =~= ascii_lower(s@.subrange(0, i as int)).push(d));
        i += 1;
    }
    assert(s@.subrange(0, i as int) =~= s@);
    r
}


fn ws_back_exec(l: &[char], j: usize) -> (k: usize)
    requires
        j <= l@.len(),
    ensures
        k as int == ws_back(l@, j as int),
        k <= j,
{
    let mut k = j;
    while k > 0 && (l[k - 1] == ' ' || l[k - 1] == '\t' || l[k - 1] == '\n' || l[k - 1] == '\x0C' || l[k - 1] == '\r')
        invariant
            k <= j <= l@.len(),
            ws_back(l@, j as int) == ws_back(l@, k as int),
        decreases k,
    {
        k -= 1;
    }
    k
}

fn all_digits_exec(l: &[char], s: usize, e: usize) -> (b: bool)
    requires
        s <= e <= l@.len(),
    ensures
        b == all_digits(l@.subrange(s as int, e as int)),
{
    if s == e {
        return false;
    }
    let mut k = s;
    while k < e
        invariant
            s <= k <= e <= l@.len(),
            forall|x: int| s <= x < k ==> is_digit(l@[x]),
        decreases e - k,
    {
        if !('0' <= l[k] && l[k] <= '9') {
            assert(!is_digit(l@.subrange(s as int, e as int)[k - s]));
            return false;
        }
        k += 1;
    }
    assert forall|x: int| 0 <= x < e - s implies is_digit(l@.subrange(s as int, e as int)[x]) by {
        assert(l@.subrange(s as int, e as int)[x] == l@[s + x]);
    }
    true
}

fn apt_number_exec(l: &[char], s: usize, e: usize) -> (b: bool)
    requires
        s <= e <= l@.len(),
    ensures
        b == apt_number(l@.subrange(s as int, e as int)),
{
    let ghost t = l@.subrange(s as int, e as int);
    if all_digits_exec(l, s, e) {
        return true;
    }
    let mut d = s;
    while d < e && l[d] != '.'
        invariant
            s <= d <= e <= l@.len(),
            forall|x: int| s <= x < d ==> l@[x] != '.',
        decreases e - d,
    {
        d += 1;
    }
    if d == e {
        assert forall|x: int| 0 < x < t.len() - 1 implies !(t[x] == '.' && all_digits(t.subrange(0, x)) && all_digits(t.subrange(x + 1, t.len() as int))) by {
            assert(t[x] == l@[s + x]);
        }
        return false;
    }
    let ok = d > s && d + 1 < e && all_digits_exec(l, s, d) && all_digits_exec(l, d + 1, e);
    proof {
        let dd = d - s;
        assert(t.subrange(0, dd) =~= l@.subrange(s as int, d as int));
        assert(t.subrange(dd + 1, t.len() as int) =~= l@.subrange(d + 1, e as int));
        assert(t[dd] == '.');
        if !ok {
            assert forall|x: int| 0 < x < t.len() - 1 implies !(t[x] == '.' && all_digits(t.subrange(0, x)) && all_digits(t.subrange(x + 1, t.len() as int))) by {
                if t[x] == '.' && all_digits(t.subrange(0, x)) && all_digits(t.subrange(x + 1, t.len() as int)) {
                    if x < dd {
                        assert(t[x] == l@[s + x]);
                    } else if x > dd {
                        assert(t.subrange(0, x)[dd] == '.');
                    }
                }
            }
        }
    }
    ok
}

fn num_unit_before_exec(l: &[char], p: usize) -> (r: Option<(usize, usize, usize, usize)>)
    requires
        p <= l@.len(),
    ensures
        match num_unit_before(l@, p as int) {
            None => r is None,
            Some((s, v, u)) => r matches Some((s2, e2, us, ue)) && s2 == s && s2 <= e2 <= l@.len()
                && us <= ue <= l@.len() && l@.subrange(s2 as int, e2 as int) == v
                && l@.subrange(us as int, ue as int) == u,
        },
{
    let j0 = ws_back_exec(l, p);
    if j0 == p || j0 == 0 || l[j0 - 1] != 'b' {
        return None;
    }
    let j1 = j0 - 1;
    let ustart = if j1 > 0 && (l[j1 - 1] == 'k' || l[j1 - 1] == 'm' || l[j1 - 1] == 'g' || l[j1 - 1] == 't') {
        j1 - 1
    } else {
        j1
    };
    let num_end = ws_back_exec(l, ustart);
    let mut run = num_end;
    while run > 0 && (('0' <= l[run - 1] && l[run - 1] <= '9') || l[run - 1] == '.')
        invariant
            run <= num_end <= l@.len(),
            num_run_back(l@, num_end as int) == num_run_back(l@, run as int),
        decreases run,
    {
        run -= 1;
    }
    let mut s = run;
    while s < num_end && !(('0' <= l[s] && l[s] <= '9') && apt_number_exec(l, s, num_end))
        invariant
            run <= s <= num_end <= l@.len(),
            first_number(l@, run as int, num_end as int) == first_number(l@, s as int, num_end as int),
        decreases num_end - s,
    {
        s += 1;
    }
    if s < num_end {
        Some((s, num_end, ustart, j0))
    } else {
        None
    }
}

/// Whether `p` occurs in `l` at `at`.
fn occurs(l: &[char], p: &str, at: usize) -> (b: bool)
    ensures
        b == occurs_at(l@, p@, at as int),
{
    let pc = chars_of(p);
    if at <= l.len() {
        crate::text::matches_at(l, pc.as_slice(), at)
    } else {
        false
    }
}

fn earliest_exec(
    a: Option<(usize, Option<(usize, usize, usize, usize)>)>,
    b: Option<(usize, Option<(usize, usize, usize, usize)>)>,
) -> (r: Option<(usize, Option<(usize, usize, usize, usize)>)>)
    ensures
        match (a, b) {
            (None, _) => r == b,
            (_, None) => r == a,
            (Some(x), Some(y)) => r == if y.0 < x.0 { b } else { a },
        },
{
    match (a, b) {
        (None, _) => b,
        (_, None) => a,
        (Some(x), Some(y)) => if y.0 < x.0 {
            b
        } else {
            a
        },
    }
}

pub open spec fn match_view(l: Seq<char>, m: Option<(usize, Option<(usize, usize, usize, usize)>)>) -> Option<(int, Option<(Seq<char>, Seq<char>)>)> {
    match m {
        None => None,
        Some((s, None)) => Some((s as int, None)),
        Some((s, Some((a, b, c, d)))) => Some((s as int, Some((l.subrange(a as int, b as int), l.subrange(c as int, d as int))))),
    }
}

pub open spec fn bounds_ok(n: int, m: Option<(usize, Option<(usize, usize, usize, usize)>)>) -> bool {
    match m {
        Some((_, Some((a, b, c, d)))) => a <= b <= n && c <= d <= n,
        _ => true,
    }
}

fn best_match_exec(l: &[char]) -> (r: Option<(usize, Option<(usize, usize, usize, usize)>)>)
    ensures
        match_view(l@, r) == best_match(l@, 0),
        bounds_ok(l@.len() as int, r),
{
    let mut best: Option<(usize, Option<(usize, usize, usize, usize)>)> = None;
    let mut i = l.len();
    while i > 0
        invariant
            i <= l@.len(),
            match_view(l@, best) == best_match(l@, i as int),
            bounds_ok(l@.len() as int, best),
        decreases i,
    {
        i -= 1;
        let freed = if occurs(l, "disk space will be freed", i) {
            match num_unit_before_exec(l, i) {
                Some((s, e, us, ue)) => Some((s, Some((s, e, us, ue)))),
                None => None,
            }
        } else {
            None
        };
        let used = if occurs(l, "of additional disk space will be used", i) {
            match num_unit_before_exec(l, i) {
                Some((s, _e, _us, _ue)) => {
                    let e = ws_back_exec(l, s);
                    let a = chars_of("after this operation,");
                    if e >= a.len() && crate::text::matches_at(l, a.as_slice(), e - a.len()) {
                        Some((e - a.len(), None))
                    } else {
                        None
                    }
                },
                None => None,
            }
        } else {
            None
        };
        let fu = earliest_exec(freed, used);
        assert(match_view(l@, fu) == earliest(match_view(l@, freed), match_view(l@, used)));
        let ghost old_best = best;
        best = earliest_exec(fu, best);
        assert(match_view(l@, best) == earliest(match_view(l@, fu), match_view(l@, old_best)));
    }
    best
}


/// The number and unit of the size APT says its autoremove frees: taken
/// from the last line whose leftmost size sentence is `NUM UNIT disk space
/// will be freed` (lines trimmed and lowercased). A line saying how much
/// additional space will be used is not reclaimable and does not count.
pub fn freed_space(output: &str) -> (r: Option<(String, String)>)
    ensures
        match freed_from(split(output@, '\n'), split(output@, '\n').len() as int) {
            None => r is None,
            Some((v, u)) => r matches Some((v2, u2)) && v2@ == v && u2@ == u,
        },
{
    let c = chars_of(output);
    let ls = split_on(c.as_slice(), '\n');
    let ghost lv = views(ls@);
    let mut found: Option<(String, String)> = None;
    let mut i: usize = 0;
    while i < ls.len()
        invariant
            i <= ls@.len(),
            lv == views(ls@),
            match freed_from(lv, i as int) {
                None => found is None,
                Some((v, u)) => found matches Some((v2, u2)) && v2@ == v && u2@ == u,
            },
        decreases ls.len() - i,
    {
        let t = trimmed(ls[i].as_slice());
        let l = lower_ascii(t.as_slice());
        match best_match_exec(l.as_slice()) {
            Some((_, Some((a, b, cc, d)))) => {
                let v = crate::text::slice_of(l.as_slice(), a, b);
                let u = crate::text::slice_of(l.as_slice(), cc, d);
                found = Some((string_of(v.as_slice()), string_of(u.as_slice())));
            },
            _ => {},
        }
        i += 1;
    }
    found
}

/// The bytes per unit of an apt size: `KB`, `MB`, `GB` and `TB` (in any
/// case) are decimal; anything else counts as bytes.
pub open spec fn apt_multiplier_of(unit: Seq<char>) -> u64 {
    let u = crate::text::uppercase(unit);
    if u == "KB"@ {
        1_000
    } else if u == "MB"@ {
        1_000_000
    } else if u == "GB"@ {
        1_000_000_000
    } else if u == "TB"@ {
        1_000_000_000_000
    } else {
        1
    }
}

/// APT's size units are decimal, each a thousand times the one below it:
/// a unit it does not name (such as `B`) is one byte, `kB` a thousand
/// bytes, and `MB`, `GB`, `TB` each a thousand times the previous one,
/// whatever the letters' case.
pub proof fn law_apt_units_are_decimal(b: Seq<char>, k: Seq<char>, m: Seq<char>, g: Seq<char>, t: Seq<char>)
    requires
        crate::text::uppercase(b) == "B"@,
        crate::text::uppercase(k) == "KB"@,
        crate::text::uppercase(m) == "MB"@,
        crate::text::uppercase(g) == "GB"@,
        crate::text::uppercase(t) == "TB"@,
    ensures
        apt_multiplier_of(b) == 1,
        apt_multiplier_of(k) == 1000 * apt_multiplier_of(b),
        apt_multiplier_of(m) == 1000 * apt_multiplier_of(k),
        apt_multiplier_of(g) == 1000 * apt_multiplier_of(m),
        apt_multiplier_of(t) == 1000 * apt_multiplier_of(g),
{
    reveal_strlit("B");
    reveal_strlit("KB");
    reveal_strlit("MB");
    reveal_strlit("GB");
    reveal_strlit("TB");
    assert("B"@ != "KB"@ && "B"@ != "MB"@ && "B"@ != "GB"@ && "B"@ != "TB"@) by {
        assert("B"@.len() == 1 && "KB"@.len() == 2 && "MB"@.len() == 2 && "GB"@.len() == 2 && "TB"@.len() == 2);
    }
    assert("KB"@ != "MB"@ && "KB"@ != "GB"@ && "KB"@ != "TB"@) by {
        assert("KB"@[0] != "MB"@[0] && "KB"@[0] != "GB"@[0] && "KB"@[0] != "TB"@[0]);
    }
    assert("MB"@ != "GB"@ && "MB"@ != "TB"@) by {
        assert("MB"@[0] != "GB"@[0] && "MB"@[0] != "TB"@[0]);
    }
    assert("GB"@ != "TB"@) by {
        assert("GB"@[0] != "TB"@[0]);
    }
}

/// The bytes per unit of an apt size unit (the caller multiplies the
/// number by it).
pub fn apt_multiplier(unit: &str) -> (m: u64)
    ensures
        m == apt_multiplier_of(unit@),
{
    let u = chars_of(crate::text::to_upper(unit).as_str());
    if crate::text::eq_str(u.as_slice(), "KB") {
        1_000
    } else if crate::text::eq_str(u.as_slice(), "MB") {
        1_000_000
    } else if crate::text::eq_str(u.as_slice(), "GB") {
        1_000_000_000
    } else if crate::text::eq_str(u.as_slice(), "TB") {
        1_000_000_000_000
    } else {
        1
    }
}

/// What APT's autoremove simulation says: the packages it would remove,
/// and the number it gives for the space freed with the bytes of its unit
/// (the caller multiplies them); none when it names no freed space.
pub fn parse_autoremove_simulation(output: &str) -> (r: (Vec<String>, Option<(String, u64)>))
    ensures
        string_views(r.0@) == removals(split(output@, '\n'), split(output@, '\n').len() as int),
        match freed_from(split(output@, '\n'), split(output@, '\n').len() as int) {
            None => r.1 is None,
            Some((v, u)) => r.1 matches Some((n, m)) && n@ == v && m == apt_multiplier_of(u),
        },
{
    let packages = autoremove_candidates(output);
    let size = match freed_space(output) {
        None => None,
        Some((v, u)) => {
            let m = apt_multiplier(u.as_str());
            Some((v, m))
        },
    };
    (packages, size)
}

} // verus!
