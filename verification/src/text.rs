//! Character-sequence helpers shared by the parsers: whitespace, trimming,
//! field splitting and line splitting, each stated over `Seq<char>`.

use vstd::prelude::*;

verus! {

/// Unicode `White_Space` property, as `char::is_whitespace` documents it.
pub open spec fn is_ws(c: char) -> bool {
    ||| ('\u{9}' <= c && c <= '\u{d}')
    ||| c == ' '
    ||| c == '\u{85}'
    ||| c == '\u{a0}'
    ||| c == '\u{1680}'
    ||| ('\u{2000}' <= c && c <= '\u{200a}')
    ||| c == '\u{2028}'
    ||| c == '\u{2029}'
    ||| c == '\u{202f}'
    ||| c == '\u{205f}'
    ||| c == '\u{3000}'
}

/// `char::is_whitespace`.
pub fn is_whitespace(c: char) -> (b: bool)
    ensures
        b == is_ws(c),
{
    ('\u{9}' <= c && c <= '\u{d}') || c == ' ' || c == '\u{85}' || c == '\u{a0}' || c == '\u{1680}'
        || ('\u{2000}' <= c && c <= '\u{200a}') || c == '\u{2028}' || c == '\u{2029}' || c
        == '\u{202f}' || c == '\u{205f}' || c == '\u{3000}'
}

/// The view of each vector in a sequence of character vectors.
pub open spec fn views(v: Seq<Vec<char>>) -> Seq<Seq<char>> {
    v.map_values(|x: Vec<char>| x@)
}

/// The view of each string in a sequence of strings.
pub open spec fn string_views(v: Seq<String>) -> Seq<Seq<char>> {
    v.map_values(|x: String| x@)
}

/// First index at or after `i` that is not whitespace (or the length).
pub open spec fn skip_ws(s: Seq<char>, i: int) -> int
    decreases s.len() - i,
{
    if 0 <= i < s.len() && is_ws(s[i]) {
        skip_ws(s, i + 1)
    } else {
        i
    }
}

/// First index at or after `i` that is whitespace (or the length).
pub open spec fn word_end(s: Seq<char>, i: int) -> int
    decreases s.len() - i,
{
    if 0 <= i < s.len() && !is_ws(s[i]) {
        word_end(s, i + 1)
    } else {
        i
    }
}

pub proof fn lemma_skip_ws(s: Seq<char>, i: int)
    requires
        0 <= i <= s.len(),
    ensures
        i <= skip_ws(s, i) <= s.len(),
        skip_ws(s, i) < s.len() ==> !is_ws(s[skip_ws(s, i)]),
        forall|j: int| i <= j < skip_ws(s, i) ==> is_ws(s[j]),
    decreases s.len() - i,
{
    if i < s.len() && is_ws(s[i]) {
        lemma_skip_ws(s, i + 1);
    }
}

pub proof fn lemma_word_end(s: Seq<char>, i: int)
    requires
        0 <= i <= s.len(),
    ensures
        i <= word_end(s, i) <= s.len(),
        word_end(s, i) < s.len() ==> is_ws(s[word_end(s, i)]),
        forall|j: int| i <= j < word_end(s, i) ==> !is_ws(s[j]),
    decreases s.len() - i,
{
    if i < s.len() && !is_ws(s[i]) {
        lemma_word_end(s, i + 1);
    }
}

/// The whitespace-separated fields of `s` from index `i` on
/// (`str::split_whitespace`).
pub open spec fn fields_from(s: Seq<char>, i: int) -> Seq<Seq<char>>
    decreases s.len() - i,
{
    if 0 <= i <= s.len() {
        let a = skip_ws(s, i);
        if a >= s.len() {
            seq![]
        } else {
            let b = word_end(s, a);
            proof {
                lemma_skip_ws(s, i);
                lemma_word_end(s, a);
            }
            seq![s.subrange(a, b)] + fields_from(s, b)
        }
    } else {
        seq![]
    }
}

/// `str::split_whitespace` collected into a sequence.
pub open spec fn fields(s: Seq<char>) -> Seq<Seq<char>> {
    fields_from(s, 0)
}

/// Leading whitespace removed (`str::trim_start`).
pub open spec fn trim_start(s: Seq<char>) -> Seq<char> {
    s.subrange(skip_ws(s, 0), s.len() as int)
}

/// Index just past the last non-whitespace character before `i`.
pub open spec fn rskip_ws(s: Seq<char>, i: int) -> int
    decreases i,
{
    if 0 < i <= s.len() && is_ws(s[i - 1]) {
        rskip_ws(s, i - 1)
    } else {
        i
    }
}

pub proof fn lemma_rskip_ws(s: Seq<char>, i: int)
    requires
        0 <= i <= s.len(),
    ensures
        0 <= rskip_ws(s, i) <= i,
        rskip_ws(s, i) > 0 ==> !is_ws(s[rskip_ws(s, i) - 1]),
        forall|j: int| rskip_ws(s, i) <= j < i ==> is_ws(s[j]),
    decreases i,
{
    if 0 < i && is_ws(s[i - 1]) {
        lemma_rskip_ws(s, i - 1);
    }
}

/// Trailing whitespace removed (`str::trim_end`).
pub open spec fn trim_end(s: Seq<char>) -> Seq<char> {
    s.subrange(0, rskip_ws(s, s.len() as int))
}

/// Leading and trailing whitespace removed (`str::trim`).
pub open spec fn trim(s: Seq<char>) -> Seq<char> {
    trim_end(trim_start(s))
}

/// First index at or after `i` holding `c` (or the length).
pub open spec fn find_from(s: Seq<char>, c: char, i: int) -> int
    decreases s.len() - i,
{
    if 0 <= i < s.len() && s[i] != c {
        find_from(s, c, i + 1)
    } else {
        i
    }
}

pub proof fn lemma_find_from(s: Seq<char>, c: char, i: int)
    requires
        0 <= i <= s.len(),
    ensures
        i <= find_from(s, c, i) <= s.len(),
        find_from(s, c, i) < s.len() ==> s[find_from(s, c, i)] == c,
        forall|j: int| i <= j < find_from(s, c, i) ==> s[j] != c,
    decreases s.len() - i,
{
    if i < s.len() && s[i] != c {
        lemma_find_from(s, c, i + 1);
    }
}

/// The pieces of `s` from index `i` on, separated by `c` (`str::split`).
pub open spec fn split_from(s: Seq<char>, c: char, i: int) -> Seq<Seq<char>>
    decreases s.len() - i,
{
    if 0 <= i <= s.len() {
        let k = find_from(s, c, i);
        proof {
            lemma_find_from(s, c, i);
        }
        if k >= s.len() {
            seq![s.subrange(i, s.len() as int)]
        } else {
            seq![s.subrange(i, k)] + split_from(s, c, k + 1)
        }
    } else {
        seq![]
    }
}

/// `str::split(c)` collected into a sequence.
pub open spec fn split(s: Seq<char>, c: char) -> Seq<Seq<char>> {
    split_from(s, c, 0)
}

/// One `\r` removed from the end, if present.
pub open spec fn strip_cr(s: Seq<char>) -> Seq<char> {
    if s.len() > 0 && s.last() == '\r' {
        s.drop_last()
    } else {
        s
    }
}

/// The lines of `s` from index `i` on, as `BufRead::lines` yields them:
/// split at `\n`, a `\r` before the `\n` dropped, no empty final line.
pub open spec fn lines_from(s: Seq<char>, i: int) -> Seq<Seq<char>>
    decreases s.len() - i,
{
    if 0 <= i < s.len() {
        let k = find_from(s, '\n', i);
        proof {
            lemma_find_from(s, '\n', i);
        }
        if k >= s.len() {
            seq![s.subrange(i, s.len() as int)]
        } else {
            seq![strip_cr(s.subrange(i, k))] + lines_from(s, k + 1)
        }
    } else {
        seq![]
    }
}

/// The lines of `s` (`str::lines` / `BufRead::lines`).
pub open spec fn lines(s: Seq<char>) -> Seq<Seq<char>> {
    lines_from(s, 0)
}

/// The characters of a string slice.
pub fn chars_of(s: &str) -> (v: Vec<char>)
    ensures
        v@ == s@,
{
    broadcast use vstd::string::axiom_spec_iter;
    let mut v: Vec<char> = Vec::new();
    for c in iter: s.chars()
        invariant
            v@ == iter.seq().subrange(0, iter.index() as int),
            iter.seq() == s@,
    {
        v.push(c);
    }
    v
}

/// `String::push`: appends one character.
#[verifier::external_body]
fn push_char(s: &mut String, c: char)
    ensures
        final(s)@ == old(s)@.push(c),
{
    s.push(c)
}

/// A string holding exactly the given characters.
pub fn string_of(v: &[char]) -> (s: String)
    ensures
        s@ == v@,
{
    let mut s = String::new();
    let mut i: usize = 0;
    while i < v.len()
        invariant
            i <= v@.len(),
            s@ == v@.subrange(0, i as int),
        decreases v.len() - i,
    {
        push_char(&mut s, v[i]);
        assert(v@.subrange(0, i + 1) =~= v@.subrange(0, i as int).push(v@[i as int]));
        i += 1;
    }
    assert(v@.subrange(0, v@.len() as int) =~= v@);
    s
}

/// The text `format!("{:?}", s)` gives for a string: the string in double
/// quotes, with quotes, backslashes and unprintable characters escaped.
pub uninterp spec fn debug_repr(s: Seq<char>) -> Seq<char>;

/// `format!("{:?}", s)` for a string slice.
#[verifier::external_body]
pub(crate) fn debug_quote(s: &str) -> (r: String)
    ensures
        r@ == debug_repr(s@),
{
    format!("{:?}", s)
}

/// The text `str::to_lowercase` gives (Unicode lowercase mapping).
pub uninterp spec fn lowercase(s: Seq<char>) -> Seq<char>;

/// `str::to_lowercase`.
#[verifier::external_body]
pub(crate) fn to_lower(s: &str) -> (r: String)
    ensures
        r@ == lowercase(s@),
{
    s.to_lowercase()
}

/// The text `str::to_uppercase` gives (Unicode uppercase mapping).
pub uninterp spec fn uppercase(s: Seq<char>) -> Seq<char>;

/// `str::to_uppercase`.
#[verifier::external_body]
pub(crate) fn to_upper(s: &str) -> (r: String)
    ensures
        r@ == uppercase(s@),
{
    s.to_uppercase()
}

/// A copy of `s[lo..hi]`.
pub fn slice_of(s: &[char], lo: usize, hi: usize) -> (r: Vec<char>)
    requires
        lo <= hi <= s@.len(),
    ensures
        r@ == s@.subrange(lo as int, hi as int),
{
    let mut r: Vec<char> = Vec::new();
    let mut i = lo;
    while i < hi
        invariant
            lo <= i <= hi <= s@.len(),
            r@ == s@.subrange(lo as int, i as int),
        decreases hi - i,
    {
        r.push(s[i]);
        i += 1;
    }
    r
}

/// `s@ == t@` for two character slices.
pub fn eq(s: &[char], t: &[char]) -> (b: bool)
    ensures
        b == (s@ == t@),
{
    if s.len() != t.len() {
        return false;
    }
    let mut i: usize = 0;
    while i < s.len()
        invariant
            s@.len() == t@.len(),
            i <= s@.len(),
            forall|j: int| 0 <= j < i ==> s@[j] == t@[j],
        decreases s.len() - i,
    {
        if s[i] != t[i] {
            return false;
        }
        i += 1;
    }
    assert(s@ =~= t@);
    true
}

/// Whether `s` equals the string `lit`.
pub fn eq_str(s: &[char], lit: &str) -> (b: bool)
    ensures
        b == (s@ == lit@),
{
    let t = chars_of(lit);
    eq(s, t.as_slice())
}

/// Whether `s` starts with `p` (`str::starts_with`).
pub fn starts_with(s: &[char], p: &[char]) -> (b: bool)
    ensures
        b == (p@.len() <= s@.len() && s@.subrange(0, p@.len() as int) == p@),
{
    if p.len() > s.len() {
        return false;
    }
    let mut i: usize = 0;
    while i < p.len()
        invariant
            p@.len() <= s@.len(),
            i <= p@.len(),
            forall|j: int| 0 <= j < i ==> s@[j] == p@[j],
        decreases p.len() - i,
    {
        if s[i] != p[i] {
            assert(s@.subrange(0, p@.len() as int)[i as int] != p@[i as int]);
            return false;
        }
        i += 1;
    }
    assert(s@.subrange(0, p@.len() as int) =~= p@);
    true
}

/// Whether `p` occurs in `s` at index `at`.
pub open spec fn occurs_at(s: Seq<char>, p: Seq<char>, at: int) -> bool {
    0 <= at && at + p.len() <= s.len() && s.subrange(at, at + p.len()) == p
}

/// Whether `p` occurs at index `at` of `s`.
pub fn matches_at(s: &[char], p: &[char], at: usize) -> (b: bool)
    ensures
        b == occurs_at(s@, p@, at as int),
{
    if at > s.len() || p.len() > s.len() - at {
        return false;
    }
    let mut i: usize = 0;
    while i < p.len()
        invariant
            at + p@.len() <= s@.len(),
            s@.len() == s.len(),
            i <= p@.len(),
            forall|j: int| 0 <= j < i ==> s@[at + j] == p@[j],
        decreases p.len() - i,
    {
        if s[at + i] != p[i] {
            assert(s@.subrange(at as int, at + p@.len())[i as int] != p@[i as int]);
            return false;
        }
        i += 1;
    }
    assert(s@.subrange(at as int, at + p@.len()) =~= p@);
    true
}

/// Whether `p` occurs anywhere in `s` (`str::contains`).
pub fn contains(s: &[char], p: &[char]) -> (b: bool)
    ensures
        b == exists|k: int| occurs_at(s@, p@, k),
{
    if p.len() > s.len() {
        return false;
    }
    let last = s.len() - p.len();
    let mut k: usize = 0;
    loop
        invariant
            p@.len() <= s@.len(),
            last == s@.len() - p@.len(),
            k <= last,
            forall|j: int| 0 <= j < k ==> !occurs_at(s@, p@, j),
        decreases last - k,
    {
        if matches_at(s, p, k) {
            return true;
        }
        if k == last {
            return false;
        }
        k += 1;
    }
}

/// Whether `c` occurs in `s`.
pub fn contains_char(s: &[char], c: char) -> (b: bool)
    ensures
        b == s@.contains(c),
{
    let mut i: usize = 0;
    while i < s.len()
        invariant
            i <= s@.len(),
            forall|j: int| 0 <= j < i ==> s@[j] != c,
        decreases s.len() - i,
    {
        if s[i] == c {
            return true;
        }
        i += 1;
    }
    false
}

/// The first index at or after `i` holding `c`, or the length.
pub fn find_char(s: &[char], c: char, i: usize) -> (k: usize)
    requires
        i <= s@.len(),
    ensures
        k as int == find_from(s@, c, i as int),
        i <= k <= s@.len(),
{
    let mut k = i;
    while k < s.len() && s[k] != c
        invariant
            i <= k <= s@.len(),
            find_from(s@, c, i as int) == find_from(s@, c, k as int),
        decreases s.len() - k,
    {
        k += 1;
    }
    k
}

/// Appends the characters of `t` to `out`.
pub fn push_all(out: &mut Vec<char>, t: &[char])
    ensures
        final(out)@ == old(out)@ + t@,
{
    let mut i: usize = 0;
    while i < t.len()
        invariant
            i <= t@.len(),
            out@ == old(out)@ + t@.subrange(0, i as int),
        decreases t.len() - i,
    {
        out.push(t[i]);
        i += 1;
    }
    assert(t@.subrange(0, t@.len() as int) =~= t@);
}

/// Appends the characters of `lit` to `out`.
pub fn push_str(out: &mut Vec<char>, lit: &str)
    ensures
        final(out)@ == old(out)@ + lit@,
{
    let t = chars_of(lit);
    push_all(out, t.as_slice());
}

/// `str::split_whitespace` collected into character vectors.
pub fn split_fields(s: &[char]) -> (r: Vec<Vec<char>>)
    ensures
        views(r@) == fields(s@),
{
    let mut r: Vec<Vec<char>> = Vec::new();
    let mut i: usize = 0;
    let ghost total = fields(s@);
    while i < s.len()
        invariant
            i <= s@.len(),
            total == fields(s@),
            views(r@) + fields_from(s@, i as int) == total,
        decreases s.len() - i,
    {
        if is_whitespace(s[i]) {
            i += 1;
        } else {
            let a = i;
            while i < s.len() && !is_whitespace(s[i])
                invariant
                    a <= i <= s@.len(),
                    word_end(s@, a as int) == word_end(s@, i as int),
                decreases s.len() - i,
            {
                i += 1;
            }
            proof {
                lemma_word_end(s@, a as int);
            }
            let w = slice_of(s, a, i);
            let ghost before = views(r@);
            r.push(w);
            assert(views(r@) =~= before.push(w@));
            assert(fields_from(s@, a as int) =~= seq![s@.subrange(a as int, i as int)]
                + fields_from(s@, i as int));
        }
    }
    assert(fields_from(s@, i as int) =~= Seq::<Seq<char>>::empty());
    assert(views(r@) =~= total);
    r
}

/// Trim bounds: `s[lo..hi]` is `trim(s)`.
pub fn trim_bounds(s: &[char]) -> (r: (usize, usize))
    ensures
        r.0 <= r.1 <= s@.len(),
        s@.subrange(r.0 as int, r.1 as int) == trim(s@),
        r.0 == skip_ws(s@, 0),
{
    let mut lo: usize = 0;
    while lo < s.len() && is_whitespace(s[lo])
        invariant
            lo <= s@.len(),
            skip_ws(s@, 0) == skip_ws(s@, lo as int),
        decreases s.len() - lo,
    {
        lo += 1;
    }
    let ghost t = trim_start(s@);
    let mut hi: usize = s.len();
    while hi > lo && is_whitespace(s[hi - 1])
        invariant
            lo <= hi <= s@.len(),
            t == s@.subrange(lo as int, s@.len() as int),
            rskip_ws(t, t.len() as int) == rskip_ws(t, hi - lo),
        decreases hi,
    {
        assert(t[hi - lo - 1] == s@[hi - 1]);
        hi -= 1;
    }
    assert(hi == lo || !is_ws(t[hi - lo - 1]));
    assert(rskip_ws(t, hi - lo) == hi - lo);
    assert(trim(s@) =~= s@.subrange(lo as int, hi as int));
    (lo, hi)
}

/// `str::trim` as a new character vector.
pub fn trimmed(s: &[char]) -> (r: Vec<char>)
    ensures
        r@ == trim(s@),
{
    let (lo, hi) = trim_bounds(s);
    slice_of(s, lo, hi)
}

/// `str::split(c)` collected into character vectors.
pub fn split_on(s: &[char], c: char) -> (r: Vec<Vec<char>>)
    ensures
        views(r@) == split(s@, c),
{
    let mut r: Vec<Vec<char>> = Vec::new();
    let mut start: usize = 0;
    let mut i: usize = 0;
    let ghost total = split(s@, c);
    while i < s.len()
        invariant
            start <= i <= s@.len(),
            total == split(s@, c),
            find_from(s@, c, start as int) == find_from(s@, c, i as int),
            views(r@) + split_from(s@, c, start as int) == total,
        decreases s.len() - i,
    {
        if s[i] == c {
            let w = slice_of(s, start, i);
            let ghost before = views(r@);
            r.push(w);
            assert(views(r@) =~= before.push(w@));
            assert(split_from(s@, c, start as int) =~= seq![s@.subrange(start as int, i as int)]
                + split_from(s@, c, i + 1));
            i += 1;
            start = i;
        } else {
            i += 1;
        }
    }
    let w = slice_of(s, start, i);
    let ghost before = views(r@);
    r.push(w);
    assert(views(r@) =~= before.push(w@));
    assert(split_from(s@, c, start as int) =~= seq![s@.subrange(start as int, i as int)]);
    assert(views(r@) =~= total);
    r
}

/// `BufRead::lines` over the whole text, collected into character vectors.
pub fn split_lines(s: &[char]) -> (r: Vec<Vec<char>>)
    ensures
        views(r@) == lines(s@),
{
    let mut r: Vec<Vec<char>> = Vec::new();
    let mut start: usize = 0;
    let mut i: usize = 0;
    let ghost total = lines(s@);
    while i < s.len()
        invariant
            start <= i <= s@.len(),
            total == lines(s@),
            start < s@.len() ==> find_from(s@, '\n', start as int) == find_from(
                s@,
                '\n',
                i as int,
            ),
            start == s@.len() ==> start == i,
            views(r@) + lines_from(s@, start as int) == total,
        decreases s.len() - i,
    {
        if s[i] == '\n' {
            let mut end = i;
            if end > start && s[end - 1] == '\r' {
                end -= 1;
            }
            let w = slice_of(s, start, end);
            let ghost before = views(r@);
            r.push(w);
            assert(views(r@) =~= before.push(w@));
            assert(w@ =~= strip_cr(s@.subrange(start as int, i as int)));
            assert(lines_from(s@, start as int) =~= seq![w@] + lines_from(s@, i + 1));
            i += 1;
            start = i;
        } else {
            i += 1;
        }
    }
    if start < s.len() {
        let w = slice_of(s, start, i);
        let ghost before = views(r@);
        r.push(w);
        assert(views(r@) =~= before.push(w@));
        assert(lines_from(s@, start as int) =~= seq![s@.subrange(start as int, i as int)]);
    } else {
        assert(lines_from(s@, start as int) =~= Seq::<Seq<char>>::empty());
    }
    assert(views(r@) =~= total);
    r
}

/// `n` spaces.
pub open spec fn spaces(n: nat) -> Seq<char> {
    Seq::new(n, |i: int| ' ')
}

/// `s` right-aligned in a field of `w` characters.
pub open spec fn right_aligned(s: Seq<char>, w: nat) -> Seq<char> {
    if s.len() < w {
        spaces((w - s.len()) as nat) + s
    } else {
        s
    }
}

/// The texts one after another.
pub open spec fn concat(s: Seq<Seq<char>>) -> Seq<char>
    decreases s.len(),
{
    if s.len() == 0 {
        seq![]
    } else {
        concat(s.drop_last()) + s.last()
    }
}

/// `s` padded with spaces on the right to `w` characters.
pub open spec fn left_aligned(s: Seq<char>, w: nat) -> Seq<char> {
    if s.len() < w {
        s + spaces((w - s.len()) as nat)
    } else {
        s
    }
}

/// Appends `n` spaces.
pub fn push_spaces(out: &mut Vec<char>, n: u128)
    ensures
        final(out)@ == old(out)@ + spaces(n as nat),
{
    let ghost base = out@;
    let mut i: u128 = 0;
    while i < n
        invariant
            i <= n,
            out@ == base + spaces(i as nat),
        decreases n - i,
    {
        out.push(' ');
        assert(out@ =~= base + spaces((i + 1) as nat));
        i += 1;
    }
}

/// Appends `s` right-aligned in a field of `w` characters.
pub fn push_right(out: &mut Vec<char>, s: &[char], w: usize)
    ensures
        final(out)@ == old(out)@ + right_aligned(s@, w as nat),
{
    if s.len() < w {
        push_spaces(out, (w - s.len()) as u128);
    }
    push_all(out, s);
}

/// Appends `s` left-aligned in a field of `w` characters.
pub fn push_left(out: &mut Vec<char>, s: &[char], w: usize)
    ensures
        final(out)@ == old(out)@ + left_aligned(s@, w as nat),
{
    push_all(out, s);
    if s.len() < w {
        push_spaces(out, (w - s.len()) as u128);
    }
}

/// `s` without its leading whitespace.
pub fn trimmed_start(s: &[char]) -> (r: Vec<char>)
    ensures
        r@ == trim_start(s@),
{
    let mut k: usize = 0;
    while k < s.len() && is_whitespace(s[k])
        invariant
            k <= s@.len(),
            skip_ws(s@, 0) == skip_ws(s@, k as int),
        decreases s.len() - k,
    {
        k += 1;
    }
    slice_of(s, k, s.len())
}

} // verus!
