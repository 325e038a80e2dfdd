//! The pure parts of moving files to the trash: the percent-encoding of
//! the original path in the `.trashinfo` file, and the mount point that
//! holds a path, read from the text of `/proc/self/mountinfo`.

use vstd::prelude::*;
use crate::error::{Error, message_of};
use vstd::string::StringSliceAdditionalSpecFns;
use crate::paths::{clean, clean_path, contains_path, path_contains};
use crate::text::{chars_of, eq, fields, lines, push_all, push_str, split_fields, split_lines, string_of, views};

verus! {

/// The bytes left as they are: ASCII letters and digits and `-_.~$&+:=@`.
pub open spec fn unreserved(b: u8) -> bool {
    ||| 65 <= b <= 90
    ||| 97 <= b <= 122
    ||| 48 <= b <= 57
    ||| b == 45 || b == 95 || b == 46 || b == 126 || b == 36 || b == 38 || b == 43 || b == 58 || b == 61 || b == 64
}

/// The uppercase hexadecimal digit of `n < 16`.
pub open spec fn hex_digit(n: int) -> char {
    if n == 0 { '0' } else if n == 1 { '1' } else if n == 2 { '2' } else if n == 3 { '3' }
    else if n == 4 { '4' } else if n == 5 { '5' } else if n == 6 { '6' } else if n == 7 { '7' }
    else if n == 8 { '8' } else if n == 9 { '9' } else if n == 10 { 'A' } else if n == 11 { 'B' }
    else if n == 12 { 'C' } else if n == 13 { 'D' } else if n == 14 { 'E' } else { 'F' }
}

/// One byte, encoded: itself when unreserved, else `%XX`.
pub open spec fn encoded_byte(b: u8) -> Seq<char> {
    if unreserved(b) {
        seq![b as char]
    } else {
        seq!['%', hex_digit(b as int / 16), hex_digit(b as int % 16)]
    }
}

/// The bytes of a path, percent-encoded.
pub open spec fn percent_encoded(p: Seq<u8>) -> Seq<char>
    decreases p.len(),
{
    if p.len() == 0 {
        Seq::empty()
    } else {
        percent_encoded(p.drop_last()) + encoded_byte(p.last())
    }
}

/// The encoded path holds only unreserved characters and `%` escapes: no
/// `/`, no space, no control character.
pub proof fn law_percent_encoded_safe(p: Seq<u8>)
    ensures
        forall|i: int| 0 <= i < percent_encoded(p).len() ==> {
            let c = #[trigger] percent_encoded(p)[i];
            c != '/' && c != ' ' && ' ' < c
        },
    decreases p.len(),
{
    if p.len() > 0 {
        law_percent_encoded_safe(p.drop_last());
        let a = percent_encoded(p.drop_last());
        let b = encoded_byte(p.last());
        assert forall|i: int| 0 <= i < percent_encoded(p).len() implies {
            let c = #[trigger] percent_encoded(p)[i];
            c != '/' && c != ' ' && ' ' < c
        } by {
            if i < a.len() {
                assert(percent_encoded(p)[i] == a[i]);
            } else {
                assert(percent_encoded(p)[i] == b[i - a.len()]);
                let x = p.last();
                if unreserved(x) {
                    assert(b[0] == x as char);
                } else {
                    assert(0 <= x as int / 16 < 16);
                    assert(0 <= x as int % 16 < 16);
                }
            }
        }
    }
}

fn hex_char(n: u8) -> (c: char)
    requires
        n < 16,
    ensures
        c == hex_digit(n as int),
{
    match n {
        0 => '0',
        1 => '1',
        2 => '2',
        3 => '3',
        4 => '4',
        5 => '5',
        6 => '6',
        7 => '7',
        8 => '8',
        9 => '9',
        10 => 'A',
        11 => 'B',
        12 => 'C',
        13 => 'D',
        14 => 'E',
        _ => 'F',
    }
}

/// Percent-encodes the raw bytes of a path as the trash specification's
/// `Path=` entry wants: every byte but the unreserved ones (`/` included)
/// becomes `%XX` in uppercase hexadecimal.
pub fn percent_encode_path(path: &[u8]) -> (s: String)
    ensures
        s@ == percent_encoded(path@),
{
    let mut out: Vec<char> = Vec::new();
    let mut i: usize = 0;
    while i < path.len()
        invariant
            i <= path@.len(),
            out@ == percent_encoded(path@.subrange(0, i as int)),
        decreases path.len() - i,
    {
        let b = path[i];
        let keep = (65 <= b && b <= 90) || (97 <= b && b <= 122) || (48 <= b && b <= 57) || b == 45 || b == 95
            || b == 46 || b == 126 || b == 36 || b == 38 || b == 43 || b == 58 || b == 61 || b == 64;
        if keep {
            out.push(b as char);
        } else {
            out.push('%');
            out.push(hex_char(b / 16));
            out.push(hex_char(b % 16));
        }
        assert(path@.subrange(0, i + 1).drop_last() =~= path@.subrange(0, i as int));
        assert(out@ =~= percent_encoded(path@.subrange(0, i + 1)));
        i += 1;
    }
    assert(path@.subrange(0, i as int) =~= path@);
    string_of(out.as_slice())
}

/// `s` with every occurrence of `pat` (left to right, not overlapping)
/// replaced by `rep`.
pub open spec fn replace_all(s: Seq<char>, pat: Seq<char>, rep: Seq<char>) -> Seq<char>
    decreases s.len(),
{
    if pat.len() == 0 || s.len() < pat.len() {
        s
    } else if s.subrange(0, pat.len() as int) == pat {
        rep + replace_all(s.subrange(pat.len() as int, s.len() as int), pat, rep)
    } else {
        seq![s[0]] + replace_all(s.subrange(1, s.len() as int), pat, rep)
    }
}

fn replace_in(s: &[char], pat: &str, rep: &str) -> (r: Vec<char>)
    requires
        pat@.len() > 0,
    ensures
        r@ == replace_all(s@, pat@, rep@),
{
    let p = chars_of(pat);
    let q = chars_of(rep);
    let mut out: Vec<char> = Vec::new();
    let mut i: usize = 0;
    assert(s@.subrange(0, s@.len() as int) =~= s@);
    assert(out@ + replace_all(s@, pat@, rep@) =~= replace_all(s@, pat@, rep@));
    while i < s.len()
        invariant
            i <= s@.len(),
            p@ == pat@,
            q@ == rep@,
            p@.len() > 0,
            out@ + replace_all(s@.subrange(i as int, s@.len() as int), pat@, rep@) == replace_all(s@, pat@, rep@),
        decreases s.len() - i,
    {
        let ghost rest = s@.subrange(i as int, s@.len() as int);
        if s.len() - i < p.len() {
            assert(replace_all(rest, pat@, rep@) == rest);
            push_all(&mut out, crate::text::slice_of(s, i, s.len()).as_slice());
            assert(s@.subrange(s@.len() as int, s@.len() as int) =~= Seq::<char>::empty());
            assert(out@ + replace_all(s@.subrange(s@.len() as int, s@.len() as int), pat@, rep@) =~= replace_all(s@, pat@, rep@));
            i = s.len();
        } else if crate::text::matches_at(s, p.as_slice(), i) {
            assert(rest.subrange(0, pat@.len() as int) =~= s@.subrange(i as int, i + pat@.len()));
            assert(rest.subrange(pat@.len() as int, rest.len() as int) =~= s@.subrange(i + pat@.len(), s@.len() as int));
            push_all(&mut out, q.as_slice());
            i = i + p.len();
        } else {
            assert(rest.subrange(0, pat@.len() as int) =~= s@.subrange(i as int, i + pat@.len()));
            assert(rest.subrange(1, rest.len() as int) =~= s@.subrange(i + 1, s@.len() as int));
            out.push(s[i]);
            i = i + 1;
        }
    }
    assert(s@.subrange(i as int, s@.len() as int) =~= Seq::<char>::empty());
    out
}

/// A mount path from mountinfo with its escapes for space, tab, newline
/// and backslash decoded, one kind after the other.
pub open spec fn unescaped_mount(v: Seq<char>) -> Seq<char> {
    replace_all(
        replace_all(replace_all(replace_all(v, "\\040"@, " "@), "\\011"@, "\t"@), "\\012"@, "\n"@),
        "\\134"@,
        "\\"@,
    )
}

/// Decodes the escapes for space, tab, newline and backslash in a mount
/// path from mountinfo.
pub fn unescape_mount(value: &str) -> (r: String)
    ensures
        r@ == unescaped_mount(value@),
{
    proof {
        reveal_strlit("\\040");
        reveal_strlit("\\011");
        reveal_strlit("\\012");
        reveal_strlit("\\134");
    }
    let c = chars_of(value);
    let a = replace_in(c.as_slice(), "\\040", " ");
    let b = replace_in(a.as_slice(), "\\011", "\t");
    let d = replace_in(b.as_slice(), "\\012", "\n");
    let e = replace_in(d.as_slice(), "\\134", "\\");
    string_of(e.as_slice())
}

/// The number of bytes of the UTF-8 encoding of `s`, as `str::len` gives it.
pub open spec fn byte_len(s: Seq<char>) -> nat {
    (vstd::utf8::encode_utf8(s).len() as usize) as nat
}

/// The mount path of a mountinfo line (its fifth field, decoded and
/// cleaned), when the line has five fields.
pub open spec fn mount_of_line(l: Seq<char>) -> Option<Seq<char>> {
    let f = fields(l);
    if f.len() < 5 {
        None
    } else {
        Some(clean(unescaped_mount(f[4])))
    }
}

/// The longest (in bytes) mount among the first `k` lines that is
/// `target` or holds it; the first of equal length wins; empty if none.
pub open spec fn best_mount(ls: Seq<Seq<char>>, target: Seq<char>, k: int) -> Seq<char>
    decreases k,
{
    if k <= 0 {
        Seq::empty()
    } else {
        let b = best_mount(ls, target, k - 1);
        match mount_of_line(ls[k - 1]) {
            Some(m) => if (target == m || contains_path(m, target)) && byte_len(m) > byte_len(b) {
                m
            } else {
                b
            },
            None => b,
        }
    }
}

/// The mount chosen from a mountinfo text is the cleaned path itself or
/// holds it.
pub proof fn law_mount_holds_path(ls: Seq<Seq<char>>, target: Seq<char>, k: int)
    ensures
        best_mount(ls, target, k).len() > 0 ==> target == best_mount(ls, target, k) || contains_path(
            best_mount(ls, target, k),
            target,
        ),
    decreases k,
{
    if k > 0 {
        law_mount_holds_path(ls, target, k - 1);
    }
}

/// The mount point holding `path`, from the text of mountinfo.
pub open spec fn mount_point(contents: Seq<char>, path: Seq<char>) -> Result<Seq<char>, Seq<char>> {
    let ls = lines(contents);
    let b = best_mount(ls, clean(path), ls.len() as int);
    if b.len() == 0 {
        Err("no mount point found for "@ + path)
    } else {
        Ok(b)
    }
}

proof fn lemma_byte_len_zero(s: Seq<char>)
    ensures
        s.len() == 0 ==> byte_len(s) == 0,
{
}

fn byte_count(s: &String) -> (n: usize)
    ensures
        n == byte_len(s@),
{
    let st = s.as_str();
    assert(st.spec_bytes() == vstd::utf8::encode_utf8(st@));
    st.len()
}

/// The mount point that holds `path` (the longest mount path that is the
/// cleaned path or contains it), read from the text of mountinfo.
pub fn mount_point_in(contents: &str, path: &str) -> (r: Result<String, Error>)
    ensures
        match mount_point(contents@, path@) {
            Ok(m) => r matches Ok(s) && s@ == m,
            Err(e) => r matches Err(x) && x is Msg && message_of(x) == e,
        },
{
    let target = string_of(clean_path(path).as_slice());
    let c = chars_of(contents);
    let ls = split_lines(c.as_slice());
    let mut best = String::new();
    let mut best_len: usize = 0;
    let mut i: usize = 0;
    proof {
        reveal_strlit("");
        lemma_byte_len_zero(best@);
    }
    while i < ls.len()
        invariant
            i <= ls@.len(),
            views(ls@) == lines(contents@),
            target@ == clean(path@),
            best@ == best_mount(views(ls@), clean(path@), i as int),
            best_len == byte_len(best@),
            best_len == 0 <==> best@.len() == 0,
        decreases ls.len() - i,
    {
        let f = split_fields(ls[i].as_slice());
        assert(ls@[i as int]@ == views(ls@)[i as int]);
        if f.len() >= 5 {
            let u = unescape_mount(string_of(f[4].as_slice()).as_str());
            let m = string_of(clean_path(u.as_str()).as_slice());
            let mc = chars_of(m.as_str());
            let tc = chars_of(target.as_str());
            let hit = eq(tc.as_slice(), mc.as_slice()) || path_contains(m.as_str(), target.as_str());
            let ml = byte_count(&m);
            proof {
                lemma_byte_len_zero(m@);
            }
            if hit && ml > best_len {
                best = m;
                best_len = ml;
            }
        }
        i += 1;
    }
    if best_len == 0 {
        proof {
            lemma_byte_len_zero(best@);
        }
        let mut t = chars_of("no mount point found for ");
        let p = chars_of(path);
        push_all(&mut t, p.as_slice());
        return Err(Error::Msg(string_of(t.as_slice())));
    }
    proof {
        lemma_byte_len_zero(best@);
    }
    Ok(best)
}

/// The `.trashinfo` text of a trashed path: the trash specification's
/// header, the percent-encoded original path, and the deletion date.
pub open spec fn trash_info(path: Seq<u8>, date: Seq<char>) -> Seq<char> {
    "[Trash Info]\nPath="@ + percent_encoded(path) + "\nDeletionDate="@ + date + "\n"@
}

/// The `.trashinfo` text for the raw bytes of a path and a deletion date.
pub fn trash_info_text(path: &[u8], date: &str) -> (s: String)
    ensures
        s@ == trash_info(path@, date@),
{
    let mut t = chars_of("[Trash Info]\nPath=");
    let e = percent_encode_path(path);
    let ec = chars_of(e.as_str());
    push_all(&mut t, ec.as_slice());
    push_str(&mut t, "\nDeletionDate=");
    let d = chars_of(date);
    push_all(&mut t, d.as_slice());
    push_str(&mut t, "\n");
    string_of(t.as_slice())
}

} // verus!
