//! Parsers for the kernel's text files: the `cpu` line of `/proc/stat`,
//! `/proc/meminfo`, `/proc/self/mountinfo` and `/proc/net/dev`.
//!
//! Each parser takes the lines read from the file and, when reading stopped
//! on an error, that error's text; `*_from` variants take the whole text.

use vstd::prelude::*;
use super::model::{CPUSample, DiskStat, MemStats, NetStat};
use vstd::string::StringSliceAdditionalSpecFns;
use crate::error::{Error, message_of};
use crate::audit::findings::{id_less, id_lt, lemma_id_lt_irreflexive, lemma_id_lt_total, lemma_id_lt_transitive};
use crate::fmt::{dec, fmt_u64};
use crate::text::{
    chars_of, debug_quote, debug_repr, eq_str, fields, lines, push_all, push_str, split_fields,
    split_lines, string_of, string_views, trim, trimmed, views,
};

verus! {

// ---------------------------------------------------------------------------
// Unsigned integers
// ---------------------------------------------------------------------------

/// Why an unsigned integer failed to parse.
#[derive(Debug, Clone, Copy, PartialEq, Eq, Structural)]
pub enum IntError {
    Empty,
    InvalidDigit,
    PosOverflow,
}

/// The text of a parse error, as Rust's `ParseIntError` prints it.
pub open spec fn int_error_text(e: IntError) -> Seq<char> {
    match e {
        IntError::Empty => "cannot parse integer from empty string"@,
        IntError::InvalidDigit => "invalid digit found in string"@,
        IntError::PosOverflow => "number too large to fit in target type"@,
    }
}

pub fn int_error_message(e: IntError) -> (s: &'static str)
    ensures
        s@ == int_error_text(e),
{
    match e {
        IntError::Empty => "cannot parse integer from empty string",
        IntError::InvalidDigit => "invalid digit found in string",
        IntError::PosOverflow => "number too large to fit in target type",
    }
}

pub open spec fn is_digit(c: char) -> bool {
    '0' <= c <= '9'
}

/// Decimal digits from index `i` on, on top of `acc`: the first character
/// that is no digit, or the first digit that takes the value past
/// `u64::MAX`, is an error.
pub open spec fn digits_value(d: Seq<char>, i: int, acc: nat) -> Result<nat, IntError>
    decreases d.len() - i,
{
    if i < 0 || i >= d.len() {
        Ok(acc)
    } else if !is_digit(d[i]) {
        Err(IntError::InvalidDigit)
    } else if acc * 10 + (d[i] as int - '0' as int) > u64::MAX {
        Err(IntError::PosOverflow)
    } else {
        digits_value(d, i + 1, (acc * 10 + (d[i] as int - '0' as int)) as nat)
    }
}

/// `u64::from_str`: an optional `+`, then decimal digits.
pub open spec fn parse_u64_spec(s: Seq<char>) -> Result<nat, IntError> {
    if s.len() == 0 {
        Err(IntError::Empty)
    } else if s == "+"@ || s == "-"@ {
        Err(IntError::InvalidDigit)
    } else if s[0] == '+' {
        digits_value(s, 1, 0)
    } else {
        digits_value(s, 0, 0)
    }
}

pub proof fn lemma_digits_bound(d: Seq<char>, i: int, acc: nat)
    requires
        acc <= u64::MAX,
    ensures
        digits_value(d, i, acc) matches Ok(v) ==> v <= u64::MAX,
    decreases d.len() - i,
{
    if 0 <= i < d.len() && is_digit(d[i]) && acc * 10 + (d[i] as int - '0' as int) <= u64::MAX {
        lemma_digits_bound(d, i + 1, (acc * 10 + (d[i] as int - '0' as int)) as nat);
    }
}

/// One more digit `c` after a run of digits read so far.
pub open spec fn digit_step(r: Result<nat, IntError>, c: char) -> Result<nat, IntError> {
    match r {
        Err(e) => Err(e),
        Ok(v) => if !is_digit(c) {
            Err(IntError::InvalidDigit)
        } else if v * 10 + (c as int - '0' as int) > u64::MAX {
            Err(IntError::PosOverflow)
        } else {
            Ok((v * 10 + (c as int - '0' as int)) as nat)
        },
    }
}

proof fn lemma_digits_push(a: Seq<char>, c: char, i: int, acc: nat)
    requires
        0 <= i <= a.len(),
    ensures
        digits_value(a.push(c), i, acc) == digit_step(digits_value(a, i, acc), c),
    decreases a.len() - i,
{
    let d = a.push(c);
    if i < a.len() {
        assert(d[i] == a[i]);
        if is_digit(a[i]) && acc * 10 + (a[i] as int - '0' as int) <= u64::MAX {
            lemma_digits_push(a, c, i + 1, (acc * 10 + (a[i] as int - '0' as int)) as nat);
        }
    } else {
        assert(d[i] == c);
        assert(digits_value(d, i + 1, (acc * 10 + (c as int - '0' as int)) as nat) == Ok::<nat, IntError>(
            (acc * 10 + (c as int - '0' as int)) as nat,
        ));
    }
}

proof fn lemma_digit_char(d: int)
    requires
        0 <= d < 10,
    ensures
        is_digit(crate::fmt::digit(d)),
        crate::fmt::digit(d) as int - '0' as int == d,
{
}

proof fn lemma_dec_digits(n: nat)
    ensures
        n <= u64::MAX ==> digits_value(crate::fmt::dec(n), 0, 0) == Ok::<nat, IntError>(n),
        crate::fmt::dec(n).len() > 0,
        is_digit(crate::fmt::dec(n)[0]),
    decreases n,
{
    if n < 10 {
        lemma_digit_char(n as int);
        let d = crate::fmt::dec(n);
        assert(d == seq![crate::fmt::digit(n as int)]);
        assert(digits_value(d, 1, n) == Ok::<nat, IntError>(n));
    } else {
        let q = n / 10;
        let r = n % 10;
        lemma_dec_digits(q);
        lemma_digit_char(r as int);
        let a = crate::fmt::dec(q);
        lemma_digits_push(a, crate::fmt::digit(r as int), 0, 0);
        assert(q * 10 + r == n) by (nonlinear_arith)
            requires
                q == n / 10,
                r == n % 10,
        ;
        assert(crate::fmt::dec(n)[0] == a[0]);
    }
}

/// Reading a number back: parsing the decimal text of any `u64` gives the
/// number.
pub proof fn law_parse_reads_decimal(n: u64)
    ensures
        parse_u64_spec(crate::fmt::dec(n as nat)) == Ok::<nat, IntError>(n as nat),
{
    lemma_dec_digits(n as nat);
    reveal_strlit("+");
    reveal_strlit("-");
    let d = crate::fmt::dec(n as nat);
    if d == "+"@ {
        assert(d[0] == '+');
    }
    if d == "-"@ {
        assert(d[0] == '-');
    }
}

/// Parses an unsigned 64-bit decimal integer the way `str::parse::<u64>` does.
pub fn parse_u64(s: &[char]) -> (r: Result<u64, IntError>)
    ensures
        match parse_u64_spec(s@) {
            Ok(v) => r == Ok::<u64, IntError>(v as u64),
            Err(e) => r == Err::<u64, IntError>(e),
        },
        r matches Ok(v) ==> parse_u64_spec(s@) == Ok::<nat, IntError>(v as nat),
{
    proof {
        reveal_strlit("+");
        reveal_strlit("-");
    }
    if s.len() == 0 {
        return Err(IntError::Empty);
    }
    if s.len() == 1 && (s[0] == '+' || s[0] == '-') {
        assert(s@ =~= "+"@ || s@ =~= "-"@);
        return Err(IntError::InvalidDigit);
    }
    let start: usize = if s[0] == '+' { 1 } else { 0 };
    proof {
        if s@.len() == 1 {
            assert(s@ != "+"@ && s@ != "-"@);
        } else {
            assert(s@.len() != "+"@.len());
            assert(s@.len() != "-"@.len());
        }
    }
    assert(parse_u64_spec(s@) == digits_value(s@, start as int, 0));
    let mut acc: u64 = 0;
    let mut i = start;
    while i < s.len()
        invariant
            start <= i <= s@.len(),
            parse_u64_spec(s@) == digits_value(s@, start as int, 0),
            digits_value(s@, start as int, 0) == digits_value(s@, i as int, acc as nat),
        decreases s.len() - i,
    {
        let c = s[i];
        if !('0' <= c && c <= '9') {
            return Err(IntError::InvalidDigit);
        }
        let x: u64 = ((c as u32) - ('0' as u32)) as u64;
        assert(x as int == c as int - '0' as int);
        let wide: u128 = (acc as u128) * 10 + (x as u128);
        if wide > 0xFFFF_FFFF_FFFF_FFFFu128 {
            return Err(IntError::PosOverflow);
        }
        acc = wide as u64;
        i += 1;
    }
    proof {
        lemma_digits_bound(s@, start as int, 0);
    }
    Ok(acc)
}

// ---------------------------------------------------------------------------
// /proc/stat
// ---------------------------------------------------------------------------

/// Whether a `/proc/stat` line is the aggregate `cpu ` line.
pub open spec fn is_cpu_line(l: Seq<char>) -> bool {
    l.len() >= 4 && l.subrange(0, 4) == "cpu "@
}

/// Index of the first aggregate cpu line (or the count).
pub open spec fn first_cpu_line(ls: Seq<Seq<char>>, i: int) -> int
    decreases ls.len() - i,
{
    if 0 <= i < ls.len() && !is_cpu_line(ls[i]) {
        first_cpu_line(ls, i + 1)
    } else {
        i
    }
}

/// The first failing of the eight counters from field `k` on, with its
/// 1-based field number.
pub open spec fn first_bad_field(f: Seq<Seq<char>>, k: int) -> Option<(int, IntError)>
    decreases 9 - k,
{
    if k < 1 || k > 8 {
        None
    } else {
        match parse_u64_spec(f[k]) {
            Err(e) => Some((k, e)),
            Ok(_) => first_bad_field(f, k + 1),
        }
    }
}

pub open spec fn counter(f: Seq<Seq<char>>, k: int) -> u64 {
    match parse_u64_spec(f[k]) {
        Ok(v) => v as u64,
        Err(_) => 0,
    }
}

/// The result of reading the cpu line out of `/proc/stat`'s lines.
pub open spec fn cpu_result(ls: Seq<Seq<char>>) -> Result<CPUSample, Seq<char>> {
    let k = first_cpu_line(ls, 0);
    if k >= ls.len() {
        Err("no cpu line found in /proc/stat"@)
    } else {
        let f = fields(ls[k]);
        if f.len() < 9 {
            Err("unexpected /proc/stat format: "@ + debug_repr(ls[k]))
        } else {
            match first_bad_field(f, 1) {
                Some((n, e)) => Err("parse /proc/stat field "@ + dec(n as nat) + ": "@ + int_error_text(e)),
                None => Ok(CPUSample {
                    user: counter(f, 1),
                    nice: counter(f, 2),
                    system: counter(f, 3),
                    idle: counter(f, 4),
                    iowait: counter(f, 5),
                    irq: counter(f, 6),
                    softirq: counter(f, 7),
                    steal: counter(f, 8),
                }),
            }
        }
    }
}

/// Parses the aggregate `cpu` line from `/proc/stat`'s lines. Reading that
/// stopped on an error ends the search like the end of the file does.
pub fn read_cpu_lines(ls: &[String]) -> (r: Result<CPUSample, Error>)
    ensures
        match cpu_result(string_views(ls@)) {
            Ok(s) => r == Ok::<CPUSample, Error>(s),
            Err(t) => r matches Err(Error::Msg(m)) && m@ == t,
        },
{
    let ghost lv = string_views(ls@);
    let mut i: usize = 0;
    while i < ls.len()
        invariant
            i <= ls@.len(),
            lv == string_views(ls@),
            first_cpu_line(lv, 0) == first_cpu_line(lv, i as int),
        decreases ls.len() - i,
    {
        let line = chars_of(ls[i].as_str());
        let is_cpu = line.len() >= 4 && line[0] == 'c' && line[1] == 'p' && line[2] == 'u' && line[3] == ' ';
        proof {
            reveal_strlit("cpu ");
            if is_cpu {
                assert(line@.subrange(0, 4) =~= "cpu "@);
            } else if line@.len() >= 4 {
                assert(line@.subrange(0, 4)[0] == line@[0]);
                assert(line@.subrange(0, 4)[1] == line@[1]);
                assert(line@.subrange(0, 4)[2] == line@[2]);
                assert(line@.subrange(0, 4)[3] == line@[3]);
            }
        }
        if !is_cpu {
            i += 1;
        } else {
            let f = split_fields(line.as_slice());
            let ghost fv = views(f@);
            assert(first_cpu_line(lv, i as int) == i);
            assert(line@ == lv[i as int]);
            if f.len() < 9 {
                let mut t: Vec<char> = Vec::new();
                push_str(&mut t, "unexpected /proc/stat format: ");
                let q = debug_quote(ls[i].as_str());
                let qc = chars_of(q.as_str());
                push_all(&mut t, qc.as_slice());
                return Err(Error::Msg(string_of(t.as_slice())));
            }
            let mut vals: Vec<u64> = Vec::new();
            let mut k: usize = 1;
            while k <= 8
                invariant
                    1 <= k <= 9,
                    f@.len() >= 9,
                    fv == views(f@),
                    lv == string_views(ls@),
                    i < ls@.len(),
                    first_cpu_line(lv, 0) == i,
                    fv == fields(lv[i as int]),
                    first_bad_field(fv, 1) == first_bad_field(fv, k as int),
                    vals@.len() == k - 1,
                    forall|j: int| 1 <= j < k ==> vals@[j - 1] == counter(fv, j),
                decreases 9 - k,
            {
                match parse_u64(f[k].as_slice()) {
                    Err(e) => {
                        assert(first_bad_field(fv, k as int) == Some((k as int, e)));
                        let mut t: Vec<char> = Vec::new();
                        push_str(&mut t, "parse /proc/stat field ");
                        let n = fmt_u64(k as u64);
                        push_all(&mut t, n.as_slice());
                        push_str(&mut t, ": ");
                        push_str(&mut t, int_error_message(e));
                        return Err(Error::Msg(string_of(t.as_slice())));
                    },
                    Ok(v) => {
                        vals.push(v);
                    },
                }
                k += 1;
            }
            return Ok(CPUSample {
                user: vals[0],
                nice: vals[1],
                system: vals[2],
                idle: vals[3],
                iowait: vals[4],
                irq: vals[5],
                softirq: vals[6],
                steal: vals[7],
            });
        }
    }
    Err(Error::Msg(String::from_str("no cpu line found in /proc/stat")))
}

/// Parses the aggregate `cpu` line out of the text of `/proc/stat`.
pub fn read_cpu_from(text: &str) -> (r: Result<CPUSample, Error>)
    ensures
        match cpu_result(lines(text@)) {
            Ok(s) => r == Ok::<CPUSample, Error>(s),
            Err(t) => r matches Err(Error::Msg(m)) && m@ == t,
        },
{
    let ls = text_lines(text);
    read_cpu_lines(ls.as_slice())
}

/// The lines of a text, as reading it line by line yields them.
pub fn text_lines(text: &str) -> (r: Vec<String>)
    ensures
        string_views(r@) == lines(text@),
{
    let c = chars_of(text);
    let parts = split_lines(c.as_slice());
    let ghost pv = views(parts@);
    let mut out: Vec<String> = Vec::new();
    let mut i: usize = 0;
    while i < parts.len()
        invariant
            i <= parts@.len(),
            pv == views(parts@),
            string_views(out@) == pv.subrange(0, i as int),
        decreases parts.len() - i,
    {
        let ghost before = string_views(out@);
        out.push(string_of(parts[i].as_slice()));
        assert(string_views(out@) =~= before.push(pv[i as int]));
        assert(pv.subrange(0, i + 1) =~= pv.subrange(0, i as int).push(pv[i as int]));
        i += 1;
    }
    assert(pv.subrange(0, i as int) =~= pv);
    out
}

// ---------------------------------------------------------------------------
// /proc/meminfo
// ---------------------------------------------------------------------------

/// The meminfo keys read, with the names their errors use.
pub open spec fn mem_key_name(key: Seq<char>) -> Option<Seq<char>> {
    if key == "MemTotal:"@ {
        Some("MemTotal"@)
    } else if key == "MemAvailable:"@ {
        Some("MemAvailable"@)
    } else if key == "SwapTotal:"@ {
        Some("SwapTotal"@)
    } else if key == "SwapFree:"@ {
        Some("SwapFree"@)
    } else {
        None
    }
}

/// The stats after the given lines, or the first parse error.
pub open spec fn mem_scan(ls: Seq<Seq<char>>) -> Result<MemStats, Seq<char>>
    decreases ls.len(),
{
    if ls.len() == 0 {
        Ok(MemStats { total_kb: 0, available_kb: 0, swap_total_kb: 0, swap_free_kb: 0 })
    } else {
        match mem_scan(ls.drop_last()) {
            Err(e) => Err(e),
            Ok(m) => {
                let f = fields(ls.last());
                if f.len() < 2 {
                    Ok(m)
                } else {
                    match mem_key_name(f[0]) {
                        None => Ok(m),
                        Some(name) => match parse_u64_spec(f[1]) {
                            Err(e) => Err("parse "@ + name + ": "@ + int_error_text(e)),
                            Ok(v) => Ok(if f[0] == "MemTotal:"@ {
                                MemStats { total_kb: v as u64, ..m }
                            } else if f[0] == "MemAvailable:"@ {
                                MemStats { available_kb: v as u64, ..m }
                            } else if f[0] == "SwapTotal:"@ {
                                MemStats { swap_total_kb: v as u64, ..m }
                            } else {
                                MemStats { swap_free_kb: v as u64, ..m }
                            }),
                        },
                    }
                }
            },
        }
    }
}

/// The result of reading `/proc/meminfo`: the first parse error, then the
/// read error, then a missing total or more available than total.
pub open spec fn mem_result(ls: Seq<Seq<char>>, read_error: Option<Seq<char>>) -> Result<MemStats, Seq<char>> {
    match mem_scan(ls) {
        Err(e) => Err(e),
        Ok(m) => match read_error {
            Some(e) => Err(e),
            None => if m.total_kb == 0 || m.available_kb > m.total_kb {
                Err("required memory metrics unavailable or invalid"@)
            } else {
                Ok(m)
            },
        },
    }
}

/// A parse error names the key whose value was not a number.
proof fn lemma_mem_scan_errors(ls: Seq<Seq<char>>)
    ensures
        mem_scan(ls) matches Err(e) ==> exists|name: Seq<char>, t: Seq<char>|
            (name == "MemTotal"@ || name == "MemAvailable"@ || name == "SwapTotal"@ || name == "SwapFree"@) && e
                == "parse "@ + name + ": "@ + t,
    decreases ls.len(),
{
    if ls.len() > 0 {
        lemma_mem_scan_errors(ls.drop_last());
        if mem_scan(ls.drop_last()) is Ok {
            let f = fields(ls.last());
            if f.len() >= 2 && mem_key_name(f[0]) is Some && parse_u64_spec(f[1]) is Err {
                let name = mem_key_name(f[0])->Some_0;
                let t = int_error_text(parse_u64_spec(f[1])->Err_0);
                assert(mem_scan(ls) == Err::<MemStats, Seq<char>>("parse "@ + name + ": "@ + t));
            }
        }
    }
}

/// Reading `/proc/meminfo` yields figures only with a positive total and no
/// more available than the total; otherwise the error names the key that
/// did not parse, is the read error, or says the figures are unusable.
pub proof fn law_memory_result(ls: Seq<Seq<char>>, read_error: Option<Seq<char>>)
    ensures
        mem_result(ls, read_error) matches Ok(m) ==> m.total_kb > 0 && m.available_kb <= m.total_kb,
        mem_result(ls, read_error) matches Err(e) ==> (exists|name: Seq<char>, t: Seq<char>|
            (name == "MemTotal"@ || name == "MemAvailable"@ || name == "SwapTotal"@ || name == "SwapFree"@) && e
                == "parse "@ + name + ": "@ + t) || read_error == Some(e) || e
            == "required memory metrics unavailable or invalid"@,
{
    lemma_mem_scan_errors(ls);
}

/// Parses `/proc/meminfo`'s lines; `read_error` is the text of the error
/// that stopped reading, if any.
pub fn read_memory_lines(ls: &[String], read_error: Option<String>) -> (r: Result<MemStats, Error>)
    ensures
        match mem_result(string_views(ls@), match read_error { Some(e) => Some(e@), None => None }) {
            Ok(m) => r == Ok::<MemStats, Error>(m),
            Err(t) => r matches Err(e) && message_of(e) == t,
        },
{
    let ghost lv = string_views(ls@);
    let mut m = MemStats { total_kb: 0, available_kb: 0, swap_total_kb: 0, swap_free_kb: 0 };
    let mut i: usize = 0;
    while i < ls.len()
        invariant
            i <= ls@.len(),
            lv == string_views(ls@),
            mem_scan(lv.subrange(0, i as int)) == Ok::<MemStats, Seq<char>>(m),
        decreases ls.len() - i,
    {
        assert(lv.subrange(0, i + 1).drop_last() =~= lv.subrange(0, i as int));
        assert(lv.subrange(0, i + 1).last() == lv[i as int]);
        let line = chars_of(ls[i].as_str());
        let f = split_fields(line.as_slice());
        if f.len() >= 2 {
            let key = f[0].as_slice();
            let which: u8 = if eq_str(key, "MemTotal:") {
                1
            } else if eq_str(key, "MemAvailable:") {
                2
            } else if eq_str(key, "SwapTotal:") {
                3
            } else if eq_str(key, "SwapFree:") {
                4
            } else {
                0
            };
            if which != 0 {
                let name = if which == 1 {
                    "MemTotal"
                } else if which == 2 {
                    "MemAvailable"
                } else if which == 3 {
                    "SwapTotal"
                } else {
                    "SwapFree"
                };
                match parse_u64(f[1].as_slice()) {
                    Err(e) => {
                        let mut t: Vec<char> = Vec::new();
                        push_str(&mut t, "parse ");
                        push_str(&mut t, name);
                        push_str(&mut t, ": ");
                        push_str(&mut t, int_error_message(e));
                        proof {
                            lemma_mem_scan_err(lv, i as int + 1);
                        }
                        return Err(Error::Msg(string_of(t.as_slice())));
                    },
                    Ok(v) => {
                        if which == 1 {
                            m.total_kb = v;
                        } else if which == 2 {
                            m.available_kb = v;
                        } else if which == 3 {
                            m.swap_total_kb = v;
                        } else {
                            m.swap_free_kb = v;
                        }
                    },
                }
            }
        }
        i += 1;
    }
    assert(lv.subrange(0, i as int) =~= lv);
    match read_error {
        Some(e) => return Err(Error::Io(e)),
        None => {},
    }
    if m.total_kb == 0 || m.available_kb > m.total_kb {
        return Err(Error::Msg(String::from_str("required memory metrics unavailable or invalid")));
    }
    Ok(m)
}

/// An error in the first `n` lines is the error of all of them.
pub proof fn lemma_mem_scan_err(ls: Seq<Seq<char>>, n: int)
    requires
        0 <= n <= ls.len(),
        mem_scan(ls.subrange(0, n)) is Err,
    ensures
        mem_scan(ls) == mem_scan(ls.subrange(0, n)),
    decreases ls.len() - n,
{
    if n < ls.len() {
        assert(ls.subrange(0, n + 1).drop_last() =~= ls.subrange(0, n));
        lemma_mem_scan_err(ls, n + 1);
    } else {
        assert(ls.subrange(0, n) =~= ls);
    }
}

/// Parses the text of `/proc/meminfo`.
pub fn read_memory_from(text: &str) -> (r: Result<MemStats, Error>)
    ensures
        match mem_result(lines(text@), None) {
            Ok(m) => r == Ok::<MemStats, Error>(m),
            Err(t) => r matches Err(e) && message_of(e) == t,
        },
{
    let ls = text_lines(text);
    read_memory_lines(ls.as_slice(), None)
}


// ---------------------------------------------------------------------------
// /proc/self/mountinfo
// ---------------------------------------------------------------------------

/// One mount: its mount point and filesystem type.
#[derive(Debug, Clone)]
pub struct MountEntry {
    pub mount: String,
    pub fstype: String,
}

/// What `statfs` reports of a mount, with the identity of its filesystem.
#[derive(Debug, Clone, Copy)]
pub struct StatfsInfo {
    pub blocks: u64,
    pub bsize: i64,
    pub bavail: u64,
    /// Same-filesystem key: mounts with equal keys are counted once.
    pub dev: u64,
}

/// The escapes the kernel writes in mount paths.
pub open spec fn escape_value(t: Seq<char>) -> Option<char> {
    if t == "040"@ {
        Some(' ')
    } else if t == "011"@ {
        Some('\t')
    } else if t == "012"@ {
        Some('\n')
    } else if t == "134"@ {
        Some('\\')
    } else {
        None
    }
}

/// One left-to-right pass from index `i`: a backslash followed by one of
/// the escapes becomes its character; a backslash not followed by one stays
/// and only it is consumed; replacements are not scanned again.
pub open spec fn unescape_from(s: Seq<char>, i: int) -> Seq<char>
    decreases s.len() - i,
{
    if i < 0 || i >= s.len() {
        seq![]
    } else if s[i] == '\\' && i + 4 <= s.len() && escape_value(s.subrange(i + 1, i + 4)) is Some {
        seq![escape_value(s.subrange(i + 1, i + 4))->0] + unescape_from(s, i + 4)
    } else {
        seq![s[i]] + unescape_from(s, i + 1)
    }
}

/// Decodes the octal escapes (`\040`, `\011`, `\012`, `\134`) of a mount path.
pub fn unescape_mount_path(value: &str) -> (r: String)
    ensures
        r@ == unescape_from(value@, 0),
{
    let c = chars_of(value);
    let mut out: Vec<char> = Vec::new();
    let mut i: usize = 0;
    while i < c.len()
        invariant
            i <= c@.len(),
            c@ == value@,
            out@ + unescape_from(c@, i as int) == unescape_from(c@, 0),
        decreases c.len() - i,
    {
        let ghost before = out@;
        if c[i] == '\\' && c.len() - i >= 4 {
            let t = crate::text::slice_of(c.as_slice(), i + 1, i + 4);
            let rep: Option<char> = if eq_str(t.as_slice(), "040") {
                Some(' ')
            } else if eq_str(t.as_slice(), "011") {
                Some('\t')
            } else if eq_str(t.as_slice(), "012") {
                Some('\n')
            } else if eq_str(t.as_slice(), "134") {
                Some('\\')
            } else {
                None
            };
            assert(rep == escape_value(c@.subrange(i + 1, i + 4)));
            match rep {
                Some(r) => {
                    out.push(r);
                    assert(out@ + unescape_from(c@, i + 4) =~= before + unescape_from(c@, i as int));
                    i += 4;
                },
                None => {
                    out.push('\\');
                    assert(out@ + unescape_from(c@, i + 1) =~= before + unescape_from(c@, i as int));
                    i += 1;
                },
            }
        } else {
            out.push(c[i]);
            assert(out@ + unescape_from(c@, i + 1) =~= before + unescape_from(c@, i as int));
            i += 1;
        }
    }
    assert(out@ =~= unescape_from(c@, 0));
    string_of(out.as_slice())
}

/// Index of the first ` - ` at or after `i` (or -1).
pub open spec fn find_sep(s: Seq<char>, i: int) -> int
    decreases s.len() - i,
{
    if i < 0 || i + 3 > s.len() {
        -1
    } else if s.subrange(i, i + 3) == " - "@ {
        i
    } else {
        find_sep(s, i + 1)
    }
}

/// The mount a mountinfo line describes: the line is cut at its first
/// ` - `; the fifth field before it is the (escaped) mount point and the
/// first field after it the filesystem type. Other lines describe none.
pub open spec fn mount_of(l: Seq<char>) -> Option<(Seq<char>, Seq<char>)> {
    let k = find_sep(l, 0);
    if k < 0 {
        None
    } else {
        let left = fields(l.subrange(0, k));
        let right = fields(l.subrange(k + 3, l.len() as int));
        if left.len() < 5 || right.len() == 0 {
            None
        } else {
            Some((unescape_from(left[4], 0), right[0]))
        }
    }
}

/// The mounts of the given lines, in order.
pub open spec fn mounts_of(ls: Seq<Seq<char>>) -> Seq<(Seq<char>, Seq<char>)>
    decreases ls.len(),
{
    if ls.len() == 0 {
        seq![]
    } else {
        mounts_of(ls.drop_last()) + match mount_of(ls.last()) {
            Some(m) => seq![m],
            None => seq![],
        }
    }
}

/// The mount point and type of each entry.
pub open spec fn entry_views(v: Seq<MountEntry>) -> Seq<(Seq<char>, Seq<char>)> {
    v.map_values(|e: MountEntry| (e.mount@, e.fstype@))
}

fn find_separator(l: &[char]) -> (k: Option<usize>)
    ensures
        match k {
            Some(x) => find_sep(l@, 0) == x as int && x + 3 <= l@.len(),
            None => find_sep(l@, 0) == -1,
        },
{
    let mut i: usize = 0;
    while i < l.len() && l.len() - i >= 3
        invariant
            find_sep(l@, 0) == find_sep(l@, i as int),
            i <= l@.len(),
        decreases l.len() - i,
    {
        let is_sep = l[i] == ' ' && l[i + 1] == '-' && l[i + 2] == ' ';
        proof {
            reveal_strlit(" - ");
            if is_sep {
                assert(l@.subrange(i as int, i + 3) =~= " - "@);
            } else {
                assert(l@.subrange(i as int, i + 3)[0] == l@[i as int]);
                assert(l@.subrange(i as int, i + 3)[1] == l@[i + 1]);
                assert(l@.subrange(i as int, i + 3)[2] == l@[i + 2]);
            }
        }
        if is_sep {
            return Some(i);
        }
        i += 1;
    }
    None
}

/// The mounts listed in mountinfo lines; lines without ` - ` or with too
/// few fields are skipped.
pub fn parse_mount_info(ls: &[String]) -> (r: Vec<MountEntry>)
    ensures
        entry_views(r@) == mounts_of(string_views(ls@)),
{
    let ghost lv = string_views(ls@);
    let mut out: Vec<MountEntry> = Vec::new();
    let mut i: usize = 0;
    while i < ls.len()
        invariant
            i <= ls@.len(),
            lv == string_views(ls@),
            entry_views(out@) == mounts_of(lv.subrange(0, i as int)),
        decreases ls.len() - i,
    {
        assert(lv.subrange(0, i + 1).drop_last() =~= lv.subrange(0, i as int));
        assert(lv.subrange(0, i + 1).last() == lv[i as int]);
        let l = chars_of(ls[i].as_str());
        let ghost before = entry_views(out@);
        match find_separator(l.as_slice()) {
            None => {},
            Some(k) => {
                let ln = l.len();
                assert(k + 3 <= ln);
                let left = crate::text::slice_of(l.as_slice(), 0, k);
                let right = crate::text::slice_of(l.as_slice(), k + 3, l.len());
                let lf = split_fields(left.as_slice());
                let rf = split_fields(right.as_slice());
                if lf.len() >= 5 && rf.len() > 0 {
                    let m = string_of(lf[4].as_slice());
                    let mount = unescape_mount_path(m.as_str());
                    let fstype = string_of(rf[0].as_slice());
                    out.push(MountEntry { mount, fstype });
                    assert(entry_views(out@) =~= before.push((mount@, fstype@)));
                }
            },
        }
        i += 1;
    }
    assert(lv.subrange(0, i as int) =~= lv);
    out
}

/// The filesystem types that are not disks.
pub open spec fn skip_fs_types() -> Seq<Seq<char>> {
    seq!["tmpfs"@, "proc"@, "sysfs"@, "devtmpfs"@, "cgroup"@, "cgroup2"@, "debugfs"@, "squashfs"@,
        "devpts"@, "hugetlbfs"@, "mqueue"@, "pstore"@, "securityfs"@, "fusectl"@, "binfmt_misc"@,
        "efivarfs"@, "tracefs"@, "configfs"@, "autofs"@, "rpc_pipefs"@, "nsfs"@, "fuse.portal"@,
        "bpf"@, "fuse.gvfsd-fuse"@]
}

fn skip_fs_list() -> (v: Vec<&'static str>)
    ensures
        v@.map_values(|s: &'static str| s@) == skip_fs_types(),
{
    let mut v: Vec<&'static str> = Vec::new();
    v.push("tmpfs");
    v.push("proc");
    v.push("sysfs");
    v.push("devtmpfs");
    v.push("cgroup");
    v.push("cgroup2");
    v.push("debugfs");
    v.push("squashfs");
    v.push("devpts");
    v.push("hugetlbfs");
    v.push("mqueue");
    v.push("pstore");
    v.push("securityfs");
    v.push("fusectl");
    v.push("binfmt_misc");
    v.push("efivarfs");
    v.push("tracefs");
    v.push("configfs");
    v.push("autofs");
    v.push("rpc_pipefs");
    v.push("nsfs");
    v.push("fuse.portal");
    v.push("bpf");
    v.push("fuse.gvfsd-fuse");
    assert(v@.map_values(|s: &'static str| s@) =~= skip_fs_types());
    v
}

fn is_skipped_fs(t: &String) -> (b: bool)
    ensures
        b == skip_fs_types().contains(t@),
{
    let v = skip_fs_list();
    let ghost sv = v@.map_values(|s: &'static str| s@);
    let tc = chars_of(t.as_str());
    let mut i: usize = 0;
    while i < v.len()
        invariant
            i <= v@.len(),
            sv == v@.map_values(|s: &'static str| s@),
            sv == skip_fs_types(),
            tc@ == t@,
            forall|j: int| 0 <= j < i ==> sv[j] != t@,
        decreases v.len() - i,
    {
        if eq_str(tc.as_slice(), v[i]) {
            assert(sv[i as int] == t@);
            return true;
        }
        i += 1;
    }
    false
}

/// The sort key of a mount: `/` first, then by the byte length of the path.
pub open spec fn mount_key(m: MountEntry) -> int {
    if m.mount@ == "/"@ {
        0
    } else {
        (vstd::utf8::encode_utf8(m.mount@).len() as usize) as int + 1
    }
}

/// `b` is `a` stably sorted by [`mount_key`] through the index map `perm`.
pub open spec fn mounts_sorted_by(a: Seq<MountEntry>, b: Seq<MountEntry>, perm: Seq<int>) -> bool {
    &&& b.len() == a.len()
    &&& perm.len() == a.len()
    &&& forall|k: int| 0 <= k < b.len() ==> 0 <= #[trigger] perm[k] < a.len() && b[k] == a[perm[k]]
    &&& forall|k: int, l: int| 0 <= k < l < b.len() ==> #[trigger] perm[k] != #[trigger] perm[l]
    &&& forall|k: int, l: int| 0 <= k < l < b.len() ==> mount_key(#[trigger] b[k]) <= mount_key(#[trigger] b[l])
    &&& forall|k: int, l: int|
        0 <= k < l < b.len() && mount_key(#[trigger] b[k]) == mount_key(#[trigger] b[l]) ==> perm[k] < perm[l]
}

fn key_of(m: &MountEntry) -> (k: u128)
    ensures
        k == mount_key(*m),
{
    let c = chars_of(m.mount.as_str());
    if eq_str(c.as_slice(), "/") {
        0
    } else {
        let st = m.mount.as_str();
        assert(st@ == m.mount@);
        let n = st.len();
        assert(st.spec_bytes() == vstd::utf8::encode_utf8(st@));
        (n as u128) + 1
    }
}

/// The mounts in a stable order: `/` first, then shorter paths first.
pub fn sort_mounts(input: Vec<MountEntry>) -> (out: Vec<MountEntry>)
    ensures
        exists|perm: Seq<int>| mounts_sorted_by(input@, out@, perm),
{
    let ghost orig = input@;
    let ghost n = orig.len();
    let mut input = input;
    let mut out: Vec<MountEntry> = Vec::new();
    let ghost mut perm: Seq<int> = seq![];
    let ghost mut i: int = 0;
    while input.len() > 0
        invariant
            0 <= i <= n,
            n == orig.len(),
            input@ == orig.subrange(i, n as int),
            out@.len() == i,
            perm.len() == i,
            forall|k: int| 0 <= k < i ==> 0 <= #[trigger] perm[k] < i && out@[k] == orig[perm[k]],
            forall|k: int, l: int| 0 <= k < l < i ==> #[trigger] perm[k] != #[trigger] perm[l],
            forall|k: int, l: int| 0 <= k < l < i ==> mount_key(#[trigger] out@[k]) <= mount_key(#[trigger] out@[l]),
            forall|k: int, l: int|
                0 <= k < l < i && mount_key(#[trigger] out@[k]) == mount_key(#[trigger] out@[l]) ==> perm[k] < perm[l],
        decreases input.len(),
    {
        let x = input.remove(0);
        assert(x == orig[i]);
        let kx = key_of(&x);
        let mut p: usize = 0;
        while p < out.len() && key_of(&out[p]) <= kx
            invariant
                p <= out@.len(),
                kx == mount_key(x),
                forall|k: int| 0 <= k < p ==> mount_key(#[trigger] out@[k]) <= mount_key(x),
            decreases out.len() - p,
        {
            p += 1;
        }
        let ghost s = out@;
        proof {
            let t = s.insert(p as int, x);
            let np = perm.insert(p as int, i);
            assert forall|k: int, l: int| 0 <= k < l < i + 1 implies mount_key(#[trigger] t[k])
                <= mount_key(#[trigger] t[l]) by {
                if k < p && l == p {
                } else if k == p && l > p {
                    assert(t[l] == s[l - 1]);
                    if l - 1 > p {
                        assert(mount_key(s[p as int]) <= mount_key(s[l - 1]));
                    }
                } else {
                    let kk = if k < p { k } else { k - 1 };
                    let ll = if l < p { l } else { l - 1 };
                    assert(t[k] == s[kk] && t[l] == s[ll]);
                }
            }
            assert forall|k: int| 0 <= k < i + 1 implies 0 <= #[trigger] np[k] < i + 1 && t[k]
                == orig[np[k]] by {
                if k < p {
                    assert(np[k] == perm[k]);
                } else if k > p {
                    assert(np[k] == perm[k - 1]);
                }
            }
            assert forall|k: int, l: int| 0 <= k < l < i + 1 implies #[trigger] np[k]
                != #[trigger] np[l] by {
                if k != p && l != p {
                    let kk = if k < p { k } else { k - 1 };
                    let ll = if l < p { l } else { l - 1 };
                    assert(np[k] == perm[kk] && np[l] == perm[ll]);
                } else if k == p {
                    assert(np[l] == perm[l - 1]);
                } else {
                    assert(np[k] == perm[k]);
                }
            }
            assert forall|k: int, l: int|
                0 <= k < l < i + 1 && mount_key(#[trigger] t[k]) == mount_key(#[trigger] t[l]) implies np[k]
                < np[l] by {
                if k != p && l != p {
                    let kk = if k < p { k } else { k - 1 };
                    let ll = if l < p { l } else { l - 1 };
                    assert(np[k] == perm[kk] && np[l] == perm[ll]);
                    assert(t[k] == s[kk] && t[l] == s[ll]);
                } else if k == p {
                    assert(np[l] == perm[l - 1]);
                    assert(t[l] == s[l - 1]);
                    if l - 1 > p {
                        assert(mount_key(s[p as int]) <= mount_key(s[l - 1]));
                    }
                } else {
                    assert(np[k] == perm[k]);
                }
            }
            perm = np;
            i = i + 1;
        }
        out.insert(p, x);
        assert(input@ =~= orig.subrange(i, n as int));
    }
    proof {
        assert(mounts_sorted_by(orig, out@, perm));
    }
    out
}

/// The mounts whose filesystems are asked for their size, in order.
pub open spec fn disk_candidates(sorted: Seq<MountEntry>) -> Seq<MountEntry> {
    sorted.filter(|m: MountEntry| !skip_fs_types().contains(m.fstype@))
}

/// Sorts the mounts (`/` first, then shorter paths first) and drops the
/// pseudo filesystems: the mounts to ask `statfs` about, in order.
pub fn disk_mounts(entries: Vec<MountEntry>) -> (r: Vec<MountEntry>)
    ensures
        exists|sorted: Seq<MountEntry>, perm: Seq<int>|
            mounts_sorted_by(entries@, sorted, perm) && r@ == disk_candidates(sorted),
{
    let sorted = sort_mounts(entries);
    let mut out: Vec<MountEntry> = Vec::new();
    let mut i: usize = 0;
    while i < sorted.len()
        invariant
            i <= sorted@.len(),
            out@ == disk_candidates(sorted@.subrange(0, i as int)),
        decreases sorted.len() - i,
    {
        proof {
            reveal(Seq::filter);
            assert(sorted@.subrange(0, i + 1).drop_last() =~= sorted@.subrange(0, i as int));
        }
        if !is_skipped_fs(&sorted[i].fstype) {
            out.push(sorted[i].clone_entry());
        }
        i += 1;
    }
    assert(sorted@.subrange(0, i as int) =~= sorted@);
    out
}

impl MountEntry {
    /// A field-by-field copy.
    pub fn clone_entry(&self) -> (e: MountEntry)
        ensures
            e == *self,
    {
        MountEntry { mount: self.mount.clone(), fstype: self.fstype.clone() }
    }
}

/// The disks and errors after the first mounts: per mount, a `statfs`
/// failure is reported; a filesystem already counted, or one with no blocks
/// or no block size, is skipped; any other is counted once.
pub open spec fn disk_scan(ms: Seq<MountEntry>, st: Seq<Result<StatfsInfo, Seq<char>>>) -> (
    Set<u64>,
    Seq<(Seq<char>, u64, u64)>,
    Seq<Seq<char>>,
)
    decreases ms.len(),
{
    if ms.len() == 0 || st.len() < ms.len() {
        (Set::empty(), seq![], seq![])
    } else {
        let prev = disk_scan(ms.drop_last(), st);
        let (seen, disks, errs) = prev;
        let m = ms.last();
        match st[ms.len() - 1] {
            Err(e) => (seen, disks, errs.push("statfs "@ + m.mount@ + ": "@ + e)),
            Ok(s) => if seen.contains(s.dev) || s.blocks == 0 || s.bsize <= 0 {
                prev
            } else {
                (
                    seen.insert(s.dev),
                    disks.push((
                        m.mount@,
                        ((s.blocks * s.bsize) % 0x1_0000_0000_0000_0000) as u64,
                        ((s.bavail * s.bsize) % 0x1_0000_0000_0000_0000) as u64,
                    )),
                    errs,
                )
            },
        }
    }
}

/// Messages joined by newlines; none for no messages.
pub open spec fn join_lines(s: Seq<Seq<char>>) -> Seq<char>
    decreases s.len(),
{
    if s.len() == 0 {
        seq![]
    } else if s.len() == 1 {
        s[0]
    } else {
        join_lines(s.drop_last()) + "\n"@ + s.last()
    }
}

/// The error that joins the messages, if there are any.
pub fn join_errors(errs: &Vec<Vec<char>>) -> (r: Option<Error>)
    ensures
        views(errs@).len() == 0 ==> r is None,
        views(errs@).len() > 0 ==> (r matches Some(Error::Msg(m)) && m@ == join_lines(views(errs@))),
{
    if errs.len() == 0 {
        return None;
    }
    let ghost ev = views(errs@);
    let mut t: Vec<char> = Vec::new();
    let mut i: usize = 0;
    while i < errs.len()
        invariant
            i <= errs@.len(),
            ev == views(errs@),
            t@ == join_lines(ev.subrange(0, i as int)),
        decreases errs.len() - i,
    {
        let ghost prev = t@;
        if i > 0 {
            t.push('\n');
        }
        push_all(&mut t, errs[i].as_slice());
        assert(ev.subrange(0, i + 1).drop_last() =~= ev.subrange(0, i as int));
        proof {
            reveal_strlit("\n");
            if i > 0 {
                assert(t@ =~= prev + "\n"@ + ev[i as int]);
            } else {
                assert(t@ =~= ev[i as int]);
            }
        }
        i += 1;
    }
    assert(ev.subrange(0, i as int) =~= ev);
    Some(Error::Msg(string_of(t.as_slice())))
}

/// The mount, total bytes and free bytes of each disk.
pub open spec fn disk_views(v: Seq<DiskStat>) -> Seq<(Seq<char>, u64, u64)> {
    v.map_values(|d: DiskStat| (d.mount@, d.total_bytes, d.free_bytes))
}

pub open spec fn result_views(st: Seq<Result<StatfsInfo, String>>) -> Seq<Result<StatfsInfo, Seq<char>>> {
    st.map_values(|r: Result<StatfsInfo, String>| match r {
        Ok(s) => Ok(s),
        Err(e) => Err(e@),
    })
}

fn wrap_mul(a: u64, b: i64) -> (r: u64)
    requires
        b > 0,
    ensures
        r == ((a * b) % 0x1_0000_0000_0000_0000) as u64,
{
    assert((a as u128) * (b as u128) <= 0xFFFF_FFFF_FFFF_FFFFu128 * 0xFFFF_FFFF_FFFF_FFFFu128) by (nonlinear_arith)
        requires
            a <= 0xFFFF_FFFF_FFFF_FFFFu64,
            0 < b <= 0x7FFF_FFFF_FFFF_FFFFi64,
    ;
    let w: u128 = (a as u128) * (b as u128);
    (w % 0x1_0000_0000_0000_0000u128) as u64
}

/// The disks of the candidate mounts given what `statfs` reported for each
/// (`stats[k]` for `mounts[k]`), with the joined `statfs` errors.
pub fn collect_disks(mounts: &[MountEntry], stats: &[Result<StatfsInfo, String>]) -> (r: (Vec<DiskStat>, Option<Error>))
    requires
        stats@.len() == mounts@.len(),
    ensures
        disk_views(r.0@) == disk_scan(mounts@, result_views(stats@)).1,
        disk_scan(mounts@, result_views(stats@)).2.len() == 0 ==> r.1 is None,
        disk_scan(mounts@, result_views(stats@)).2.len() > 0 ==> (r.1 matches Some(Error::Msg(m)) && m@
            == join_lines(disk_scan(mounts@, result_views(stats@)).2)),
{
    let ghost sv = result_views(stats@);
    let mut seen: Vec<u64> = Vec::new();
    let mut disks: Vec<DiskStat> = Vec::new();
    let mut errs: Vec<Vec<char>> = Vec::new();
    let mut i: usize = 0;
    while i < mounts.len()
        invariant
            i <= mounts@.len(),
            stats@.len() == mounts@.len(),
            sv == result_views(stats@),
            ({
                let (s, d, e) = disk_scan(mounts@.subrange(0, i as int), sv);
                &&& (forall|x: u64| s.contains(x) <==> seen@.contains(x))
                &&& disk_views(disks@) == d
                &&& views(errs@) == e
            }),
        decreases mounts.len() - i,
    {
        let ghost pre = mounts@.subrange(0, i as int);
        let ghost nxt = mounts@.subrange(0, i + 1);
        assert(nxt.drop_last() =~= pre);
        assert(nxt.last() == mounts@[i as int]);
        assert(sv[i as int] == match stats@[i as int] {
            Ok(s) => Ok::<StatfsInfo, Seq<char>>(s),
            Err(e) => Err(e@),
        });
        let m = &mounts[i];
        match &stats[i] {
            Err(e) => {
                let mut t: Vec<char> = Vec::new();
                push_str(&mut t, "statfs ");
                let mc = chars_of(m.mount.as_str());
                push_all(&mut t, mc.as_slice());
                push_str(&mut t, ": ");
                let ec = chars_of(e.as_str());
                push_all(&mut t, ec.as_slice());
                let ghost before = views(errs@);
                errs.push(t);
                assert(views(errs@) =~= before.push("statfs "@ + m.mount@ + ": "@ + e@));
            },
            Ok(s) => {
                let mut dup = false;
                let mut j: usize = 0;
                while j < seen.len()
                    invariant
                        j <= seen@.len(),
                        dup == exists|k: int| 0 <= k < j && seen@[k] == s.dev,
                    decreases seen.len() - j,
                {
                    if seen[j] == s.dev {
                        dup = true;
                    }
                    j += 1;
                }
                assert(dup == seen@.contains(s.dev));
                if !dup && s.blocks != 0 && s.bsize > 0 {
                    let ghost before_seen = seen@;
                    seen.push(s.dev);
                    assert forall|x: u64| seen@.contains(x) <==> (before_seen.contains(x) || x == s.dev) by {
                        if seen@.contains(x) {
                            let k = choose|k: int| 0 <= k < seen@.len() && seen@[k] == x;
                            if k < before_seen.len() {
                                assert(before_seen[k] == x);
                            }
                        }
                        if before_seen.contains(x) {
                            let k = choose|k: int| 0 <= k < before_seen.len() && before_seen[k] == x;
                            assert(seen@[k] == x);
                        }
                        if x == s.dev {
                            assert(seen@[before_seen.len() as int] == x);
                        }
                    }
                    let total = wrap_mul(s.blocks, s.bsize);
                    let free = wrap_mul(s.bavail, s.bsize);
                    let ghost before = disk_views(disks@);
                    disks.push(DiskStat { mount: m.mount.clone(), total_bytes: total, free_bytes: free });
                    assert(disk_views(disks@) =~= before.push((m.mount@, total, free)));
                }
            },
        }
        i += 1;
    }
    assert(mounts@.subrange(0, i as int) =~= mounts@);
    let err = join_errors(&errs);
    (disks, err)
}


// ---------------------------------------------------------------------------
// /proc/net/dev
// ---------------------------------------------------------------------------

/// What one `/proc/net/dev` line (after the two headers) gives: nothing (no
/// colon, or the loopback interface), an interface with its received and
/// transmitted bytes, or an error message.
pub open spec fn net_line(l: Seq<char>) -> Option<Result<(Seq<char>, NetStat), Seq<char>>> {
    let colon = crate::text::find_from(l, ':', 0);
    if colon >= l.len() {
        None
    } else {
        let iface = trim(l.subrange(0, colon));
        if iface == "lo"@ {
            None
        } else {
            let f = fields(trim(l.subrange(colon + 1, l.len() as int)));
            if f.len() < 10 {
                Some(Err("unexpected /proc/net/dev format for "@ + iface))
            } else {
                match (parse_u64_spec(f[0]), parse_u64_spec(f[8])) {
                    (Ok(rx), Ok(tx)) => Some(Ok((iface, NetStat { rx_bytes: rx as u64, tx_bytes: tx as u64 }))),
                    (rx, tx) => Some(Err("parse network counters for "@ + iface + ": "@ + join_lines(
                        (match rx {
                            Err(e) => seq![int_error_text(e)],
                            Ok(_) => seq![],
                        }) + (match tx {
                            Err(e) => seq![int_error_text(e)],
                            Ok(_) => seq![],
                        }),
                    ))),
                }
            }
        }
    }
}

/// The interfaces and errors of the first `n` lines; later lines for the
/// same interface replace earlier ones.
pub open spec fn net_scan(ls: Seq<Seq<char>>, n: int) -> (Map<Seq<char>, NetStat>, Seq<Seq<char>>)
    decreases n,
{
    if n <= 0 || n > ls.len() {
        (Map::empty(), seq![])
    } else {
        let (m, e) = net_scan(ls, n - 1);
        if n - 1 < 2 {
            (m, e)
        } else {
            match net_line(ls[n - 1]) {
                None => (m, e),
                Some(Ok((k, v))) => (m.insert(k, v), e),
                Some(Err(t)) => (m, e.push(t)),
            }
        }
    }
}

/// The entries are in ascending interface order, each interface once, and
/// they are exactly the map's.
pub open spec fn entries_of(v: Seq<(String, NetStat)>, m: Map<Seq<char>, NetStat>) -> bool {
    &&& forall|i: int, j: int| 0 <= i < j < v.len() ==> crate::audit::findings::id_lt(#[trigger] v[i].0@, #[trigger] v[j].0@)
    &&& forall|k: Seq<char>| m.contains_key(k) <==> exists|i: int| 0 <= i < v.len() && (#[trigger] v[i]).0@ == k
    &&& forall|i: int| 0 <= i < v.len() ==> m.contains_key((#[trigger] v[i]).0@) && m[v[i].0@] == v[i].1
}

fn key_less(v: &Vec<(String, NetStat)>, p: usize, kc: &Vec<char>) -> (b: bool)
    requires
        p < v@.len(),
    ensures
        b == id_lt(v@[p as int].0@, kc@),
{
    let c = chars_of(v[p].0.as_str());
    id_less(c.as_slice(), kc.as_slice())
}

fn net_insert(v: &mut Vec<(String, NetStat)>, k: String, x: NetStat, Ghost(m): Ghost<Map<Seq<char>, NetStat>>)
    requires
        entries_of(old(v)@, m),
    ensures
        entries_of(final(v)@, m.insert(k@, x)),
{
    let kc = chars_of(k.as_str());
    let mut p: usize = 0;
    while p < v.len() && key_less(v, p, &kc)
        invariant
            p <= v@.len(),
            kc@ == k@,
            forall|i: int| 0 <= i < p ==> id_lt((#[trigger] v@[i]).0@, k@),
        decreases v.len() - p,
    {
        p += 1;
    }
    let ghost s = v@;
    let same = p < v.len() && {
        let c = chars_of(v[p].0.as_str());
        crate::text::eq(c.as_slice(), kc.as_slice())
    };
    if same {
        proof {
            assert forall|i: int| 0 <= i < s.len() && i != p implies (#[trigger] s[i]).0@ != k@ by {
                if i < p {
                    lemma_id_lt_irreflexive(k@);
                } else {
                    assert(id_lt(s[p as int].0@, s[i].0@));
                    lemma_id_lt_irreflexive(k@);
                }
            }
        }
        v.set(p, (k, x));
        proof {
            let t = v@;
            assert(t =~= s.update(p as int, (k, x)));
            assert forall|i: int, j: int| 0 <= i < j < t.len() implies id_lt(#[trigger] t[i].0@, #[trigger] t[j].0@) by {
                assert(t[i].0@ == s[i].0@ && t[j].0@ == s[j].0@);
            }
            assert forall|key: Seq<char>| m.insert(k@, x).contains_key(key) implies exists|i: int|
                0 <= i < t.len() && (#[trigger] t[i]).0@ == key by {
                if key == k@ {
                    assert(t[p as int].0@ == key);
                } else {
                    let i = choose|i: int| 0 <= i < s.len() && (#[trigger] s[i]).0@ == key;
                    assert(t[i].0@ == s[i].0@);
                }
            }
            assert forall|i: int| 0 <= i < t.len() implies m.insert(k@, x).contains_key((#[trigger] t[i]).0@)
                && m.insert(k@, x)[t[i].0@] == t[i].1 by {
                if i != p {
                    assert(t[i] == s[i]);
                }
            }
            assert forall|key: Seq<char>| (exists|i: int| 0 <= i < t.len() && (#[trigger] t[i]).0@ == key) implies m.insert(k@, x).contains_key(key) by {
                let i = choose|i: int| 0 <= i < t.len() && (#[trigger] t[i]).0@ == key;
                assert(m.insert(k@, x).contains_key(t[i].0@));
            }
        }
    } else {
        proof {
            if p < s.len() {
                lemma_id_lt_total(s[p as int].0@, k@);
            }
            assert forall|i: int| 0 <= i < s.len() implies (#[trigger] s[i]).0@ != k@ by {
                if i < p {
                    lemma_id_lt_irreflexive(k@);
                } else if i > p {
                    assert(id_lt(s[p as int].0@, s[i].0@));
                }
            }
        }
        v.insert(p, (k, x));
        proof {
            let t = v@;
            assert forall|i: int, j: int| 0 <= i < j < t.len() implies id_lt(#[trigger] t[i].0@, #[trigger] t[j].0@) by {
                if j == p {
                } else if i == p {
                    assert(t[j] == s[j - 1]);
                    if j - 1 > p {
                        assert(id_lt(s[p as int].0@, s[j - 1].0@));
                        lemma_id_lt_transitive(k@, s[p as int].0@, s[j - 1].0@);
                    }
                } else {
                    let ii = if i < p { i } else { i - 1 };
                    let jj = if j < p { j } else { j - 1 };
                    assert(t[i] == s[ii] && t[j] == s[jj]);
                }
            }
            assert forall|key: Seq<char>| m.insert(k@, x).contains_key(key) implies exists|i: int|
                0 <= i < t.len() && (#[trigger] t[i]).0@ == key by {
                if key == k@ {
                    assert(t[p as int].0@ == key);
                } else {
                    let i = choose|i: int| 0 <= i < s.len() && (#[trigger] s[i]).0@ == key;
                    if i < p {
                        assert(t[i] == s[i]);
                    } else {
                        assert(t[i + 1] == s[i]);
                    }
                }
            }
            assert forall|i: int| 0 <= i < t.len() implies m.insert(k@, x).contains_key((#[trigger] t[i]).0@)
                && m.insert(k@, x)[t[i].0@] == t[i].1 by {
                if i < p {
                    assert(t[i] == s[i]);
                } else if i > p {
                    assert(t[i] == s[i - 1]);
                }
            }
        }
    }
}

/// The interfaces read from `/proc/net/dev`'s lines, in ascending name
/// order, with the joined errors of bad lines (and of the read error that
/// stopped reading, if any). The first two lines are headers; the loopback
/// interface is skipped.
pub fn read_network_lines(ls: &[String], read_error: Option<String>) -> (r: (Vec<(String, NetStat)>, Option<Error>))
    ensures
        entries_of(r.0@, net_scan(string_views(ls@), ls@.len() as int).0),
        ({
            let errs = net_scan(string_views(ls@), ls@.len() as int).1 + match read_error {
                Some(e) => seq![e@],
                None => seq![],
            };
            &&& errs.len() == 0 ==> r.1 is None
            &&& errs.len() > 0 ==> (r.1 matches Some(Error::Msg(m)) && m@ == join_lines(errs))
        }),
{
    let ghost lv = string_views(ls@);
    let mut v: Vec<(String, NetStat)> = Vec::new();
    let mut errs: Vec<Vec<char>> = Vec::new();
    let mut i: usize = 0;
    while i < ls.len()
        invariant
            i <= ls@.len(),
            lv == string_views(ls@),
            entries_of(v@, net_scan(lv, i as int).0),
            views(errs@) == net_scan(lv, i as int).1,
        decreases ls.len() - i,
    {
        let ghost prev = net_scan(lv, i as int);
        if i >= 2 {
            let l = chars_of(ls[i].as_str());
            assert(l@ == lv[i as int]);
            let colon = crate::text::find_char(l.as_slice(), ':', 0);
            if colon < l.len() {
                let head = crate::text::slice_of(l.as_slice(), 0, colon);
                let iface = trimmed(head.as_slice());
                if !eq_str(iface.as_slice(), "lo") {
                    let tail = crate::text::slice_of(l.as_slice(), colon + 1, l.len());
                    let rest = trimmed(tail.as_slice());
                    let f = split_fields(rest.as_slice());
                    if f.len() < 10 {
                        let mut t: Vec<char> = Vec::new();
                        push_str(&mut t, "unexpected /proc/net/dev format for ");
                        push_all(&mut t, iface.as_slice());
                        let ghost before = views(errs@);
                        errs.push(t);
                        assert(views(errs@) =~= before.push("unexpected /proc/net/dev format for "@ + iface@));
                    } else {
                        let rx = parse_u64(f[0].as_slice());
                        let tx = parse_u64(f[8].as_slice());
                        assert(iface@ == trim(lv[i as int].subrange(0, colon as int)));
                        assert(views(f@) == fields(trim(lv[i as int].subrange(colon + 1, lv[i as int].len() as int))));
                        match (rx, tx) {
                            (Ok(a), Ok(b)) => {
                                let ns = NetStat { rx_bytes: a, tx_bytes: b };
                                net_insert(&mut v, string_of(iface.as_slice()), ns, Ghost(prev.0));
                            },
                            (rx, tx) => {
                                let mut parts: Vec<Vec<char>> = Vec::new();
                                let ghost rxs: Seq<Seq<char>> = match rx {
                                    Err(e) => seq![int_error_text(e)],
                                    Ok(_) => seq![],
                                };
                                let ghost txs: Seq<Seq<char>> = match tx {
                                    Err(e) => seq![int_error_text(e)],
                                    Ok(_) => seq![],
                                };
                                match rx {
                                    Err(e) => {
                                        let mut q: Vec<char> = Vec::new();
                                        push_str(&mut q, int_error_message(e));
                                        parts.push(q);
                                        assert(views(parts@) =~= rxs);
                                    },
                                    Ok(_) => {
                                        assert(views(parts@) =~= rxs);
                                    },
                                }
                                let ghost p1 = views(parts@);
                                match tx {
                                    Err(e) => {
                                        let mut q: Vec<char> = Vec::new();
                                        push_str(&mut q, int_error_message(e));
                                        parts.push(q);
                                        assert(views(parts@) =~= p1.push(int_error_text(e)));
                                    },
                                    Ok(_) => {},
                                }
                                assert(views(parts@) =~= rxs + txs);
                                assert(views(parts@).len() > 0);
                                let joined = join_errors(&parts);
                                let mut t: Vec<char> = Vec::new();
                                push_str(&mut t, "parse network counters for ");
                                push_all(&mut t, iface.as_slice());
                                push_str(&mut t, ": ");
                                match joined {
                                    Some(Error::Msg(jm)) => {
                                        let jc = chars_of(jm.as_str());
                                        push_all(&mut t, jc.as_slice());
                                    },
                                    _ => {},
                                }
                                let ghost before = views(errs@);
                                errs.push(t);
                                assert(views(errs@) =~= before.push(t@));
                            },
                        }
                    }
                }
            }
        }
        i += 1;
    }
    let ghost scanned = views(errs@);
    assert(scanned == net_scan(string_views(ls@), ls@.len() as int).1);
    let ghost tail: Seq<Seq<char>> = match &read_error {
        Some(e) => seq![e@],
        None => seq![],
    };
    match read_error {
        Some(e) => {
            let ec = chars_of(e.as_str());
            errs.push(ec);
            assert(views(errs@) =~= scanned + tail);
        },
        None => {
            assert(views(errs@) =~= scanned + tail);
        },
    }
    let err = join_errors(&errs);
    (v, err)
}

/// The interfaces read from the text of `/proc/net/dev`.
pub fn read_network_from(text: &str) -> (r: (Vec<(String, NetStat)>, Option<Error>))
    ensures
        entries_of(r.0@, net_scan(lines(text@), lines(text@).len() as int).0),
        net_scan(lines(text@), lines(text@).len() as int).1.len() == 0 ==> r.1 is None,
        net_scan(lines(text@), lines(text@).len() as int).1.len() > 0 ==> (r.1 matches Some(Error::Msg(m))
            && m@ == join_lines(net_scan(lines(text@), lines(text@).len() as int).1)),
{
    let ls = text_lines(text);
    let r = read_network_lines(ls.as_slice(), None);
    assert(net_scan(lines(text@), lines(text@).len() as int).1 + Seq::<Seq<char>>::empty() =~= net_scan(lines(text@), lines(text@).len() as int).1);
    r
}

// ---------------------------------------------------------------------------
// Deltas between samples
// ---------------------------------------------------------------------------

/// `a + b` wrapping at 2^64.
pub open spec fn wadd(a: int, b: int) -> int {
    (a + b) % 0x1_0000_0000_0000_0000
}

fn wrapping(a: u64, b: u64) -> (r: u64)
    ensures
        r == wadd(a as int, b as int),
{
    let w: u128 = a as u128 + b as u128;
    (w % 0x1_0000_0000_0000_0000u128) as u64
}

/// The sum of a CPU sample's ticks, wrapping at 2^64.
pub open spec fn tick_total(s: CPUSample) -> int {
    wadd(wadd(wadd(wadd(wadd(wadd(wadd(s.user as int, s.nice as int), s.system as int), s.idle as int),
        s.iowait as int), s.irq as int), s.softirq as int), s.steal as int)
}

/// The ticks elapsed and the idle ticks elapsed between two CPU samples;
/// none when there was no earlier sample (its total is zero), the total did
/// not grow, or the idle count went back.
pub open spec fn cpu_delta(prev: CPUSample, curr: CPUSample) -> Option<(int, int)> {
    let pt = tick_total(prev);
    let ct = tick_total(curr);
    let pi = wadd(prev.idle as int, prev.iowait as int);
    let ci = wadd(curr.idle as int, curr.iowait as int);
    if pt == 0 || ct <= pt || ci < pi {
        None
    } else {
        Some((ct - pt, ci - pi))
    }
}

/// The sum of a sample's eight tick counters: user, nice, system, idle,
/// iowait, irq, softirq and steal.
pub open spec fn ticks_sum(s: CPUSample) -> int {
    s.user + s.nice + s.system + s.idle + s.iowait + s.irq + s.softirq + s.steal
}

proof fn lemma_wadd_small(a: int, b: int)
    requires
        0 <= a,
        0 <= b,
        a + b < 0x1_0000_0000_0000_0000,
    ensures
        wadd(a, b) == a + b,
{
    vstd::arithmetic::div_mod::lemma_small_mod((a + b) as nat, 0x1_0000_0000_0000_0000nat);
}

/// While the counters' sums fit in 64 bits, the elapsed ticks between two
/// samples are the growth of the sum of all eight counters, and the idle
/// ticks the growth of idle plus iowait; there is no measure when the
/// earlier sample is all zero, the sum did not grow, or idle went back.
pub proof fn law_cpu_delta_counts_every_tick(prev: CPUSample, curr: CPUSample)
    requires
        ticks_sum(prev) < 0x1_0000_0000_0000_0000,
        ticks_sum(curr) < 0x1_0000_0000_0000_0000,
    ensures
        cpu_delta(prev, curr) == if ticks_sum(prev) == 0 || ticks_sum(curr) <= ticks_sum(prev) || curr.idle
            + curr.iowait < prev.idle + prev.iowait {
            None::<(int, int)>
        } else {
            Some((ticks_sum(curr) - ticks_sum(prev), (curr.idle + curr.iowait) - (prev.idle + prev.iowait)))
        },
{
    lemma_tick_total_is_sum(prev);
    lemma_tick_total_is_sum(curr);
    lemma_wadd_small(prev.idle as int, prev.iowait as int);
    lemma_wadd_small(curr.idle as int, curr.iowait as int);
}

proof fn lemma_tick_total_is_sum(s: CPUSample)
    requires
        ticks_sum(s) < 0x1_0000_0000_0000_0000,
    ensures
        tick_total(s) == ticks_sum(s),
{
    let a = s.user + s.nice;
    let b = a + s.system;
    let c = b + s.idle;
    let d = c + s.iowait;
    let e = d + s.irq;
    let f = e + s.softirq;
    lemma_wadd_small(s.user as int, s.nice as int);
    lemma_wadd_small(a, s.system as int);
    lemma_wadd_small(b, s.idle as int);
    lemma_wadd_small(c, s.iowait as int);
    lemma_wadd_small(d, s.irq as int);
    lemma_wadd_small(e, s.softirq as int);
    lemma_wadd_small(f, s.steal as int);
}

/// Every counter is busy or idle time: more ticks of a niced job (and no
/// other change) add exactly that many elapsed ticks and no idle ones.
pub proof fn law_nice_ticks_are_busy(prev: CPUSample, curr: CPUSample, n: u64)
    requires
        ticks_sum(prev) < 0x1_0000_0000_0000_0000,
        ticks_sum(curr) + n < 0x1_0000_0000_0000_0000,
        cpu_delta(prev, curr) is Some,
    ensures
        cpu_delta(prev, CPUSample { nice: (curr.nice + n) as u64, ..curr }) == Some(
            (cpu_delta(prev, curr)->Some_0.0 + n, cpu_delta(prev, curr)->Some_0.1),
        ),
{
    let c2 = CPUSample { nice: (curr.nice + n) as u64, ..curr };
    law_cpu_delta_counts_every_tick(prev, curr);
    law_cpu_delta_counts_every_tick(prev, c2);
}

fn total_of(s: CPUSample) -> (t: u64)
    ensures
        t == tick_total(s),
{
    let a = wrapping(s.user, s.nice);
    let b = wrapping(a, s.system);
    let c = wrapping(b, s.idle);
    let d = wrapping(c, s.iowait);
    let e = wrapping(d, s.irq);
    let f = wrapping(e, s.softirq);
    wrapping(f, s.steal)
}

/// The elapsed and idle ticks between two CPU samples (the caller turns
/// them into a usage percentage); none when no usage can be computed.
pub fn cpu_deltas(prev: CPUSample, curr: CPUSample) -> (r: Option<(u64, u64)>)
    ensures
        match cpu_delta(prev, curr) {
            None => r is None,
            Some((t, i)) => r == Some((t as u64, i as u64)) && t > 0 && i >= 0,
        },
{
    let pt = total_of(prev);
    let ct = total_of(curr);
    let pi = wrapping(prev.idle, prev.iowait);
    let ci = wrapping(curr.idle, curr.iowait);
    if pt == 0 || ct <= pt || ci < pi {
        return None;
    }
    Some((ct - pt, ci - pi))
}

/// `a - b`, or 0 when `b` is larger.
pub open spec fn sat(a: u64, b: u64) -> u64 {
    if a >= b {
        (a - b) as u64
    } else {
        0
    }
}

/// The index of the first entry named `name`, or the length.
pub open spec fn find_net(v: Seq<(String, NetStat)>, name: Seq<char>, i: int) -> int
    decreases v.len() - i,
{
    if 0 <= i < v.len() && v[i].0@ != name {
        find_net(v, name, i + 1)
    } else {
        i
    }
}

/// For each interface of `curr`, the bytes received and sent since `prev`
/// (a counter that went back counts as none); none for an interface
/// `prev` lacks.
pub open spec fn net_delta(prev: Seq<(String, NetStat)>, c: (String, NetStat)) -> (Seq<char>, Option<(u64, u64)>) {
    let k = find_net(prev, c.0@, 0);
    if k >= 0 && k < prev.len() {
        (c.0@, Some((sat(c.1.rx_bytes, prev[k].1.rx_bytes), sat(c.1.tx_bytes, prev[k].1.tx_bytes))))
    } else {
        (c.0@, None)
    }
}

proof fn lemma_find_net(v: Seq<(String, NetStat)>, name: Seq<char>, i: int)
    requires
        0 <= i <= v.len(),
    ensures
        i <= find_net(v, name, i) <= v.len(),
        find_net(v, name, i) < v.len() ==> v[find_net(v, name, i)].0@ == name,
    decreases v.len() - i,
{
    if i < v.len() && v[i].0@ != name {
        lemma_find_net(v, name, i + 1);
    }
}

fn named(s: &String, name: &[char]) -> (b: bool)
    ensures
        b == (s@ == name@),
{
    let c = chars_of(s.as_str());
    crate::text::eq(c.as_slice(), name)
}

/// The byte deltas of each interface of `curr` since `prev`, in the order
/// of `curr` (the caller divides them by the elapsed time).
pub fn net_deltas(prev: &[(String, NetStat)], curr: &[(String, NetStat)]) -> (r: Vec<(String, Option<(u64, u64)>)>)
    ensures
        r@.len() == curr@.len(),
        forall|k: int| 0 <= k < curr@.len() ==> ((#[trigger] r@[k]).0@, r@[k].1) == net_delta(prev@, curr@[k]),
{
    let mut r: Vec<(String, Option<(u64, u64)>)> = Vec::new();
    let mut i: usize = 0;
    while i < curr.len()
        invariant
            i <= curr@.len(),
            r@.len() == i,
            forall|k: int| 0 <= k < i ==> ((#[trigger] r@[k]).0@, r@[k].1) == net_delta(prev@, curr@[k]),
        decreases curr.len() - i,
    {
        let name = chars_of(curr[i].0.as_str());
        proof {
            lemma_find_net(prev@, name@, 0);
        }
        let mut j: usize = 0;
        while j < prev.len() && !named(&prev[j].0, name.as_slice())
            invariant
                j <= prev@.len(),
                find_net(prev@, name@, 0) == find_net(prev@, name@, j as int),
            decreases prev.len() - j,
        {
            j += 1;
        }
        proof {
            lemma_find_net(prev@, name@, j as int);
        }
        let c = curr[i].1;
        let d = if j < prev.len() {
            let p = prev[j].1;
            let rx = if c.rx_bytes >= p.rx_bytes { c.rx_bytes - p.rx_bytes } else { 0 };
            let tx = if c.tx_bytes >= p.tx_bytes { c.tx_bytes - p.tx_bytes } else { 0 };
            Some((rx, tx))
        } else {
            None
        };
        r.push((curr[i].0.clone(), d));
        i += 1;
    }
    r
}

} // verus!
