//! Reading the journal's disk usage from `journalctl --disk-usage`.

use vstd::prelude::*;
use super::{scan_f_s, scan_number_word};
use crate::clean::scan_kernels::ascii_ws;
use crate::error::{Error, message_of};
use crate::text::{chars_of, debug_quote, debug_repr, push_all, push_str, string_of, trim, trim_start, trimmed};

verus! {

/// The first index at or after `i` that is not ASCII whitespace.
pub open spec fn ascii_skip(s: Seq<char>, i: int) -> int
    decreases s.len() - i,
{
    if 0 <= i < s.len() && ascii_ws(s[i]) {
        ascii_skip(s, i + 1)
    } else {
        i
    }
}

/// Where a match of `lit` from its index `j` on, against `s` from index
/// `i` on, ends: a space in `lit` takes any run of ASCII whitespace (none
/// too), another character takes itself.
pub open spec fn match_lit(s: Seq<char>, lit: Seq<char>, j: int, i: int) -> Option<int>
    decreases lit.len() - j,
{
    if j < 0 || j >= lit.len() {
        Some(i)
    } else if lit[j] == ' ' {
        match_lit(s, lit, j + 1, ascii_skip(s, i))
    } else if 0 <= i < s.len() && s[i] == lit[j] {
        match_lit(s, lit, j + 1, i + 1)
    } else {
        None
    }
}

/// The sentence `journalctl --disk-usage` prints before the size.
pub open spec fn usage_lead() -> Seq<char> {
    "Archived and active journals take up"@
}

/// The size `journalctl --disk-usage` reports, as the text of its number
/// and its unit, or why it could not be read.
pub open spec fn journal_usage(out: Seq<char>) -> Result<(Seq<char>, Seq<char>), Seq<char>> {
    match match_lit(out, usage_lead(), 0, 0) {
        None => Err("input does not match format"@),
        Some(i) => {
            let rest = out.subrange(i, out.len() as int);
            if trim_start(rest).len() == 0 {
                Err("EOF"@)
            } else {
                let (num, unit, n) = scan_number_word(rest);
                if n == 0 {
                    Err("strconv.ParseFloat: parsing \"\": invalid syntax"@)
                } else if n == 1 {
                    Err("EOF"@)
                } else {
                    Ok((num, unit))
                }
            }
        },
    }
}

/// Reads the size `journalctl --disk-usage` reports: the text of its
/// number and its unit. The caller converts the number.
pub fn parse_journal_disk_usage(out: &str) -> (r: Result<(String, String), String>)
    ensures
        match journal_usage(out@) {
            Ok((num, unit)) => r matches Ok((a, b)) && a@ == num && b@ == unit,
            Err(e) => r matches Err(m) && m@ == e,
        },
{
    let s = chars_of(out);
    let lit = chars_of("Archived and active journals take up");
    let mut i: usize = 0;
    let mut j: usize = 0;
    while j < lit.len()
        invariant
            lit@ == usage_lead(),
            j <= lit@.len(),
            i <= s@.len(),
            s@ == out@,
            match_lit(out@, usage_lead(), 0, 0) == match_lit(out@, usage_lead(), j as int, i as int),
        decreases lit.len() - j,
    {
        if lit[j] == ' ' {
            let ghost i0 = i;
            while i < s.len() && (s[i] == ' ' || s[i] == '\t' || s[i] == '\n' || s[i] == '\x0C' || s[i] == '\r')
                invariant
                    i0 <= i <= s@.len(),
                    s@ == out@,
                    ascii_skip(s@, i0 as int) == ascii_skip(s@, i as int),
                decreases s.len() - i,
            {
                i += 1;
            }
        } else {
            if i >= s.len() || s[i] != lit[j] {
                return Err(String::from_str("input does not match format"));
            }
            i += 1;
        }
        j += 1;
    }
    let rest = crate::text::slice_of(s.as_slice(), i, s.len());
    let (a, b) = crate::text::trim_bounds(rest.as_slice());
    if a == rest.len() {
        return Err(String::from_str("EOF"));
    }
    let rs = string_of(rest.as_slice());
    let (num, unit, n) = scan_f_s(rs.as_str());
    if n == 0 {
        return Err(String::from_str("strconv.ParseFloat: parsing \"\": invalid syntax"));
    }
    if n == 1 {
        return Err(String::from_str("EOF"));
    }
    Ok((num, unit))
}

/// The bytes per unit of a journal size: `G`, `M` or `K` first.
pub open spec fn unit_scale(unit: Seq<char>) -> Option<u64> {
    if unit.len() > 0 && unit[0] == 'G' {
        Some(0x4000_0000)
    } else if unit.len() > 0 && unit[0] == 'M' {
        Some(0x10_0000)
    } else if unit.len() > 0 && unit[0] == 'K' {
        Some(1024)
    } else {
        None
    }
}

/// What reading the journal's size gives: the text of the number and the
/// bytes per unit, or the error.
pub open spec fn journal_size_parts(out: Seq<char>) -> Result<(Seq<char>, u64), Seq<char>> {
    match journal_usage(out) {
        Err(e) => Err("parse journal disk usage: "@ + e),
        Ok((num, unit)) => match unit_scale(unit) {
            Some(k) => Ok((num, k)),
            None => Err("unknown journal size unit: "@ + debug_repr(trim(unit))),
        },
    }
}

/// Reads the journal's size from `journalctl --disk-usage`: the text of the
/// number and the bytes per unit (the caller multiplies them), or the error.
pub fn journal_size_from(out: &str) -> (r: Result<(String, u64), Error>)
    ensures
        match journal_size_parts(out@) {
            Ok((num, k)) => r matches Ok((a, b)) && a@ == num && b == k,
            Err(e) => r matches Err(m) && m is Msg && message_of(m) == e,
        },
{
    match parse_journal_disk_usage(out) {
        Err(e) => {
            let mut t = chars_of("parse journal disk usage: ");
            let c = chars_of(e.as_str());
            push_all(&mut t, c.as_slice());
            Err(Error::Msg(string_of(t.as_slice())))
        },
        Ok((num, unit)) => {
            let u = chars_of(unit.as_str());
            if u.len() > 0 && u[0] == 'G' {
                Ok((num, 0x4000_0000))
            } else if u.len() > 0 && u[0] == 'M' {
                Ok((num, 0x10_0000))
            } else if u.len() > 0 && u[0] == 'K' {
                Ok((num, 1024))
            } else {
                let t = trimmed(u.as_slice());
                let q = debug_quote(string_of(t.as_slice()).as_str());
                let mut m = chars_of("unknown journal size unit: ");
                let qc = chars_of(q.as_str());
                push_all(&mut m, qc.as_slice());
                Err(Error::Msg(string_of(m.as_slice())))
            }
        },
    }
}

} // verus!
