//! The text of the operations log: the timestamp (RFC 3339, local time
//! with its offset, whole seconds) and the line recorded for each outcome.
//! The caller reads the clock and appends the lines to the log file.

use vstd::prelude::*;
use crate::fmt::{dec, fmt_u64};
use crate::text::{chars_of, left_aligned, push_all, push_spaces, push_str, string_of};

verus! {

/// `n` in decimal, zero-padded to `w` characters, the sign counted in the
/// width (`format!("{:0w$}")`).
pub open spec fn zero_pad(n: int, w: nat) -> Seq<char> {
    if n < 0 {
        let d = dec((-n) as nat);
        "-"@ + Seq::new(if d.len() + 1 < w { (w - d.len() - 1) as nat } else { 0 }, |i: int| '0') + d
    } else {
        let d = dec(n as nat);
        Seq::new(if d.len() < w { (w - d.len()) as nat } else { 0 }, |i: int| '0') + d
    }
}

fn push_zero_pad(out: &mut Vec<char>, n: i64, w: usize)
    ensures
        final(out)@ == old(out)@ + zero_pad(n as int, w as nat),
{
    let ghost start = out@;
    let neg = n < 0;
    let mag: u64 = if neg { (-(n as i128)) as u64 } else { n as u64 };
    let d = fmt_u64(mag);
    if neg {
        out.push('-');
    }
    let lead = if neg { 1 } else { 0 };
    let fill: usize = if w > d.len() && w - d.len() > lead { w - d.len() - lead } else { 0 };
    let ghost mid = out@;
    let mut k: usize = 0;
    while k < fill
        invariant
            k <= fill,
            out@ == mid + Seq::new(k as nat, |i: int| '0'),
        decreases fill - k,
    {
        out.push('0');
        assert(out@ =~= mid + Seq::new((k + 1) as nat, |i: int| '0'));
        k += 1;
    }
    push_all(out, d.as_slice());
    if neg {
        proof {
            reveal_strlit("-");
        }
        assert(mag as int == -n);
        assert(out@ =~= start + zero_pad(n as int, w as nat));
    } else {
        assert(out@ =~= start + zero_pad(n as int, w as nat));
    }
}

/// The local date and time as `YYYY-MM-DDTHH:MM:SS`.
pub open spec fn stamp_text(year: int, month: int, day: int, hour: int, minute: int, second: int) -> Seq<char> {
    zero_pad(year, 4) + "-"@ + zero_pad(month, 2) + "-"@ + zero_pad(day, 2) + "T"@ + zero_pad(hour, 2) + ":"@
        + zero_pad(minute, 2) + ":"@ + zero_pad(second, 2)
}

/// The date and time as `YYYY-MM-DDTHH:MM:SS`, with no zone (the trash
/// entry's deletion date).
pub fn local_stamp(year: i32, month: u8, day: u8, hour: u8, minute: u8, second: u8) -> (s: String)
    ensures
        s@ == stamp_text(year as int, month as int, day as int, hour as int, minute as int, second as int),
{
    let mut t: Vec<char> = Vec::new();
    push_zero_pad(&mut t, year as i64, 4);
    push_str(&mut t, "-");
    push_zero_pad(&mut t, month as i64, 2);
    push_str(&mut t, "-");
    push_zero_pad(&mut t, day as i64, 2);
    push_str(&mut t, "T");
    push_zero_pad(&mut t, hour as i64, 2);
    push_str(&mut t, ":");
    push_zero_pad(&mut t, minute as i64, 2);
    push_str(&mut t, ":");
    push_zero_pad(&mut t, second as i64, 2);
    assert(t@ =~= stamp_text(year as int, month as int, day as int, hour as int, minute as int, second as int));
    string_of(t.as_slice())
}

/// A UTC offset in seconds as `Z`, or a sign and `HH:MM`.
pub open spec fn offset_text(offset_secs: int) -> Seq<char> {
    if offset_secs == 0 {
        "Z"@
    } else {
        let a = if offset_secs < 0 { -offset_secs } else { offset_secs };
        (if offset_secs < 0 { "-"@ } else { "+"@ }) + zero_pad(a / 3600, 2) + ":"@ + zero_pad((a % 3600) / 60, 2)
    }
}

/// An RFC 3339 timestamp: the date and time, then `Z` for UTC or the
/// offset as `±HH:MM`.
pub fn rfc3339_text(year: i32, month: u8, day: u8, hour: u8, minute: u8, second: u8, offset_secs: i32) -> (s: String)
    ensures
        s@ == stamp_text(year as int, month as int, day as int, hour as int, minute as int, second as int)
            + offset_text(offset_secs as int),
{
    let d = local_stamp(year, month, day, hour, minute, second);
    let mut t = chars_of(d.as_str());
    if offset_secs == 0 {
        push_str(&mut t, "Z");
    } else {
        let a: i64 = if offset_secs < 0 { -(offset_secs as i64) } else { offset_secs as i64 };
        if offset_secs < 0 {
            push_str(&mut t, "-");
        } else {
            push_str(&mut t, "+");
        }
        push_zero_pad(&mut t, a / 3600, 2);
        push_str(&mut t, ":");
        push_zero_pad(&mut t, (a % 3600) / 60, 2);
    }
    assert(t@ =~= d@ + offset_text(offset_secs as int));
    string_of(t.as_slice())
}

/// One line of the operations log: the timestamp, the action in a column
/// of twelve, the outcome in a column of eight, then the target.
pub open spec fn log_line_text(stamp: Seq<char>, action: Seq<char>, outcome: Seq<char>, target: Seq<char>) -> Seq<char> {
    stamp + "  "@ + left_aligned(action, 12) + "  "@ + left_aligned(outcome, 8) + "  "@ + target + "\n"@
}

/// The line the operations log records for an outcome.
pub fn log_line(stamp: &str, action: &str, outcome: &str, target: &str) -> (s: String)
    ensures
        s@ == log_line_text(stamp@, action@, outcome@, target@),
{
    let mut t = chars_of(stamp);
    push_str(&mut t, "  ");
    let a = chars_of(action);
    push_all(&mut t, a.as_slice());
    if a.len() < 12 {
        push_spaces(&mut t, (12 - a.len()) as u128);
    }
    push_str(&mut t, "  ");
    let o = chars_of(outcome);
    push_all(&mut t, o.as_slice());
    if o.len() < 8 {
        push_spaces(&mut t, (8 - o.len()) as u128);
    }
    push_str(&mut t, "  ");
    let g = chars_of(target);
    push_all(&mut t, g.as_slice());
    push_str(&mut t, "\n");
    assert(t@ =~= log_line_text(stamp@, action@, outcome@, target@));
    string_of(t.as_slice())
}

} // verus!
