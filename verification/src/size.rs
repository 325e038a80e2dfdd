//! Human-readable sizes: `N B` under one unit, else one decimal and a
//! binary unit (`1.5 KB`, `193.1 MB`).

use vstd::prelude::*;
use crate::fmt::{dec, dec_int, fmt_i64, fmt_one_decimal, fmt_u64, one_decimal};
use crate::text::{push_all, push_str, string_of};

verus! {

/// The largest `k >= 1` with `1024^k <= x`, for `x >= 1024`.
pub open spec fn unit_index(x: nat) -> nat {
    if x >= 0x1000_0000_0000_0000 {
        6
    } else if x >= 0x4_0000_0000_0000 {
        5
    } else if x >= 0x100_0000_0000 {
        4
    } else if x >= 0x4000_0000 {
        3
    } else if x >= 0x10_0000 {
        2
    } else {
        1
    }
}

/// `1024^k` for `1 <= k <= 6`.
pub open spec fn unit_div(k: nat) -> nat {
    if k == 6 {
        0x1000_0000_0000_0000
    } else if k == 5 {
        0x4_0000_0000_0000
    } else if k == 4 {
        0x100_0000_0000
    } else if k == 3 {
        0x4000_0000
    } else if k == 2 {
        0x10_0000
    } else {
        1024
    }
}

/// The unit letter of `1024^k`.
pub open spec fn unit_char(k: nat) -> char {
    if k == 6 {
        'E'
    } else if k == 5 {
        'P'
    } else if k == 4 {
        'T'
    } else if k == 3 {
        'G'
    } else if k == 2 {
        'M'
    } else {
        'K'
    }
}

/// `x` bytes, scaled to the largest binary unit not above it.
pub open spec fn scaled(x: nat) -> Seq<char> {
    let k = unit_index(x);
    one_decimal(x, unit_div(k)) + " "@ + seq![unit_char(k)] + "B"@
}

/// The text of a byte count: `N B` under 1024, else scaled.
pub open spec fn human(bytes: int) -> Seq<char> {
    if bytes < 1024 {
        dec_int(bytes) + " B"@
    } else {
        scaled(bytes as nat)
    }
}

/// A byte count (at least 1024) scaled to its unit.
pub fn fmt_scaled(x: u64) -> (v: Vec<char>)
    requires
        x >= 1024,
    ensures
        v@ == scaled(x as nat),
{
    let (d, c): (u128, char) = if x >= 0x1000_0000_0000_0000 {
        (0x1000_0000_0000_0000, 'E')
    } else if x >= 0x4_0000_0000_0000 {
        (0x4_0000_0000_0000, 'P')
    } else if x >= 0x100_0000_0000 {
        (0x100_0000_0000, 'T')
    } else if x >= 0x4000_0000 {
        (0x4000_0000, 'G')
    } else if x >= 0x10_0000 {
        (0x10_0000, 'M')
    } else {
        (1024, 'K')
    };
    let mut v = fmt_one_decimal(x, d);
    v.push(' ');
    v.push(c);
    v.push('B');
    proof {
        reveal_strlit(" ");
        reveal_strlit("B");
    }
    assert(v@ =~= scaled(x as nat));
    v
}

/// A byte count as `N B` under 1 KiB, else one decimal and a binary unit
/// (`KB` to `EB`).
pub fn human_size(bytes: i64) -> (s: String)
    ensures
        s@ == human(bytes as int),
{
    if bytes < 1024 {
        let mut v = fmt_i64(bytes);
        push_str(&mut v, " B");
        return string_of(v.as_slice());
    }
    let v = fmt_scaled(bytes as u64);
    string_of(v.as_slice())
}

/// The text of a kilobyte count: `N KB` under 1024, else megabytes with one
/// decimal under 1024 MB, else gigabytes with one decimal.
pub open spec fn human_kilobytes(kb: nat) -> Seq<char> {
    if kb < 1024 {
        dec(kb) + " KB"@
    } else if kb < 0x10_0000 {
        one_decimal(kb, 1024) + " MB"@
    } else {
        one_decimal(kb, 0x10_0000) + " GB"@
    }
}

/// A kilobyte count as `N KB`, `X.Y MB` or `X.Y GB`.
pub fn human_kb(kb: u64) -> (s: String)
    ensures
        s@ == human_kilobytes(kb as nat),
{
    let mut v: Vec<char>;
    if kb < 1024 {
        v = fmt_u64(kb);
        push_str(&mut v, " KB");
    } else if kb < 0x10_0000 {
        v = fmt_one_decimal(kb, 1024);
        push_str(&mut v, " MB");
    } else {
        v = fmt_one_decimal(kb, 0x10_0000);
        push_str(&mut v, " GB");
    }
    string_of(v.as_slice())
}

} // verus!
