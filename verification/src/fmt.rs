//! Decimal rendering of integers, as `format!("{}")` prints them.

use vstd::prelude::*;

verus! {

/// The ASCII digit for `d < 10`.
pub open spec fn digit(d: int) -> char {
    if d == 0 {
        '0'
    } else if d == 1 {
        '1'
    } else if d == 2 {
        '2'
    } else if d == 3 {
        '3'
    } else if d == 4 {
        '4'
    } else if d == 5 {
        '5'
    } else if d == 6 {
        '6'
    } else if d == 7 {
        '7'
    } else if d == 8 {
        '8'
    } else {
        '9'
    }
}

/// The decimal digits of `n`, most significant first, no leading zeros.
pub open spec fn dec(n: nat) -> Seq<char>
    decreases n,
{
    if n < 10 {
        seq![digit(n as int)]
    } else {
        dec(n / 10).push(digit((n % 10) as int))
    }
}

/// The decimal text of a signed integer.
pub open spec fn dec_int(n: int) -> Seq<char> {
    if n < 0 {
        seq!['-'] + dec((-n) as nat)
    } else {
        dec(n as nat)
    }
}

/// The digit character for `d`.
pub fn digit_char(d: u64) -> (c: char)
    requires
        d < 10,
    ensures
        c == digit(d as int),
{
    match d {
        0 => '0',
        1 => '1',
        2 => '2',
        3 => '3',
        4 => '4',
        5 => '5',
        6 => '6',
        7 => '7',
        8 => '8',
        _ => '9',
    }
}

/// `format!("{}", n)` for an unsigned integer.
pub fn fmt_u64(n: u64) -> (v: Vec<char>)
    ensures
        v@ == dec(n as nat),
    decreases n,
{
    if n < 10 {
        let mut v = Vec::new();
        v.push(digit_char(n));
        v
    } else {
        let mut v = fmt_u64(n / 10);
        v.push(digit_char(n % 10));
        v
    }
}

/// `format!("{}", n)` for a 128-bit unsigned integer.
pub fn fmt_u128(n: u128) -> (v: Vec<char>)
    ensures
        v@ == dec(n as nat),
    decreases n,
{
    if n < 10 {
        let mut v = Vec::new();
        v.push(digit_char(n as u64));
        v
    } else {
        let mut v = fmt_u128(n / 10);
        v.push(digit_char((n % 10) as u64));
        v
    }
}

/// `format!("{}", n)` for a signed integer.
pub fn fmt_i64(n: i64) -> (v: Vec<char>)
    ensures
        v@ == dec_int(n as int),
{
    if n < 0 {
        let m: u64 = ((-(n + 1)) as u64) + 1;
        let mut v = Vec::new();
        v.push('-');
        let d = fmt_u64(m);
        crate::text::push_all(&mut v, d.as_slice());
        v
    } else {
        fmt_u64(n as u64)
    }
}


// ---------------------------------------------------------------------------
// One-decimal rendering of a scaled integer, as `format!("{:.1}", x as f64 / d)`
// ---------------------------------------------------------------------------

/// Two to the `e`.
pub open spec fn p2(e: nat) -> nat
    decreases e,
{
    if e == 0 {
        1
    } else {
        2 * p2((e - 1) as nat)
    }
}

/// The number of binary digits of `x` (0 for 0).
pub open spec fn bitlen(x: nat) -> nat
    decreases x,
{
    if x == 0 {
        0
    } else {
        1 + bitlen(x / 2)
    }
}

pub proof fn lemma_bitlen_bound(x: nat, k: nat)
    requires
        x < p2(k),
    ensures
        bitlen(x) <= k,
    decreases k,
{
    if k > 0 && x > 0 {
        lemma_bitlen_bound(x / 2, (k - 1) as nat);
    }
}

/// `n / d` rounded to the nearest integer, ties to the even one.
pub open spec fn round_half_even(n: nat, d: nat) -> nat
    recommends
        d > 0,
{
    let q = n / d;
    let r = n % d;
    if 2 * r > d || (2 * r == d && q % 2 == 1) {
        q + 1
    } else {
        q
    }
}

/// The value of the nearest double to the integer `x`: 53 significant bits,
/// ties to even.
pub open spec fn f64_value(x: nat) -> nat {
    if bitlen(x) <= 53 {
        x
    } else {
        let d = p2((bitlen(x) - 53) as nat);
        round_half_even(x, d) * d
    }
}

/// `format!("{:.1}", x as f64 / d as f64)` for a power of two `d`: the exact
/// quotient rounded to one decimal, ties to even.
pub open spec fn one_decimal(x: nat, d: nat) -> Seq<char> {
    let r = round_half_even(f64_value(x) * 10, d);
    dec(r / 10) + "."@ + dec(r % 10)
}

fn rhe(n: u128, d: u128) -> (r: u128)
    requires
        0 < d <= 0x1_0000_0000_0000_0000_0000_0000u128,
        n / d < u128::MAX,
    ensures
        r == round_half_even(n as nat, d as nat),
{
    let q = n / d;
    let m = n % d;
    if 2 * m > d || (2 * m == d && q % 2 == 1) {
        q + 1
    } else {
        q
    }
}

pub proof fn lemma_p2_step8(k: nat)
    ensures
        p2(k + 8) == 256 * p2(k),
{
    reveal_with_fuel(p2, 9);
}

pub proof fn lemma_p2_facts()
    ensures
        p2(11) == 2048,
        p2(64) == 0x1_0000_0000_0000_0000nat,
{
    reveal_with_fuel(p2, 12);
    assert(p2(8) == 256);
    lemma_p2_step8(8);
    lemma_p2_step8(16);
    lemma_p2_step8(24);
    lemma_p2_step8(32);
    lemma_p2_step8(40);
    lemma_p2_step8(48);
    lemma_p2_step8(56);
}

pub proof fn lemma_p2_mono(a: nat, b: nat)
    requires
        a <= b,
    ensures
        p2(a) <= p2(b),
    decreases b,
{
    if a < b {
        lemma_p2_mono(a, (b - 1) as nat);
    }
}

/// The value of `x as f64`, as an integer.
fn f64_of(x: u64) -> (f: u128)
    ensures
        f == f64_value(x as nat),
        f <= 0x1_0000_0000_0000_0000u128 * 2048,
{
    proof {
        lemma_p2_facts();
        lemma_bitlen_bound(x as nat, 64);
    }
    let mut t: u64 = x;
    let mut bl: u64 = 0;
    while t > 0
        invariant
            bitlen(x as nat) == bl + bitlen(t as nat),
            bitlen(x as nat) <= 64,
        decreases t,
    {
        assert(bitlen(t as nat) == 1 + bitlen((t / 2) as nat));
        t = t / 2;
        bl += 1;
    }
    if bl <= 53 {
        return x as u128;
    }
    let e = bl - 53;
    let mut d: u128 = 1;
    let mut j: u64 = 0;
    while j < e
        invariant
            j <= e <= 11,
            d == p2(j as nat),
            p2(11) == 2048,
        decreases e - j,
    {
        proof {
            lemma_p2_mono((j + 1) as nat, 11);
        }
        d = d * 2;
        j += 1;
    }
    proof {
        lemma_p2_mono(j as nat, 11);
        lemma_p2_mono(0, j as nat);
    }
    let q = rhe(x as u128, d);
    let a = (x as u128) / d;
    proof {
        vstd::arithmetic::div_mod::lemma_fundamental_div_mod(x as int, d as int);
    }
    assert(q * d <= 0x1_0000_0000_0000_0000u128 * 2048) by (nonlinear_arith)
        requires
            q <= a + 1,
            a * d <= x,
            d <= 2048,
            d >= 1,
            x < 0x1_0000_0000_0000_0000u128,
    ;
    q * d
}

/// `format!("{:.1}", x as f64 / d as f64)` for a power of two `d` up to 2^60.
pub fn fmt_one_decimal(x: u64, d: u128) -> (v: Vec<char>)
    requires
        1 <= d <= 0x1000_0000_0000_0000u128,
    ensures
        v@ == one_decimal(x as nat, d as nat),
{
    let f = f64_of(x);
    let r = rhe(f * 10, d);
    let mut v = fmt_u128(r / 10);
    v.push('.');
    let frac = digit_char((r % 10) as u64);
    v.push(frac);
    proof {
        reveal_strlit(".");
        assert(dec((r % 10) as nat) == seq![digit((r % 10) as int)]);
    }
    assert(v@ =~= one_decimal(x as nat, d as nat));
    v
}

} // verus!
