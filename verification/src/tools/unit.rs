//! Byte counts as short human-readable sizes.

use crate::text::{decimal, push_decimal};
use vstd::arithmetic::div_mod::lemma_fundamental_div_mod;
use vstd::prelude::*;
use vstd::string::StringExecFns;

verus! {

pub const KB: u64 = 1024;

pub const MB: u64 = 1_048_576;

pub const GB: u64 = 1_073_741_824;

pub const TB: u64 = 1_099_511_627_776;

/// Integers below this bound are binary floating-point numbers of double
/// precision as they stand.
pub const EXACT: u64 = 0x20_0000_0000_0000;

/// The distance between neighbouring double-precision numbers around `n`.
pub open spec fn spacing(n: nat) -> nat
    decreases n,
{
    if n < EXACT {
        1
    } else {
        2 * spacing(n / 2)
    }
}

/// `num / den` rounded to the nearest integer; a tie goes to the even one.
pub open spec fn nearest_even(num: nat, den: nat) -> nat
    recommends
        den > 0,
{
    let q = num / den;
    let r = num % den;
    if 2 * r > den || (2 * r == den && q % 2 == 1) {
        q + 1
    } else {
        q
    }
}

/// The double-precision number nearest to `n`.
pub open spec fn as_double(n: nat) -> nat {
    nearest_even(n, spacing(n)) * spacing(n)
}

/// Which unit a value is shown in: 1 for KB up to 4 for TB. It is the first
/// unit in which the value stays below 1024, and TB where there is none.
pub open spec fn scale(v: nat) -> nat {
    if v < MB {
        1
    } else if v < GB {
        2
    } else if v < TB {
        3
    } else {
        4
    }
}

/// The number of bytes in one unit of the given scale.
pub open spec fn unit_size(k: nat) -> nat {
    if k == 1 {
        KB as nat
    } else if k == 2 {
        MB as nat
    } else if k == 3 {
        GB as nat
    } else {
        TB as nat
    }
}

/// The name of the unit of the given scale.
pub open spec fn unit_name(k: nat) -> Seq<char> {
    if k == 1 {
        "KB"@
    } else if k == 2 {
        "MB"@
    } else if k == 3 {
        "GB"@
    } else {
        "TB"@
    }
}

/// The size `unit` prints for `n` bytes, in tenths of the chosen unit.
pub open spec fn tenths(n: nat) -> nat {
    nearest_even(10 * as_double(n), unit_size(scale(as_double(n))))
}

/// The text `unit` returns for `n` bytes: the size with one decimal place,
/// then the unit's name.
pub open spec fn unit_text(n: nat) -> Seq<char> {
    decimal(tenths(n) / 10) + seq!['.'] + decimal(tenths(n) % 10) + unit_name(
        scale(as_double(n)),
    )
}

fn round_div(num: u128, den: u128) -> (q: u128)
    requires
        0 < den <= TB,
        num <= 0x1000_0000_0000_0000_0000,
    ensures
        q == nearest_even(num as nat, den as nat),
{
    let q: u128 = num / den;
    let r: u128 = num % den;
    if 2 * r > den || (2 * r == den && q % 2 == 1) {
        q + 1
    } else {
        q
    }
}

fn double_of(n: u64) -> (v: u128)
    ensures
        v == as_double(n as nat),
        v <= 0x2_0000_0000_0000_0000,
{
    let mut s: u64 = 1;
    let mut m: u64 = n;
    while m >= EXACT
        invariant
            1 <= s <= 0x1000,
            s * m <= n,
            spacing(n as nat) == s * spacing(m as nat),
        decreases m,
    {
        assert(s * 2 * (m / 2) <= s * m) by (nonlinear_arith)
            requires
                s >= 1,
                m >= 0,
        ;
        assert(s < 0x800) by (nonlinear_arith)
            requires
                s * m <= n,
                m >= 0x20_0000_0000_0000,
                n < 0x1_0000_0000_0000_0000,
                s >= 1,
        ;
        assert(s * (2 * spacing((m / 2) as nat)) == (s * 2) * spacing((m / 2) as nat))
            by (nonlinear_arith);
        s = s * 2;
        m = m / 2;
    }
    assert(spacing(m as nat) == 1);
    assert(spacing(n as nat) == s) by (nonlinear_arith)
        requires
            spacing(n as nat) == s * spacing(m as nat),
            spacing(m as nat) == 1,
    ;
    let q: u128 = round_div(n as u128, s as u128);
    proof {
        let d = (n as int) / (s as int);
        let r = (n as int) % (s as int);
        lemma_fundamental_div_mod(n as int, s as int);
        assert(q * s <= n + s) by (nonlinear_arith)
            requires
                q <= d + 1,
                n == s * d + r,
                0 <= r,
                s >= 1,
        ;
    }
    q * (s as u128)
}

/// Formats a byte count with one decimal place in the first of KB, MB, GB
/// and TB in which it stays below 1024, and in TB where it never does.
///
/// The count is taken as the nearest double-precision number, and the
/// decimal place is rounded to nearest with ties to even, so the text is
/// the one that floating-point formatting with one decimal yields.
pub fn unit(n: u64) -> (text: String)
    ensures
        text@ == unit_text(n as nat),
{
    let v: u128 = double_of(n);
    let (size, name): (u128, &str) = if v < MB as u128 {
        (KB as u128, "KB")
    } else if v < GB as u128 {
        (MB as u128, "MB")
    } else if v < TB as u128 {
        (GB as u128, "GB")
    } else {
        (TB as u128, "TB")
    };
    let t: u128 = round_div(10 * v, size);
    assert(size == KB || size == MB || size == GB || size == TB);
    assert(t <= 0x1000_0000_0000_0000);
    let mut text = String::new();
    push_decimal(&mut text, (t / 10) as u64);
    text.push('.');
    push_decimal(&mut text, (t % 10) as u64);
    text.append(name);
    assert(text@ =~= unit_text(n as nat));
    text
}

} // verus!
