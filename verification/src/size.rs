//! Byte counts, the way people read them.

use crate::text::{decimal, number};
use vstd::prelude::*;

verus! {

/// `n / d` rounded to the nearest whole number, to the even one of two equally near.
pub open spec fn rounded(n: nat, d: nat) -> nat {
    if 2 * (n % d) > d || (2 * (n % d) == d && (n / d) % 2 == 1) {
        n / d + 1
    } else {
        n / d
    }
}

/// The distance between neighbouring double-precision numbers at `n`: the power of
/// two that leaves 53 significant bits.
pub open spec fn grain(n: nat) -> nat
    decreases n,
{
    if n < 0x20_0000_0000_0000 {
        1
    } else {
        2 * grain(n / 2)
    }
}

/// The double-precision number nearest to `n`, the one that sizes are reckoned with.
pub open spec fn nearest_double(n: nat) -> nat {
    rounded(n, grain(n)) * grain(n)
}

/// How many bytes the unit holds in which `v` bytes are written.
pub open spec fn unit_bytes(v: nat) -> nat {
    if v < 0x400 {
        1
    } else if v < 0x10_0000 {
        0x400
    } else if v < 0x4000_0000 {
        0x10_0000
    } else if v < 0x100_0000_0000 {
        0x4000_0000
    } else {
        0x100_0000_0000
    }
}

/// The name of the unit in which `v` bytes are written, with the space before it.
pub open spec fn unit_name(v: nat) -> Seq<char> {
    if v < 0x400 {
        " B"@
    } else if v < 0x10_0000 {
        " KiB"@
    } else if v < 0x4000_0000 {
        " MiB"@
    } else if v < 0x100_0000_0000 {
        " GiB"@
    } else {
        " TiB"@
    }
}

/// How many of its units a byte count is: whole bytes below 1024, else one decimal.
pub open spec fn human_amount(bytes: nat) -> Seq<char> {
    let v = nearest_double(bytes);
    if v < 0x400 {
        decimal(bytes)
    } else {
        let tenths = rounded(10 * v, unit_bytes(v));
        decimal(tenths / 10) + "."@ + decimal(tenths % 10)
    }
}

/// The unit that a byte count is written in, with the space before it: the largest binary
/// unit up to TiB that the count fills.
pub open spec fn human_unit(bytes: nat) -> Seq<char> {
    unit_name(nearest_double(bytes))
}

/// A byte count for people: whole bytes below 1024, else one decimal of the largest
/// binary unit up to TiB that the count fills.
pub open spec fn human_size(bytes: nat) -> Seq<char> {
    human_amount(bytes) + human_unit(bytes)
}

fn round_div(n: u128, d: u128) -> (r: u128)
    requires
        0 < d <= 0x1_0000_0000_0000,
        n <= 0xffff_ffff_ffff_ffff_ffff,
    ensures
        r == rounded(n as nat, d as nat),
        r <= n + 1,
{
    let q: u128 = n / d;
    let rem: u128 = n % d;
    assert(q <= n) by (nonlinear_arith)
        requires
            q == n / d,
            0 < d,
    ;
    if 2 * rem > d || (2 * rem == d && q % 2 == 1) {
        q + 1
    } else {
        q
    }
}

proof fn lemma_grain(n: nat)
    requires
        n <= 0x1_0000_0000_0000_0000,
    ensures
        n < 0x20_0000_0000_0000 ==> grain(n) == 1,
        1 <= grain(n) <= 0x1000,
{
    reveal_with_fuel(grain, 14);
}

/// A byte count for people, e.g. `1.4 MiB`.
pub fn human_bytes(bytes: u64) -> (r: String)
    ensures
        r@ == human_size(bytes as nat),
{
    let (amount, unit) = human_parts(bytes);
    amount.concat(unit)
}

/// A byte count for people, e.g. `1.4` and ` MiB`: how many, and of what unit.
pub fn human_parts(bytes: u64) -> (r: (String, &'static str))
    ensures
        r.0@ == human_amount(bytes as nat),
        r.1@ == human_unit(bytes as nat),
{
    proof {
        lemma_grain(bytes as nat);
    }
    let mut g: u128 = 1;
    let mut rest: u64 = bytes;
    while rest >= 0x20_0000_0000_0000
        invariant
            g * grain(rest as nat) == grain(bytes as nat),
            1 <= g,
            1 <= grain(bytes as nat) <= 0x1000,
            1 <= grain(rest as nat),
        decreases rest,
    {
        proof {
            lemma_grain((rest / 2) as nat);
            let a = grain((rest / 2) as nat);
            assert(g * (2 * a) == (2 * g) * a) by (nonlinear_arith);
            assert((2 * g) * a >= 2 * g) by (nonlinear_arith)
                requires
                    a >= 1,
                    g >= 1,
            ;
        }
        g = 2 * g;
        rest = rest / 2;
    }
    assert(g * 1 == g) by (nonlinear_arith);
    assert(g == grain(bytes as nat));
    let q = round_div(bytes as u128, g);
    assert(q * g <= (bytes + 1) * 0x1000) by (nonlinear_arith)
        requires
            q <= bytes + 1,
            1 <= g <= 0x1000,
    ;
    let v: u128 = q * g;
    proof {
        lemma_nearest_double_bound(bytes as nat);
    }
    if v < 0x400 {
        return (number(bytes), " B");
    }
    let (unit, name): (u128, &'static str) = if v < 0x10_0000 {
        (0x400, " KiB")
    } else if v < 0x4000_0000 {
        (0x10_0000, " MiB")
    } else if v < 0x100_0000_0000 {
        (0x4000_0000, " GiB")
    } else {
        (0x100_0000_0000, " TiB")
    };
    let tenths = round_div(10 * v, unit);
    proof {
        lemma_tenths_fit(v as nat, unit as nat);
    }
    let mut out = number((tenths / 10) as u64);
    out.append(".");
    out.append(number((tenths % 10) as u64).as_str());
    (out, name)
}

proof fn lemma_nearest_double_bound(n: nat)
    requires
        n <= 0xffff_ffff_ffff_ffff,
    ensures
        nearest_double(n) <= 0x1_0000_0000_0000_1000,
{
    lemma_grain(n);
    let g = grain(n);
    let q = rounded(n, g);
    assert(q * g <= n + g) by (nonlinear_arith)
        requires
            q <= n / g + 1,
            g >= 1,
    ;
}

proof fn lemma_tenths_fit(v: nat, unit: nat)
    requires
        v <= 0x1_0000_0000_0000_1000,
        unit >= 0x400,
    ensures
        rounded(10 * v, unit) <= 0xffff_ffff_ffff_ffff,
{
    assert((10 * v) / unit <= (10 * v) / 0x400) by (nonlinear_arith)
        requires
            unit >= 0x400,
    ;
}

} // verus!
