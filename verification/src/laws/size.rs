//! What holds of byte counts as people read them.

use crate::size::{grain, human_bytes, nearest_double, rounded};
use crate::text::decimal;
use vstd::prelude::*;

verus! {

/// A byte count below 1024 is written as it is. A larger one is written in the largest of the units
/// KiB, MiB, GiB and TiB, each 1024 times the one before, that it fills, with one decimal that is
/// as near to the count as a decimal can be.
pub proof fn sizes_are_as_near_as_one_decimal_can_be(bytes: u64, r: String)
    requires
        call_ensures(human_bytes, (bytes,), r),
        bytes < 0x20_0000_0000_0000,
    ensures
        bytes < 1024 ==> r@ == decimal(bytes as nat) + " B"@,
        bytes >= 1024 ==> exists|tenths: nat, unit: nat|
            {
                &&& #[trigger] (tenths * unit) * 2 <= 20 * bytes + unit
                &&& 20 * bytes <= (tenths * unit) * 2 + unit
                &&& unit <= bytes
                &&& unit < 1024 * 1024 * 1024 * 1024 ==> bytes < 1024 * unit
                &&& r@ == decimal(tenths / 10) + "."@ + decimal(tenths % 10) + if unit == 1024 {
                    " KiB"@
                } else if unit == 1024 * 1024 {
                    " MiB"@
                } else if unit == 1024 * 1024 * 1024 {
                    " GiB"@
                } else {
                    " TiB"@
                }
                &&& unit == 1024 || unit == 1024 * 1024 || unit == 1024 * 1024 * 1024 || unit
                    == 1024 * 1024 * 1024 * 1024
            },
{
    let n = bytes as nat;
    assert(grain(n) == 1);
    assert(rounded(n, 1) == n) by {
        assert(n % 1 == 0);
        assert(n / 1 == n);
    }
    assert(nearest_double(n) == n);
    if bytes >= 1024 {
        let unit = crate::size::unit_bytes(n);
        let tenths = rounded(10 * n, unit);
        lemma_rounded(10 * n, unit);
        assert((tenths * unit) * 2 <= 20 * bytes + unit);
        assert(r@ =~= decimal(tenths / 10) + "."@ + decimal(tenths % 10) + crate::size::unit_name(
            n,
        ));
    }
}

proof fn lemma_rounded(n: nat, d: nat)
    requires
        d > 0,
    ensures
        2 * (rounded(n, d) * d) <= 2 * n + d,
        2 * n <= 2 * (rounded(n, d) * d) + d,
{
    let q = n / d;
    let m = n % d;
    assert(n == q * d + m && m < d) by (nonlinear_arith)
        requires
            q == n / d,
            m == n % d,
            d > 0,
    ;
    assert((q + 1) * d == q * d + d) by (nonlinear_arith);
}

} // verus!
