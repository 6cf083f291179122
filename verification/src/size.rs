//! File sizes as the browser shows them.

use crate::text::{concat, concat4, decimal, decimal_text};
use vstd::arithmetic::div_mod::lemma_fundamental_div_mod;
use vstd::prelude::*;

verus! {

/// The number of bytes of one kilobyte.
pub const KB: u64 = 1024;

/// The number of bytes of one megabyte.
pub const MB: u64 = 1_048_576;

/// The number of bytes of one gigabyte.
pub const GB: u64 = 1_073_741_824;

/// Below this bound every integer is a double-precision number.
pub const EXACT_DOUBLES: u64 = 9_007_199_254_740_992;

/// `n / d`, rounded to the nearest integer, and to the even one of two that are equally near.
pub open spec fn round_half_even(n: nat, d: nat) -> nat {
    let quotient = n / d;
    let remainder = n % d;
    if 2 * remainder < d || (2 * remainder == d && quotient % 2 == 0) {
        quotient
    } else {
        quotient + 1
    }
}

/// The distance between the double-precision numbers around `n`, where these are integers.
pub open spec fn spacing(n: nat) -> nat
    decreases n,
{
    if n < EXACT_DOUBLES {
        1
    } else {
        2 * spacing(n / 2)
    }
}

/// The double-precision number nearest to `n`.
pub open spec fn nearest_double(n: nat) -> nat {
    round_half_even(n, spacing(n)) * spacing(n)
}

/// `size` in tenths of `unit`: the size is taken in double precision, then rounded.
pub open spec fn tenths_of(size: nat, unit: nat) -> nat {
    round_half_even(10 * nearest_double(size), unit)
}

/// A number of tenths, with one digit behind the point.
pub open spec fn one_decimal(tenths: nat) -> Seq<char> {
    decimal(tenths / 10) + "."@ + decimal(tenths % 10)
}

/// The text for `size`: whole bytes below a kilobyte, otherwise the largest unit that the size
/// reaches, with one digit behind the point.
pub open spec fn size_text(size: nat) -> Seq<char> {
    if size >= GB {
        one_decimal(tenths_of(size, GB as nat)) + " GB"@
    } else if size >= MB {
        one_decimal(tenths_of(size, MB as nat)) + " MB"@
    } else if size >= KB {
        one_decimal(tenths_of(size, KB as nat)) + " KB"@
    } else {
        decimal(size) + " B"@
    }
}

fn spacing_of(n: u64) -> (step: u64)
    ensures
        step == spacing(n as nat),
        step > 0,
        n > 0 ==> step <= n,
    decreases n,
{
    if n < EXACT_DOUBLES {
        1
    } else {
        2 * spacing_of(n / 2)
    }
}

fn rounded(n: u128, d: u128) -> (q: u128)
    requires
        0 < d < 0x1_0000_0000_0000_0000,
        n < 0x100_0000_0000_0000_0000,
    ensures
        q == round_half_even(n as nat, d as nat),
        q * d <= n + d,
        q <= n + 1,
{
    let quotient: u128 = n / d;
    let remainder: u128 = n % d;
    proof {
        lemma_fundamental_div_mod(n as int, d as int);
        assert(quotient * d <= n) by (nonlinear_arith)
            requires
                n == d * quotient + remainder,
                remainder >= 0,
        ;
        assert((quotient + 1) * d == quotient * d + d) by (nonlinear_arith);
        assert(quotient <= n) by (nonlinear_arith)
            requires
                quotient * d <= n,
                d >= 1,
                quotient >= 0,
        ;
    }
    if 2 * remainder < d || (2 * remainder == d && quotient % 2 == 0) {
        quotient
    } else {
        quotient + 1
    }
}

fn tenths(size: u64, unit: u64) -> (t: u64)
    requires
        unit >= KB,
    ensures
        t == tenths_of(size as nat, unit as nat),
{
    let step: u64 = spacing_of(size);
    let steps: u128 = rounded(size as u128, step as u128);
    proof {
        if size == 0 {
            assert(step == 1);
        }
    }
    let nearest: u128 = steps * (step as u128);
    let t: u128 = rounded(10 * nearest, unit as u128);
    assert(t <= 10 * nearest / 1024 + 1) by (nonlinear_arith)
        requires
            t * unit <= 10 * nearest + unit,
            unit >= 1024,
            t >= 0,
            nearest >= 0,
    ;
    t as u64
}

fn one_decimal_text(tenths: u64, unit: &str) -> (s: String)
    ensures
        s@ == one_decimal(tenths as nat) + unit@,
{
    let whole: String = decimal_text(tenths / 10);
    let fraction: String = decimal_text(tenths % 10);
    concat4(whole.as_str(), ".", fraction.as_str(), unit)
}

/// The text that the browser shows for a file of `size` bytes.
pub fn format_file_size(size: u64) -> (text: String)
    ensures
        text@ == size_text(size as nat),
{
    if size >= GB {
        one_decimal_text(tenths(size, GB), " GB")
    } else if size >= MB {
        one_decimal_text(tenths(size, MB), " MB")
    } else if size >= KB {
        one_decimal_text(tenths(size, KB), " KB")
    } else {
        concat(decimal_text(size).as_str(), " B")
    }
}

proof fn rounding_is_to_the_nearest(n: nat, d: nat)
    requires
        d > 0,
    ensures
        -d <= 2 * (round_half_even(n, d) * d - n) <= d,
        2 * (round_half_even(n, d) * d - n) == d ==> round_half_even(n, d) % 2 == 0,
        2 * (round_half_even(n, d) * d - n) == -d ==> round_half_even(n, d) % 2 == 0,
{
    let quotient = n / d;
    let remainder = n % d;
    lemma_fundamental_div_mod(n as int, d as int);
    assert(quotient * d + remainder == n) by (nonlinear_arith)
        requires
            n == d * quotient + remainder,
    ;
    assert((quotient + 1) * d == quotient * d + d) by (nonlinear_arith);
    assert(remainder < d) by (nonlinear_arith)
        requires
            remainder == n % d,
            d > 0,
    ;
}

proof fn doubles_are_dense(n: nat)
    ensures
        spacing(n) > 0,
        n < 9_007_199_254_740_992 ==> spacing(n) == 1,
        n >= 9_007_199_254_740_992 ==> spacing(n) * 4_503_599_627_370_496 <= n,
    decreases n,
{
    if n >= 9_007_199_254_740_992 {
        doubles_are_dense(n / 2);
    }
}

/// A size of less than a kilobyte is shown in bytes. Any other is shown in the largest of the three
/// units that it reaches, to the nearest tenth of it, and to the even one of two that are equally
/// near; first the size is taken in double precision, which leaves it as it is where it can, and
/// otherwise changes it by at most one part in 2 to the power of 53. The tenths that are shown and
/// the size in double precision are handed out.
pub proof fn sizes_are_shown_to_the_nearest_tenth(size: nat) -> (shown: (nat, nat))
    ensures
        size < 1024 ==> size_text(size) == decimal(size) + " B"@,
        size >= 1024 ==> ({
            let (tenths, double) = shown;
            let (unit, name) = if size < 1_048_576 {
                (1024int, " KB"@)
            } else if size < 1_073_741_824 {
                (1_048_576int, " MB"@)
            } else {
                (1_073_741_824int, " GB"@)
            };
            &&& size_text(size) == decimal(tenths / 10) + "."@ + decimal(tenths % 10) + name
            &&& -unit <= 2 * (tenths * unit - 10 * double) <= unit
            &&& 2 * (tenths * unit - 10 * double) == unit ==> tenths % 2 == 0
            &&& 2 * (tenths * unit - 10 * double) == -unit ==> tenths % 2 == 0
            &&& size < 9_007_199_254_740_992 ==> double == size
            &&& -size <= 2 * (double - size) * 4_503_599_627_370_496 <= size
        }),
{
    let step = spacing(size);
    let double = nearest_double(size);
    doubles_are_dense(size);
    rounding_is_to_the_nearest(size, step);
    let unit: nat = if size < 1_048_576 {
        1024
    } else if size < 1_073_741_824 {
        1_048_576
    } else {
        1_073_741_824
    };
    let tenths = tenths_of(size, unit);
    rounding_is_to_the_nearest(10 * double, unit);
    if size < 9_007_199_254_740_992 {
        assert(size / 1 == size && size % 1 == 0);
        assert(double == size) by (nonlinear_arith)
            requires
                double == size * step,
                step == 1,
        ;
    }
    (tenths, double)
}

} // verus!
