//! Byte counts for people.

use crate::text::{decimal, digit, law_numerals_are_positional, push_decimal};
use vstd::arithmetic::power2::{lemma2_to64, lemma2_to64_rest, lemma_pow2_unfold, pow2};
use vstd::prelude::*;
use vstd::string::*;

verus! {

/// `n / d` to the nearest integer, a tie going to the even one.
pub open spec fn round_half_even(n: nat, d: nat) -> nat
    recommends
        d > 0,
{
    let quotient = n / d;
    let rest = n % d;
    if 2 * rest < d || (2 * rest == d && quotient % 2 == 0) {
        quotient
    } else {
        quotient + 1
    }
}

/// The distance between neighbouring double-precision numbers around `n`: they carry 53 bits.
pub open spec fn double_step(n: nat) -> nat
    decreases n,
{
    if n < 0x20_0000_0000_0000 {
        1
    } else {
        2 * double_step(n / 2)
    }
}

/// The double-precision number nearest to `n`.
pub open spec fn nearest_double(n: nat) -> nat {
    round_half_even(n, double_step(n)) * double_step(n)
}

/// The unit in which `value` bytes are given: the largest one that `value` reaches.
pub open spec fn unit_index(value: nat) -> nat {
    if value < 0x400 {
        0
    } else if value < 0x10_0000 {
        1
    } else if value < 0x4000_0000 {
        2
    } else if value < 0x100_0000_0000 {
        3
    } else {
        4
    }
}

/// The number of bytes in a unit.
pub open spec fn unit_size(unit: nat) -> nat {
    if unit == 0 {
        1
    } else if unit == 1 {
        0x400
    } else if unit == 2 {
        0x10_0000
    } else if unit == 3 {
        0x4000_0000
    } else {
        0x100_0000_0000
    }
}

/// The symbol of a unit.
pub open spec fn unit_name(unit: nat) -> Seq<char> {
    if unit == 0 {
        seq!['B']
    } else if unit == 1 {
        seq!['K', 'i', 'B']
    } else if unit == 2 {
        seq!['M', 'i', 'B']
    } else if unit == 3 {
        seq!['G', 'i', 'B']
    } else {
        seq!['T', 'i', 'B']
    }
}

/// The tenths of a unit that `value` bytes are shown as.
pub open spec fn shown_tenths(value: nat) -> nat {
    round_half_even(10 * value, unit_size(unit_index(value)))
}

/// How `bytes` is shown: a whole number of bytes below one KiB, else one decimal in the unit.
pub open spec fn formatted_bytes(bytes: nat) -> Seq<char> {
    let value = nearest_double(bytes);
    let unit = unit_index(value);
    if unit == 0 {
        decimal(bytes) + seq![' '] + unit_name(unit)
    } else {
        let tenths = shown_tenths(value);
        decimal(tenths / 10) + seq!['.', digit(tenths % 10), ' '] + unit_name(unit)
    }
}

/// Rounding misses by at most half of the divisor.
pub proof fn lemma_round_half_even(n: nat, d: nat)
    requires
        d > 0,
    ensures
        2 * (round_half_even(n, d) * d - n) <= d,
        2 * (n - round_half_even(n, d) * d) <= d,
{
    let quotient = (n / d) as int;
    assert(n == quotient * d + n % d) by (nonlinear_arith)
        requires
            d > 0,
            quotient == n / d,
    ;
    assert((quotient + 1) * d == quotient * d + d) by (nonlinear_arith);
}

/// A count of less than 53 bits is shown for what it is: no precision is lost on the way.
pub proof fn law_small_counts_are_exact(bytes: nat)
    requires
        bytes < 0x20_0000_0000_0000,
    ensures
        nearest_double(bytes) == bytes,
{
    assert(double_step(bytes) == 1);
    assert(bytes / 1 == bytes && bytes % 1 == 0);
}

/// The number shown is within half a tenth of a unit of the count's double-precision value, which
/// itself is within half a step of the count.
pub proof fn law_shown_number_is_close(bytes: nat)
    ensures
        ({
            let value = nearest_double(bytes);
            let size = unit_size(unit_index(value));
            &&& 2 * (shown_tenths(value) * size - 10 * value) <= size
            &&& 2 * (10 * value - shown_tenths(value) * size) <= size
            &&& 2 * (value - bytes) <= double_step(bytes)
            &&& 2 * (bytes - value) <= double_step(bytes)
        }),
{
    let value = nearest_double(bytes);
    lemma_double_step_positive(bytes);
    lemma_round_half_even(bytes, double_step(bytes));
    lemma_round_half_even(10 * value, unit_size(unit_index(value)));
}

/// Below the largest unit, the number shown lies between 1.0 and 1024.0.
pub proof fn law_shown_number_fits_its_unit(bytes: nat)
    ensures
        ({
            let value = nearest_double(bytes);
            0 < unit_index(value) < 4 ==> 10 <= shown_tenths(value) <= 10240
        }),
{
    let value = nearest_double(bytes);
    lemma_round_half_even(10 * value, unit_size(unit_index(value)));
}

proof fn lemma_double_step_positive(n: nat)
    ensures
        double_step(n) > 0,
    decreases n,
{
    if n >= 0x20_0000_0000_0000 {
        lemma_double_step_positive(n / 2);
    }
}

fn rounded_half_even(n: u128, d: u128) -> (res: u128)
    requires
        0 < d <= 0x1_0000_0000_0000_0000,
        n <= 0xff_ffff_ffff_ffff_ffff,
    ensures
        res == round_half_even(n as nat, d as nat),
        res <= n / d + 1,
{
    let quotient: u128 = n / d;
    let rest: u128 = n % d;
    proof {
        assert(quotient <= n) by (nonlinear_arith)
            requires
                quotient == n / d,
                d > 0,
        ;
    }
    if 2 * rest < d || (2 * rest == d && quotient % 2 == 0) {
        quotient
    } else {
        quotient + 1
    }
}

fn step_of(n: u64) -> (res: u64)
    ensures
        res == double_step(n as nat),
        1 <= res,
        res <= n || res == 1,
    decreases n,
{
    if n < 0x20_0000_0000_0000 {
        1
    } else {
        2 * step_of(n / 2)
    }
}

fn double_of(n: u64) -> (res: u128)
    ensures
        res == nearest_double(n as nat),
        res <= 2 * n,
{
    let step: u64 = step_of(n);
    let multiple: u128 = rounded_half_even(n as u128, step as u128);
    proof {
        let q = n as int / step as int;
        assert(q * step <= n) by (nonlinear_arith)
            requires
                q == n as int / step as int,
                step > 0,
        ;
        assert(multiple * step <= q * step + step) by (nonlinear_arith)
            requires
                multiple <= q + 1,
                step > 0,
        ;
    }
    multiple * step as u128
}

/// `bytes` in the largest fitting unit of B, KiB, MiB, GiB and TiB, with one decimal from KiB on.
pub fn format_bytes(bytes: u64) -> (res: String)
    ensures
        res@ == formatted_bytes(bytes as nat),
{
    let value: u128 = double_of(bytes);
    let mut out = String::new();
    if value < 0x400 {
        push_decimal(&mut out, bytes);
        out.push(' ');
        out.push('B');
        assert(out@ =~= formatted_bytes(bytes as nat));
        return out;
    }
    let (size, letter): (u128, char) = if value < 0x10_0000 {
        (0x400, 'K')
    } else if value < 0x4000_0000 {
        (0x10_0000, 'M')
    } else if value < 0x100_0000_0000 {
        (0x4000_0000, 'G')
    } else {
        (0x100_0000_0000, 'T')
    };
    let tenths: u128 = rounded_half_even(10 * value, size);
    assert(tenths <= 0x1000_0000_0000_0000) by {
        if size == 0x400 {
            assert(10 * value / 0x400 <= 0x800_0000_0000_0000);
        } else if size == 0x10_0000 {
            assert(10 * value / 0x10_0000 <= 0x800_0000_0000_0000);
        } else if size == 0x4000_0000 {
            assert(10 * value / 0x4000_0000 <= 0x800_0000_0000_0000);
        } else {
            assert(10 * value / 0x100_0000_0000 <= 0x800_0000_0000_0000);
        }
    }
    push_decimal(&mut out, (tenths / 10) as u64);
    out.push('.');
    push_decimal(&mut out, (tenths % 10) as u64);
    out.push(' ');
    out.push(letter);
    out.push('i');
    out.push('B');
    assert(out@ =~= formatted_bytes(bytes as nat));
    out
}

/// A count below one KiB is shown as its numeral, in bytes.
pub proof fn law_counts_below_a_kib(bytes: nat)
    requires
        bytes < 1024,
    ensures
        formatted_bytes(bytes) == decimal(bytes) + " B"@,
{
    reveal_strlit(" B");
    law_small_counts_are_exact(bytes);
    assert(formatted_bytes(bytes) =~= decimal(bytes) + " B"@);
}

/// From one KiB on, a count is shown in tenths of the largest unit that it reaches, rounded to the
/// nearest tenth, or to the even one of two that are as near. What is rounded is `shown.value`, the
/// number with 53 bits that is nearest to the count, or the even one of two that are as near.
pub proof fn law_counts_from_a_kib_on(bytes: nat) -> (shown: ShownCount)
    requires
        bytes >= 1024,
    ensures
        bytes < pow2(53) ==> shown.value == bytes,
        bytes >= pow2(53) ==> shown.step == pow2(shown.bits) && shown.step * pow2(52) <= bytes
            < shown.step * pow2(53),
        bytes >= pow2(53) ==> shown.value == shown.steps * shown.step,
        bytes >= pow2(53) ==> -shown.step <= 2 * (shown.value - bytes) <= shown.step,
        bytes >= pow2(53) && (2 * (shown.value - bytes) == shown.step || 2 * (bytes - shown.value)
            == shown.step) ==> shown.steps % 2 == 0,
        shown.unit == 1024 || shown.unit == 1024 * 1024 || shown.unit == 1024 * 1024 * 1024
            || shown.unit == 1024 * 1024 * 1024 * 1024,
        shown.unit <= shown.value,
        shown.value < 1024 * shown.unit || shown.unit == 1024 * 1024 * 1024 * 1024,
        -shown.unit <= 2 * (shown.tenths * shown.unit - 10 * shown.value) <= shown.unit,
        2 * (shown.tenths * shown.unit - 10 * shown.value) == shown.unit || 2 * (10 * shown.value
            - shown.tenths * shown.unit) == shown.unit ==> shown.tenths % 2 == 0,
        formatted_bytes(bytes) == decimal(shown.tenths / 10) + "."@ + decimal(shown.tenths % 10) + (
        if shown.unit == 1024 {
            " KiB"@
        } else if shown.unit == 1024 * 1024 {
            " MiB"@
        } else if shown.unit == 1024 * 1024 * 1024 {
            " GiB"@
        } else {
            " TiB"@
        }),
{
    lemma_pow2_53();
    let value = nearest_double(bytes);
    let step = double_step(bytes);
    let steps = round_half_even(bytes, step);
    let bits = lemma_double_step(bytes);
    lemma_round_half_even(bytes, step);
    lemma_ties_go_to_even(bytes, step);
    if bytes < 0x20_0000_0000_0000 {
        law_small_counts_are_exact(bytes);
    } else {
        assert(value >= 1024) by {
            assert(step >= 1);
            assert(step * 0x10_0000_0000_0000 >= step + 1024) by (nonlinear_arith)
                requires
                    step >= 1,
            ;
        }
    }
    let unit = unit_size(unit_index(value));
    let tenths = shown_tenths(value);
    lemma_round_half_even(10 * value, unit);
    lemma_ties_go_to_even(10 * value, unit);
    law_numerals_are_positional(0, tenths % 10);
    reveal_strlit(".");
    reveal_strlit(" KiB");
    reveal_strlit(" MiB");
    reveal_strlit(" GiB");
    reveal_strlit(" TiB");
    let ending = if unit == 1024 {
        " KiB"@
    } else if unit == 1024 * 1024 {
        " MiB"@
    } else if unit == 1024 * 1024 * 1024 {
        " GiB"@
    } else {
        " TiB"@
    };
    assert(formatted_bytes(bytes) =~= decimal(tenths / 10) + "."@ + decimal(tenths % 10) + ending);
    ShownCount { bits, step, steps, value, unit, tenths }
}

/// How a count of bytes comes to be shown.
pub ghost struct ShownCount {
    /// The binary logarithm of `step`.
    pub bits: nat,
    /// The distance between the numbers with 53 bits around the count.
    pub step: nat,
    /// How many steps `value` is.
    pub steps: nat,
    /// The number that is rounded to tenths.
    pub value: nat,
    /// The size of the unit in bytes.
    pub unit: nat,
    /// The tenths of the unit that are shown.
    pub tenths: nat,
}

proof fn lemma_pow2_53()
    ensures
        pow2(52) == 0x10_0000_0000_0000,
        pow2(53) == 0x20_0000_0000_0000,
{
    lemma2_to64();
    lemma2_to64_rest();
}

proof fn lemma_double_step(n: nat) -> (bits: nat)
    ensures
        double_step(n) == pow2(bits),
        n >= 0x10_0000_0000_0000 ==> double_step(n) * 0x10_0000_0000_0000 <= n < double_step(n)
            * 0x20_0000_0000_0000,
        double_step(n) >= 1,
    decreases n,
{
    if n < 0x20_0000_0000_0000 {
        lemma2_to64();
        0
    } else {
        let bits = lemma_double_step(n / 2);
        lemma_pow2_unfold(bits + 1);
        bits + 1
    }
}

proof fn lemma_ties_go_to_even(n: nat, d: nat)
    requires
        d > 0,
    ensures
        2 * (round_half_even(n, d) * d - n) == d || 2 * (n - round_half_even(n, d) * d) == d
            ==> round_half_even(n, d) % 2 == 0,
{
    let quotient = (n / d) as int;
    let rest = (n % d) as int;
    assert(n == quotient * d + rest && 0 <= rest < d) by (nonlinear_arith)
        requires
            d > 0,
            quotient == n / d,
            rest == n % d,
    ;
    assert((quotient + 1) * d == quotient * d + d) by (nonlinear_arith);
}

} // verus!
