use vstd::prelude::*;
use vstd::arithmetic::div_mod::{
    lemma_div_is_ordered, lemma_div_multiples_vanish, lemma_div_of0, lemma_div_pos_is_pos,
    lemma_fundamental_div_mod, lemma_hoist_over_denominator, lemma_mod_division_less_than_divisor,
    lemma_multiply_divide_le, lemma_multiply_divide_lt,
};

use crate::errors::AmmError;

verus! {

/// Basis points in one whole: a fee of `BPS_DENOMINATOR` basis points would
/// consume the entire trade.
pub const BPS_DENOMINATOR: u16 = 10000;

/// Fee withheld from a trade of `amount` at `fee_bps` basis points, rounded
/// down (the pool rounds in its own favor).
pub open spec fn fee_spec(amount: int, fee_bps: int) -> int {
    amount * fee_bps / (BPS_DENOMINATOR as int)
}

/// The portion of the input that is actually priced against the curve.
pub open spec fn after_fee_spec(amount: int, fee_bps: int) -> int {
    amount - fee_spec(amount, fee_bps)
}

/// Constant-product output for a trade of `amount` against the reserves:
/// `floor(a * output_reserve / (input_reserve + a))` where `a` is the input
/// net of the fee.
pub open spec fn price_spec(amount: int, input_reserve: int, output_reserve: int, fee_bps: int) -> int {
    after_fee_spec(amount, fee_bps) * output_reserve
        / (input_reserve + after_fee_spec(amount, fee_bps))
}

/// The inputs on which pricing succeeds: the fee does not exceed the input
/// (always true for `fee_bps <= 10000`) and the curve's denominator is
/// nonzero (a pool whose input reserve and net input are both zero is
/// drained or uninitialized and cannot be priced).
pub open spec fn price_ok(amount: int, input_reserve: int, fee_bps: int) -> bool {
    &&& fee_spec(amount, fee_bps) <= amount
    &&& input_reserve + after_fee_spec(amount, fee_bps) > 0
}

/// Prices a trade of `amount` against `(input_reserve, output_reserve)` at
/// `fee_bps` basis points. Pure: the result is a function of the arguments
/// alone, pinned to [`price_spec`]. Every intermediate step is computed in a
/// widened 128-bit type and checked, never assumed.
pub fn price(amount: u64, input_reserve: u64, output_reserve: u64, fee_bps: u16) -> (r: Result<
    u64,
    AmmError,
>)
    ensures
        price_ok(amount as int, input_reserve as int, fee_bps as int) ==> (r matches Ok(out)
            && out == price_spec(
            amount as int,
            input_reserve as int,
            output_reserve as int,
            fee_bps as int,
        )),
        !price_ok(amount as int, input_reserve as int, fee_bps as int) ==> r == Err::<
            u64,
            AmmError,
        >(AmmError::Underflow),
        r matches Ok(out) ==> out <= output_reserve,
{
    let amount_wide: u128 = amount as u128;
    let fee_wide: u128 = fee_bps as u128;

    proof {
        assert(amount_wide * fee_wide <= u128::MAX) by (nonlinear_arith)
            requires
                amount_wide < 0x10000000000000000,
                fee_wide < 0x10000,
        ;
    }
    let scaled: u128 = match amount_wide.checked_mul(fee_wide) {
        Some(p) => p,
        // unreachable: the product of a 64-bit and a 16-bit value fits the widened type
        None => {
            return Err(AmmError::Overflow);
        },
    };
    let fee_amount: u128 = match scaled.checked_div(BPS_DENOMINATOR as u128) {
        Some(q) => q,
        // unreachable: the divisor is a nonzero constant
        None => {
            return Err(AmmError::Underflow);
        },
    };

    let amount_after_fee: u128 = match amount_wide.checked_sub(fee_amount) {
        Some(v) => v,
        // reachable only when fee_bps exceeds the whole, so the fee tops the input
        None => {
            return Err(AmmError::Underflow);
        },
    };

    proof {
        assert(amount_after_fee * (output_reserve as u128) <= u128::MAX) by (nonlinear_arith)
            requires
                amount_after_fee < 0x10000000000000000,
                output_reserve < 0x10000000000000000,
        ;
    }
    let numerator: u128 = match amount_after_fee.checked_mul(output_reserve as u128) {
        Some(p) => p,
        // unreachable: both factors fit in 64 bits
        None => {
            return Err(AmmError::Overflow);
        },
    };

    let denominator: u128 = match (input_reserve as u128).checked_add(amount_after_fee) {
        Some(s) => s,
        // unreachable: the sum of two 64-bit values fits the widened type
        None => {
            return Err(AmmError::Overflow);
        },
    };

    let wide_out: u128 = match numerator.checked_div(denominator) {
        Some(q) => q,
        // a drained or uninitialized pool: reserve and net input are both zero
        None => {
            return Err(AmmError::Underflow);
        },
    };

    proof {
        lemma_price_le_reserve(
            amount as int,
            input_reserve as int,
            output_reserve as int,
            fee_bps as int,
        );
    }
    if wide_out > u64::MAX as u128 {
        // unreachable: the output never exceeds the 64-bit output reserve
        return Err(AmmError::Underflow);
    }
    Ok(wide_out as u64)
}

/// Pricing is deterministic and pure: the contract of [`price`] pins its
/// result to the arguments alone, so any two results it allows for the same
/// arguments coincide.
pub proof fn lemma_price_deterministic(
    r1: Result<u64, AmmError>,
    r2: Result<u64, AmmError>,
    amount: u64,
    input_reserve: u64,
    output_reserve: u64,
    fee_bps: u16,
)
    requires
        price_ok(amount as int, input_reserve as int, fee_bps as int) ==> (r1 matches Ok(v1)
            && v1 == price_spec(
            amount as int,
            input_reserve as int,
            output_reserve as int,
            fee_bps as int,
        )),
        !price_ok(amount as int, input_reserve as int, fee_bps as int) ==> r1 == Err::<
            u64,
            AmmError,
        >(AmmError::Underflow),
        price_ok(amount as int, input_reserve as int, fee_bps as int) ==> (r2 matches Ok(v2)
            && v2 == price_spec(
            amount as int,
            input_reserve as int,
            output_reserve as int,
            fee_bps as int,
        )),
        !price_ok(amount as int, input_reserve as int, fee_bps as int) ==> r2 == Err::<
            u64,
            AmmError,
        >(AmmError::Underflow),
    ensures
        r1 == r2,
{
}

/// The quotient times the divisor never exceeds the dividend, for a
/// nonnegative dividend and positive divisor.
proof fn lemma_div_mul_le(n: int, d: int)
    requires
        0 <= n,
        0 < d,
    ensures
        d * (n / d) <= n,
        0 <= n / d,
{
    lemma_fundamental_div_mod(n, d);
    lemma_mod_division_less_than_divisor(n, d);
    lemma_div_pos_is_pos(n, d);
}

/// A multiple below the dividend bounds the quotient from below:
/// `m * d <= n` gives `m <= n / d`.
proof fn lemma_div_ge(m: int, n: int, d: int)
    requires
        0 < d,
        m * d <= n,
    ensures
        m <= n / d,
{
    lemma_div_is_ordered(m * d, n, d);
    assert(m * d == d * m) by (nonlinear_arith);
    lemma_div_multiples_vanish(m, d);
}

/// Cross-multiplied fractions order their floors: `a/c <= b/d` whenever
/// `a * d <= b * c` (all nonnegative, divisors positive).
proof fn lemma_div_cross(a: int, c: int, b: int, d: int)
    requires
        0 <= a,
        0 < c,
        0 < d,
        a * d <= b * c,
    ensures
        a / c <= b / d,
{
    let q: int = a / c;
    lemma_div_mul_le(a, c);
    assert((q * d) * c <= b * c) by (nonlinear_arith)
        requires
            c * q <= a,
            a * d <= b * c,
            0 < c,
            0 < d,
            0 <= q,
    ;
    assert(q * d <= b) by (nonlinear_arith)
        requires
            (q * d) * c <= b * c,
            0 < c,
    ;
    lemma_div_ge(q, b, d);
}

/// The fee never exceeds the input and grows by at most the input's growth:
/// bounds and monotonicity of the net-of-fee amount.
proof fn lemma_after_fee_monotone(a1: int, a2: int, f: int)
    requires
        0 <= a1 <= a2,
        0 <= f <= 10000,
    ensures
        0 <= after_fee_spec(a1, f),
        after_fee_spec(a1, f) <= after_fee_spec(a2, f),
        after_fee_spec(a2, f) <= a2,
        fee_spec(a1, f) <= fee_spec(a2, f),
{
    let d: int = BPS_DENOMINATOR as int;
    assert(0 <= a1 * f && a1 * f <= a1 * d && a1 * f <= a2 * f && a2 * f <= a1 * f + (a2 - a1) * d)
        by (nonlinear_arith)
        requires
            0 <= a1 <= a2,
            0 <= f <= d,
    ;
    // fee_spec(a1, f) <= a1, so the net amount is nonnegative
    lemma_div_is_ordered(a1 * f, a1 * d, d);
    lemma_div_multiples_vanish(a1, d);
    assert(a1 * d == d * a1) by (nonlinear_arith);
    // the fee is nonnegative, so the net amount never exceeds the input
    lemma_div_pos_is_pos(a1 * f, d);
    lemma_div_pos_is_pos(a2 * f, d);
    // the fee is monotone in the input
    lemma_div_is_ordered(a1 * f, a2 * f, d);
    // and grows by at most the input's growth
    lemma_div_is_ordered(a2 * f, a1 * f + (a2 - a1) * d, d);
    lemma_hoist_over_denominator(a1 * f, a2 - a1, d as nat);
    // the same bounds for a2 alone
    assert(a2 * f <= a2 * d) by (nonlinear_arith)
        requires
            0 <= a2,
            f <= d,
    ;
    lemma_div_is_ordered(a2 * f, a2 * d, d);
    lemma_div_multiples_vanish(a2, d);
    assert(a2 * d == d * a2) by (nonlinear_arith);
}

/// The curve output is monotone in the net input, for a positive input
/// reserve.
proof fn lemma_curve_monotone(x1: int, x2: int, input_reserve: int, output_reserve: int)
    requires
        0 <= x1 <= x2,
        1 <= input_reserve,
        0 <= output_reserve,
    ensures
        x1 * output_reserve / (input_reserve + x1) <= x2 * output_reserve / (input_reserve + x2),
{
    assert((x1 * output_reserve) * (input_reserve + x2) <= (x2 * output_reserve) * (input_reserve
        + x1)) by (nonlinear_arith)
        requires
            0 <= x1 <= x2,
            0 <= output_reserve,
            0 <= input_reserve,
    ;
    assert(0 <= x1 * output_reserve) by (nonlinear_arith)
        requires
            0 <= x1,
            0 <= output_reserve,
    ;
    lemma_div_cross(
        x1 * output_reserve,
        input_reserve + x1,
        x2 * output_reserve,
        input_reserve + x2,
    );
}

/// The output never exceeds the output reserve: a trade cannot be paid more
/// than the pool holds.
pub proof fn lemma_price_le_reserve(amount: int, input_reserve: int, output_reserve: int, fee_bps: int)
    requires
        0 <= amount,
        0 <= input_reserve,
        0 <= output_reserve,
        0 <= fee_bps,
        price_ok(amount, input_reserve, fee_bps),
    ensures
        0 <= price_spec(amount, input_reserve, output_reserve, fee_bps),
        price_spec(amount, input_reserve, output_reserve, fee_bps) <= output_reserve,
{
    let d: int = BPS_DENOMINATOR as int;
    assert(0 <= amount * fee_bps) by (nonlinear_arith)
        requires
            0 <= amount,
            0 <= fee_bps,
    ;
    lemma_div_pos_is_pos(amount * fee_bps, d);
    let af: int = after_fee_spec(amount, fee_bps);
    assert(0 <= af * output_reserve && af * output_reserve <= (input_reserve + af)
        * output_reserve) by (nonlinear_arith)
        requires
            0 <= af,
            0 <= input_reserve,
            0 <= output_reserve,
    ;
    lemma_div_pos_is_pos(af * output_reserve, input_reserve + af);
    lemma_multiply_divide_le(af * output_reserve, input_reserve + af, output_reserve);
}

/// With positive reserves the output is strictly below the output reserve:
/// no single finite trade can fully drain the pool.
pub proof fn lemma_price_below_reserve(amount: int, input_reserve: int, output_reserve: int, fee_bps: int)
    requires
        0 <= amount,
        1 <= input_reserve,
        1 <= output_reserve,
        0 <= fee_bps <= 10000,
    ensures
        0 <= price_spec(amount, input_reserve, output_reserve, fee_bps),
        price_spec(amount, input_reserve, output_reserve, fee_bps) < output_reserve,
{
    lemma_after_fee_monotone(amount, amount, fee_bps);
    let af: int = after_fee_spec(amount, fee_bps);
    assert(0 <= af * output_reserve && af * output_reserve < (input_reserve + af)
        * output_reserve) by (nonlinear_arith)
        requires
            0 <= af,
            1 <= input_reserve,
            1 <= output_reserve,
    ;
    lemma_div_pos_is_pos(af * output_reserve, input_reserve + af);
    lemma_multiply_divide_lt(af * output_reserve, input_reserve + af, output_reserve);
}

/// A zero input deterministically prices to zero output: a valid but
/// useless trade, which the orchestrator rejects upstream.
pub proof fn lemma_price_zero_amount(input_reserve: int, output_reserve: int, fee_bps: int)
    requires
        1 <= input_reserve,
        0 <= fee_bps,
    ensures
        price_spec(0, input_reserve, output_reserve, fee_bps) == 0,
{
    let d: int = BPS_DENOMINATOR as int;
    assert(0 * fee_bps == 0) by (nonlinear_arith);
    lemma_div_of0(d);
    assert(0 * output_reserve == 0) by (nonlinear_arith);
    lemma_div_of0(input_reserve);
}

/// Monotonicity in the amount: for fixed reserves and fee, trading more
/// never returns less.
pub proof fn lemma_price_monotone_in_amount(
    amount1: int,
    amount2: int,
    input_reserve: int,
    output_reserve: int,
    fee_bps: int,
)
    requires
        0 <= amount1 <= amount2,
        1 <= input_reserve,
        0 <= output_reserve,
        0 <= fee_bps <= 10000,
    ensures
        price_spec(amount1, input_reserve, output_reserve, fee_bps) <= price_spec(
            amount2,
            input_reserve,
            output_reserve,
            fee_bps,
        ),
{
    lemma_after_fee_monotone(amount1, amount2, fee_bps);
    lemma_curve_monotone(
        after_fee_spec(amount1, fee_bps),
        after_fee_spec(amount2, fee_bps),
        input_reserve,
        output_reserve,
    );
}

/// Fee effect: a higher fee never yields a larger output, all else equal.
pub proof fn lemma_price_antitone_in_fee(
    amount: int,
    input_reserve: int,
    output_reserve: int,
    fee1: int,
    fee2: int,
)
    requires
        0 <= amount,
        1 <= input_reserve,
        0 <= output_reserve,
        0 <= fee1 <= fee2 <= 10000,
    ensures
        price_spec(amount, input_reserve, output_reserve, fee2) <= price_spec(
            amount,
            input_reserve,
            output_reserve,
            fee1,
        ),
{
    let d: int = BPS_DENOMINATOR as int;
    assert(amount * fee1 <= amount * fee2) by (nonlinear_arith)
        requires
            0 <= amount,
            fee1 <= fee2,
    ;
    lemma_div_is_ordered(amount * fee1, amount * fee2, d);
    lemma_after_fee_monotone(amount, amount, fee2);
    lemma_curve_monotone(
        after_fee_spec(amount, fee2),
        after_fee_spec(amount, fee1),
        input_reserve,
        output_reserve,
    );
}

/// The product of the reserves never decreases across a trade whose gross
/// input is credited in full while only the net input is priced: the fee
/// stays in the pool.
pub proof fn lemma_constant_product_preserved(
    amount: int,
    input_reserve: int,
    output_reserve: int,
    fee_bps: int,
)
    requires
        0 <= amount,
        1 <= input_reserve,
        0 <= output_reserve,
        0 <= fee_bps <= 10000,
    ensures
        (input_reserve + amount) * (output_reserve - price_spec(
            amount,
            input_reserve,
            output_reserve,
            fee_bps,
        )) >= input_reserve * output_reserve,
{
    lemma_after_fee_monotone(amount, amount, fee_bps);
    let af: int = after_fee_spec(amount, fee_bps);
    let out: int = price_spec(amount, input_reserve, output_reserve, fee_bps);
    lemma_price_le_reserve(amount, input_reserve, output_reserve, fee_bps);
    assert(0 <= af * output_reserve) by (nonlinear_arith)
        requires
            0 <= af,
            0 <= output_reserve,
    ;
    lemma_div_mul_le(af * output_reserve, input_reserve + af);
    assert((input_reserve + amount) * (output_reserve - out) >= input_reserve * output_reserve)
        by (nonlinear_arith)
        requires
            (input_reserve + af) * out <= af * output_reserve,
            out <= output_reserve,
            af <= amount,
            0 <= af,
            0 <= out,
            0 <= output_reserve,
            1 <= input_reserve,
            0 <= amount,
    ;
}

/// No free lunch: swapping an amount one way and the whole proceeds straight
/// back, at the same fee, returns strictly less than the original amount,
/// whenever the fee rounds to at least one unit on the first leg.
pub proof fn lemma_round_trip_lossy(amount: int, reserve_in: int, reserve_out: int, fee_bps: int)
    requires
        1 <= amount,
        1 <= reserve_in,
        1 <= reserve_out,
        1 <= fee_bps <= 10000,
        10000 <= amount * fee_bps,
    ensures
        ({
            let forward = price_spec(amount, reserve_in, reserve_out, fee_bps);
            let back = price_spec(forward, reserve_out - forward, reserve_in + amount, fee_bps);
            back < amount
        }),
{
    let d: int = BPS_DENOMINATOR as int;
    let fee1: int = fee_spec(amount, fee_bps);
    let af1: int = after_fee_spec(amount, fee_bps);
    // the fee on the first leg is at least one unit
    lemma_div_ge(1, amount * fee_bps, d);
    lemma_after_fee_monotone(amount, amount, fee_bps);
    // the first leg's output and its division facts
    let forward: int = price_spec(amount, reserve_in, reserve_out, fee_bps);
    lemma_price_below_reserve(amount, reserve_in, reserve_out, fee_bps);
    assert(0 <= af1 * reserve_out) by (nonlinear_arith)
        requires
            0 <= af1,
            0 <= reserve_out,
    ;
    lemma_div_mul_le(af1 * reserve_out, reserve_in + af1);
    // the proceeds, grossed up by the fee, stay under the constant-product bar
    assert(forward * (reserve_in + amount) < amount * reserve_out) by (nonlinear_arith)
        requires
            (reserve_in + af1) * forward <= af1 * reserve_out,
            forward < reserve_out,
            af1 + 1 <= amount,
            0 <= forward,
            0 <= af1,
            1 <= reserve_out,
            1 <= reserve_in,
    ;
    // the second leg
    let fee2: int = fee_spec(forward, fee_bps);
    let af2: int = after_fee_spec(forward, fee_bps);
    lemma_after_fee_monotone(forward, forward, fee_bps);
    let back_denominator: int = (reserve_out - forward) + af2;
    assert(back_denominator == reserve_out - fee2);
    assert(af2 * (reserve_in + amount) < amount * back_denominator) by (nonlinear_arith)
        requires
            forward * (reserve_in + amount) < amount * reserve_out,
            af2 == forward - fee2,
            back_denominator == reserve_out - fee2,
            0 <= fee2,
            1 <= amount,
            1 <= reserve_in,
    ;
    lemma_multiply_divide_lt(af2 * (reserve_in + amount), back_denominator, amount);
}

} // verus!
