//! The swap engine: truncating fixed-point conversion of an input amount by a
//! rate `rate_num / rate_den`, and the per-call counter transition.
//!
//! All arithmetic is `i128` with truncating division (the quotient is rounded
//! toward zero, so `(-1 * 1) / 2 == 0`). Division by zero and any overflow of
//! the `i128` domain are failures; the engine never panics.

use vstd::prelude::*;

verus! {

/// Why a swap was refused. Every failure leaves the contract state unchanged.
#[derive(Clone, Copy, Debug, PartialEq, Eq, Structural)]
pub enum SwapError {
    /// The invocation did not carry a grant for this exact call.
    Unauthorized,
    /// The rate denominator was zero.
    DivisionByZero,
    /// The product or the quotient fell outside the `i128` domain.
    Overflow,
}

/// Truncating division of `x` by `d`: the quotient rounded toward zero, as the
/// `/` operator of the machine integer types computes it.
pub open spec fn trunc_div(x: int, d: int) -> int
    recommends
        d != 0,
{
    if x == 0 {
        0
    } else if x > 0 && d > 0 {
        x / d
    } else if x < 0 && d < 0 {
        (x * -1) / (d * -1)
    } else if x < 0 {
        ((x * -1) / d) * -1
    } else {
        (x / (d * -1)) * -1
    }
}

/// The product `amount_in * rate_num` fits in `i128`.
pub open spec fn product_in_range(amount_in: i128, rate_num: i128) -> bool {
    i128::MIN <= amount_in * rate_num <= i128::MAX
}

/// The truncated quotient fits in `i128` (it does not only for
/// `i128::MIN / -1`).
pub open spec fn quotient_in_range(amount_in: i128, rate_num: i128, rate_den: i128) -> bool
    recommends
        rate_den != 0,
{
    i128::MIN <= trunc_div(amount_in * rate_num, rate_den as int) <= i128::MAX
}

/// The arithmetic of a swap succeeds: nonzero denominator and no overflow.
pub open spec fn arith_ok(amount_in: i128, rate_num: i128, rate_den: i128) -> bool {
    &&& product_in_range(amount_in, rate_num)
    &&& rate_den != 0
    &&& quotient_in_range(amount_in, rate_num, rate_den)
}

/// The output amount of a successful swap:
/// `amount_in * rate_num / rate_den`, with the division truncating.
pub open spec fn converted_amount(amount_in: i128, rate_num: i128, rate_den: i128) -> int
    recommends
        arith_ok(amount_in, rate_num, rate_den),
{
    trunc_div(amount_in * rate_num, rate_den as int)
}

/// What the conversion returns, for every input. Overflow of the product is
/// detected before the denominator is inspected, as the host's trap order has
/// it.
pub open spec fn swap_output(amount_in: i128, rate_num: i128, rate_den: i128) -> Result<
    i128,
    SwapError,
> {
    if !product_in_range(amount_in, rate_num) {
        Err(SwapError::Overflow)
    } else if rate_den == 0 {
        Err(SwapError::DivisionByZero)
    } else if !quotient_in_range(amount_in, rate_num, rate_den) {
        Err(SwapError::Overflow)
    } else {
        Ok(converted_amount(amount_in, rate_num, rate_den) as i128)
    }
}

/// Converts `amount_in` at the rate `rate_num / rate_den` with truncating
/// `i128` arithmetic, refusing exactly the inputs whose product or quotient
/// leaves the `i128` domain or whose denominator is zero.
pub fn compute_amount_out(amount_in: i128, rate_num: i128, rate_den: i128) -> (r: Result<
    i128,
    SwapError,
>)
    ensures
        r == swap_output(amount_in, rate_num, rate_den),
        r is Ok <==> arith_ok(amount_in, rate_num, rate_den),
{
    let product = match amount_in.checked_mul(rate_num) {
        Some(p) => p,
        None => {
            return Err(SwapError::Overflow);
        },
    };
    match product.checked_div(rate_den) {
        Some(q) => Ok(q),
        None => {
            if rate_den == 0 {
                Err(SwapError::DivisionByZero)
            } else {
                Err(SwapError::Overflow)
            }
        },
    }
}

/// One counter transition: what a successful swap does to a stored counter.
pub open spec fn spec_swap_transition(
    count: u32,
    amount_in: i128,
    rate_num: i128,
    rate_den: i128,
) -> Result<(u32, i128), SwapError>
    recommends
        count < u32::MAX,
{
    match swap_output(amount_in, rate_num, rate_den) {
        Ok(out) => Ok((((count + 1) as u32), out)),
        Err(e) => Err(e),
    }
}

/// The swap engine as a pure state transition: given the identity's stored
/// counter and the call's amount and rate, returns the new counter (old + 1)
/// and the output amount, or the failure that aborts the invocation.
///
/// The host traps when the counter itself would overflow, so that input is
/// excluded here; an embedding must refuse the call as the host does.
pub fn swap_transition(count: u32, amount_in: i128, rate_num: i128, rate_den: i128) -> (r: Result<
    (u32, i128),
    SwapError,
>)
    requires
        count < u32::MAX,
    ensures
        r == spec_swap_transition(count, amount_in, rate_num, rate_den),
        r is Ok <==> arith_ok(amount_in, rate_num, rate_den),
{
    match compute_amount_out(amount_in, rate_num, rate_den) {
        Ok(out) => Ok((count + 1, out)),
        Err(e) => Err(e),
    }
}

} // verus!
