//! Laws of the swap core that relate several operations or whole runs, proved
//! over the spec views that the operations' own contracts use.

use vstd::prelude::*;
use crate::contract::{Identity, SwapContract};
use crate::engine::{product_in_range, swap_output, SwapError};

verus! {

/// Reading a counter is idempotent: two reads of the same identity's counter
/// with no intervening swap return the same value.
pub proof fn lemma_get_count_idempotent(c: SwapContract, user: Identity, r1: u32, r2: u32)
    requires
        r1 == c.count_of(user),
        r2 == c.count_of(user),
    ensures
        r1 == r2,
{
}

/// One successful swap by `user`, seen on the counter store: the counter of
/// `user` grows by exactly 1. This is what `SwapContract::swap` ensures of
/// every `Ok` return.
pub open spec fn successful_swap_step(pre: SwapContract, post: SwapContract, user: Identity) -> bool {
    post.count_of(user) == pre.count_of(user) + 1
}

proof fn lemma_counter_chain(states: Seq<SwapContract>, user: Identity, i: int)
    requires
        0 <= i < states.len(),
        forall|k: int|
            0 <= k < states.len() - 1 ==> successful_swap_step(#[trigger] states[k], states[k + 1], user),
    ensures
        states[i].count_of(user) == states[0].count_of(user) + i,
    decreases i,
{
    if i > 0 {
        lemma_counter_chain(states, user, i - 1);
        assert(successful_swap_step(states[i - 1], states[i], user));
    }
}

/// Counters are monotonic and skip nothing: along any run of successful swaps
/// by one identity, the counter read after the i-th swap is the starting
/// counter plus i, so successive reads form a strictly increasing sequence.
pub proof fn lemma_counter_monotonic(states: Seq<SwapContract>, user: Identity)
    requires
        forall|k: int|
            0 <= k < states.len() - 1 ==> successful_swap_step(#[trigger] states[k], states[k + 1], user),
    ensures
        forall|i: int|
            0 <= i < states.len() ==> #[trigger] states[i].count_of(user) == states[0].count_of(user) + i,
        forall|i: int, j: int|
            0 <= i < j < states.len() ==> #[trigger] states[i].count_of(user) < #[trigger] states[j].count_of(user),
{
    assert forall|i: int|
        0 <= i < states.len() implies #[trigger] states[i].count_of(user) == states[0].count_of(
        user,
    ) + i by {
        lemma_counter_chain(states, user, i);
    }
}

/// A swap whose rate denominator is zero never succeeds: whatever the amount
/// and numerator, the conversion reports a failure, and where the product is
/// representable the failure is the division-by-zero error itself.
pub proof fn lemma_div_by_zero_fails(amount_in: i128, rate_num: i128)
    ensures
        swap_output(amount_in, rate_num, 0) is Err,
        product_in_range(amount_in, rate_num) ==> swap_output(amount_in, rate_num, 0) == Err::<
            i128,
            SwapError,
        >(SwapError::DivisionByZero),
{
}

} // verus!
