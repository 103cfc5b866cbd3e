use swap_contract::contract::{AuthGrant, DataKey, EventTopic, Identity, SwapContract, SwapEvent};
use swap_contract::engine::{compute_amount_out, swap_transition, SwapError};

fn user(id: u64) -> Identity {
    Identity { id }
}

fn grant_for(user: Identity, amount_in: i128, rate_num: i128, rate_den: i128) -> AuthGrant {
    AuthGrant::new(user, amount_in, rate_num, rate_den)
}

#[test]
fn test_xlm_to_usdc() {
    let mut c = SwapContract::new();
    let u = user(1);

    // 100 XLM * 12/100 = 12 USDC
    let amount_out = c.swap(&grant_for(u, 100, 12, 100), u, 100, 12, 100);
    assert_eq!(amount_out, Ok(12));
    assert_eq!(c.get_count(u), 1);
}

#[test]
fn test_xlm_to_eurc() {
    let mut c = SwapContract::new();
    let u = user(1);

    // 100 XLM * 11/100 = 11 EURC
    let amount_out = c.swap(&grant_for(u, 100, 11, 100), u, 100, 11, 100);
    assert_eq!(amount_out, Ok(11));
}

#[test]
fn second_swap_increments_count_again() {
    let mut c = SwapContract::new();
    let u = user(1);

    let first = c.swap(&grant_for(u, 100, 12, 100), u, 100, 12, 100);
    assert_eq!(first, Ok(12));
    assert_eq!(c.get_count(u), 1);

    let second = c.swap(&grant_for(u, 100, 11, 100), u, 100, 11, 100);
    assert_eq!(second, Ok(11));
    assert_eq!(c.get_count(u), 2);
}

#[test]
fn unseen_identity_reads_zero() {
    let mut c = SwapContract::new();
    let u = user(1);
    let stranger = user(2);

    assert_eq!(c.get_count(stranger), 0);

    c.swap(&grant_for(u, 100, 12, 100), u, 100, 12, 100).unwrap();
    assert_eq!(c.get_count(stranger), 0);
}

#[test]
fn get_count_is_idempotent() {
    let mut c = SwapContract::new();
    let u = user(1);
    c.swap(&grant_for(u, 100, 12, 100), u, 100, 12, 100).unwrap();

    let first = c.get_count(u);
    let second = c.get_count(u);
    let third = c.get_count(u);
    assert_eq!(first, 1);
    assert_eq!(second, first);
    assert_eq!(third, first);
}

#[test]
fn division_by_zero_fails_and_changes_nothing() {
    let mut c = SwapContract::new();
    let u = user(1);
    c.swap(&grant_for(u, 100, 12, 100), u, 100, 12, 100).unwrap();
    let before = c.get_count(u);
    let events_before = c.events.len();

    let r = c.swap(&grant_for(u, 100, 1, 0), u, 100, 1, 0);
    assert_eq!(r, Err(SwapError::DivisionByZero));
    assert_eq!(c.get_count(u), before);
    assert_eq!(c.events.len(), events_before);
}

#[test]
fn unauthorized_swap_fails_and_changes_nothing() {
    let mut c = SwapContract::new();
    let u = user(1);
    let intruder = user(2);
    c.swap(&grant_for(u, 100, 12, 100), u, 100, 12, 100).unwrap();
    let before = c.get_count(u);
    let events_before = c.events.len();

    // A grant issued to another identity is refused.
    let wrong_subject = c.swap(&grant_for(intruder, 100, 12, 100), u, 100, 12, 100);
    assert_eq!(wrong_subject, Err(SwapError::Unauthorized));

    // A grant for altered arguments is refused too.
    let wrong_args = c.swap(&grant_for(u, 100, 12, 100), u, 100, 13, 100);
    assert_eq!(wrong_args, Err(SwapError::Unauthorized));

    assert_eq!(c.get_count(u), before);
    assert_eq!(c.get_count(intruder), 0);
    assert_eq!(c.events.len(), events_before);
}

#[test]
fn successful_swap_emits_one_event() {
    let mut c = SwapContract::new();
    let u = user(9);

    c.swap(&grant_for(u, 100, 12, 100), u, 100, 12, 100).unwrap();
    assert_eq!(c.events.len(), 1);
    assert_eq!(
        c.events[0],
        SwapEvent { topic: EventTopic::Swap, user: u, amount_out: 12 }
    );

    c.swap(&grant_for(u, 50, 12, 100), u, 50, 12, 100).unwrap();
    assert_eq!(c.events.len(), 2);
    assert_eq!(
        c.events[1],
        SwapEvent { topic: EventTopic::Swap, user: u, amount_out: 6 }
    );
}

#[test]
fn counters_are_kept_per_identity() {
    let mut c = SwapContract::new();
    let a = user(1);
    let b = user(2);

    c.swap(&grant_for(a, 100, 12, 100), a, 100, 12, 100).unwrap();
    c.swap(&grant_for(a, 100, 12, 100), a, 100, 12, 100).unwrap();
    c.swap(&grant_for(b, 100, 11, 100), b, 100, 11, 100).unwrap();

    assert_eq!(c.get_count(a), 2);
    assert_eq!(c.get_count(b), 1);
    assert_eq!(c.counts.len(), 2);
    assert_eq!(c.counts[0].0, DataKey::SwapCount(a));
}

#[test]
fn division_truncates_toward_zero() {
    // (-1 * 1) / 2 == 0, not -1: truncating, not floor, division.
    assert_eq!(compute_amount_out(-1, 1, 2), Ok(0));
    assert_eq!(compute_amount_out(-7, 3, 2), Ok(-10));
    assert_eq!(compute_amount_out(7, 3, -2), Ok(-10));
    assert_eq!(compute_amount_out(-7, -3, 2), Ok(10));
    assert_eq!(compute_amount_out(1, 1, 2), Ok(0));
    assert_eq!(compute_amount_out(0, 5, 3), Ok(0));
}

#[test]
fn product_overflow_fails() {
    let mut c = SwapContract::new();
    let u = user(1);

    let r = c.swap(&grant_for(u, i128::MAX, 2, 1), u, i128::MAX, 2, 1);
    assert_eq!(r, Err(SwapError::Overflow));
    assert_eq!(c.get_count(u), 0);
    assert_eq!(c.events.len(), 0);
}

#[test]
fn quotient_overflow_fails() {
    // i128::MIN * 1 is representable, but its quotient by -1 is not.
    let r = compute_amount_out(i128::MIN, 1, -1);
    assert_eq!(r, Err(SwapError::Overflow));
}

#[test]
fn transition_returns_incremented_count() {
    assert_eq!(swap_transition(0, 100, 12, 100), Ok((1, 12)));
    assert_eq!(swap_transition(41, 100, 11, 100), Ok((42, 11)));
    assert_eq!(swap_transition(3, 100, 1, 0), Err(SwapError::DivisionByZero));
    assert_eq!(swap_transition(3, i128::MAX, i128::MAX, 1), Err(SwapError::Overflow));
}
