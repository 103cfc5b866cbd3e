//! The contract state: a per-identity swap counter keyed by a tagged storage
//! key, an append-only event log, and the two invocations `swap` and
//! `get_count`.
//!
//! The store and the log model the host's persistent storage and event stream:
//! an invocation that fails leaves both exactly as they were.

use vstd::prelude::*;
use crate::engine::{arith_ok, converted_amount, swap_output, swap_transition, SwapError};

verus! {

/// An account identity: an opaque principal reference, carried here as the
/// plain number the host resolves it to. It is both the authorization subject
/// and the storage key component; the core inspects no structure in it.
#[derive(Clone, Copy, Debug, PartialEq, Eq, Hash, Structural)]
pub struct Identity {
    pub id: u64,
}

/// The tagged key of the persistent store. The counter of `user` sits under
/// `SwapCount(user)`; no other keys exist.
#[derive(Clone, Copy, Debug, PartialEq, Eq, Hash, Structural)]
pub enum DataKey {
    SwapCount(Identity),
}

/// The first value stored under `key` in `s` at or after position `i`, or 0
/// where no entry carries `key`: an absent entry reads as zero.
pub open spec fn lookup_from(s: Seq<(DataKey, u32)>, key: DataKey, i: int) -> u32
    decreases s.len() - i,
{
    if i < 0 || i >= s.len() {
        0u32
    } else if s[i].0 == key {
        s[i].1
    } else {
        lookup_from(s, key, i + 1)
    }
}

/// Proof that an identity consented to one exact call: the subject and every
/// argument of the invocation it authorizes. The embedding host verifies the
/// caller's credential and hands the core a grant for precisely the call that
/// was signed; a grant for another identity or for altered arguments is refused.
#[derive(Clone, Copy, Debug, PartialEq, Eq, Structural)]
pub struct AuthGrant {
    pub user: Identity,
    pub amount_in: i128,
    pub rate_num: i128,
    pub rate_den: i128,
}

impl AuthGrant {
    /// The grant consents to exactly this subject and these arguments.
    pub open spec fn authorizes(
        self,
        user: Identity,
        amount_in: i128,
        rate_num: i128,
        rate_den: i128,
    ) -> bool {
        &&& self.user == user
        &&& self.amount_in == amount_in
        &&& self.rate_num == rate_num
        &&& self.rate_den == rate_den
    }

    /// A grant for one exact call, as the host issues it after verifying the
    /// caller's credential.
    pub fn new(user: Identity, amount_in: i128, rate_num: i128, rate_den: i128) -> (g: AuthGrant)
        ensures
            g == (AuthGrant { user, amount_in, rate_num, rate_den }),
    {
        AuthGrant { user, amount_in, rate_num, rate_den }
    }
}

/// The swap contract: the counter store and the event log it appends to.
pub struct SwapContract {
    /// The persistent store: one counter entry per identity that has swapped.
    pub counts: Vec<(DataKey, u32)>,
    /// The event log: one record per successful swap, in order of emission.
    pub events: Vec<SwapEvent>,
}

/// The topic tag of an emitted event; this core emits one event class.
#[derive(Clone, Copy, Debug, PartialEq, Eq, Structural)]
pub enum EventTopic {
    Swap,
}

/// One emitted record: published once per successful swap, never mutated.
#[derive(Clone, Copy, Debug, PartialEq, Eq, Structural)]
pub struct SwapEvent {
    pub topic: EventTopic,
    pub user: Identity,
    pub amount_out: i128,
}

impl SwapContract {
    /// The store holds at most one entry per key.
    pub open spec fn wf(self) -> bool {
        forall|i: int, j: int|
            0 <= i < j < self.counts@.len() ==> self.counts@[i].0 != self.counts@[j].0
    }

    /// The counter of `user`: the stored value, or 0 where none is stored.
    pub open spec fn count_of(self, user: Identity) -> u32 {
        lookup_from(self.counts@, DataKey::SwapCount(user), 0)
    }

    /// A fresh contract: no counters stored, no events emitted.
    pub fn new() -> (c: SwapContract)
        ensures
            c.wf(),
            c.counts@.len() == 0,
            c.events@.len() == 0,
            forall|user: Identity| c.count_of(user) == 0,
    {
        let c = SwapContract { counts: Vec::new(), events: Vec::new() };
        proof {
            assert forall|user: Identity| c.count_of(user) == 0 by {
                lemma_lookup_not_found(c.counts@, DataKey::SwapCount(user), 0);
            }
        }
        c
    }

    /// Reads the counter of `user`: a pure query, no authorization, no
    /// mutation, no event; 0 for an identity that has never swapped.
    pub fn get_count(&self, user: Identity) -> (r: u32)
        ensures
            r == self.count_of(user),
    {
        let key = DataKey::SwapCount(user);
        let n = self.counts.len();
        let mut i: usize = 0;
        while i < n
            invariant
                key == DataKey::SwapCount(user),
                n == self.counts@.len(),
                i <= n,
                forall|j: int| 0 <= j < i ==> self.counts@[j].0 != key,
            decreases n - i,
        {
            if self.counts[i].0 == key {
                let r = self.counts[i].1;
                proof {
                    lemma_lookup_found_at(self.counts@, key, 0, i as int);
                }
                return r;
            }
            i += 1;
        }
        proof {
            lemma_lookup_not_found(self.counts@, key, 0);
        }
        0
    }

    /// Writes `value` as the counter of `user`, updating the one entry that
    /// carries its key or storing a fresh entry. Touches no other counter and
    /// no event.
    fn set_count(&mut self, user: Identity, value: u32)
        requires
            old(self).wf(),
        ensures
            final(self).wf(),
            final(self).count_of(user) == value,
            forall|other: Identity|
                other != user ==> final(self).count_of(other) == old(self).count_of(other),
            final(self).events@ == old(self).events@,
    {
        let key = DataKey::SwapCount(user);
        let n = self.counts.len();
        let mut i: usize = 0;
        while i < n
            invariant
                key == DataKey::SwapCount(user),
                *self == *old(self),
                n == self.counts@.len(),
                i <= n,
                forall|j: int| 0 <= j < i ==> self.counts@[j].0 != key,
                old(self).wf(),
            decreases n - i,
        {
            if self.counts[i].0 == key {
                let ghost s0 = self.counts@;
                self.counts[i] = (key, value);
                proof {
                    let s1 = self.counts@;
                    assert(s1 == s0.update(i as int, (key, value)));
                    lemma_lookup_found_at(s1, key, 0, i as int);
                    assert forall|other: Identity|
                        other != user implies lookup_from(s1, DataKey::SwapCount(other), 0)
                        == lookup_from(s0, DataKey::SwapCount(other), 0) by {
                        lemma_lookup_update_other(
                            s0,
                            i as int,
                            (key, value),
                            DataKey::SwapCount(other),
                            0,
                        );
                    }
                    assert forall|a: int, b: int|
                        0 <= a < b < s1.len() implies s1[a].0 != s1[b].0 by {
                        assert(s1[a].0 == s0[a].0);
                        assert(s1[b].0 == s0[b].0);
                    }
                }
                return ;
            }
            i += 1;
        }
        let ghost s0 = self.counts@;
        self.counts.push((key, value));
        proof {
            let s1 = self.counts@;
            lemma_lookup_found_at(s1, key, 0, s0.len() as int);
            assert forall|other: Identity|
                other != user implies lookup_from(s1, DataKey::SwapCount(other), 0) == lookup_from(
                s0,
                DataKey::SwapCount(other),
                0,
            ) by {
                lemma_lookup_push_other(s0, (key, value), DataKey::SwapCount(other), 0);
            }
            assert forall|a: int, b: int| 0 <= a < b < s1.len() implies s1[a].0 != s1[b].0 by {
                assert(s1[a].0 == if a < s0.len() {
                    s0[a].0
                } else {
                    key
                });
            }
        }
    }

    /// One swap invocation: the authorization gate, then the engine (read the
    /// counter, convert the amount, write the counter back incremented), then
    /// one emitted event, then the output amount.
    ///
    /// Succeeds exactly when the grant consents to this call and the
    /// arithmetic stays in the `i128` domain; any failure leaves the store and
    /// the event log exactly as they were. The host traps when the counter
    /// itself would overflow, so that state is excluded here; an embedding
    /// must refuse the call as the host does.
    pub fn swap(
        &mut self,
        grant: &AuthGrant,
        user: Identity,
        amount_in: i128,
        rate_num: i128,
        rate_den: i128,
    ) -> (r: Result<i128, SwapError>)
        requires
            old(self).wf(),
            old(self).count_of(user) < u32::MAX,
        ensures
            final(self).wf(),
            r is Ok <==> grant.authorizes(user, amount_in, rate_num, rate_den) && arith_ok(
                amount_in,
                rate_num,
                rate_den,
            ),
            !grant.authorizes(user, amount_in, rate_num, rate_den) ==> r == Err::<
                i128,
                SwapError,
            >(SwapError::Unauthorized),
            grant.authorizes(user, amount_in, rate_num, rate_den) ==> r == swap_output(
                amount_in,
                rate_num,
                rate_den,
            ),
            r is Ok ==> r->Ok_0 == converted_amount(amount_in, rate_num, rate_den),
            r is Ok ==> final(self).count_of(user) == old(self).count_of(user) + 1,
            r is Ok ==> forall|other: Identity|
                other != user ==> final(self).count_of(other) == old(self).count_of(other),
            r is Ok ==> final(self).events@ == old(self).events@.push(
                (SwapEvent { topic: EventTopic::Swap, user, amount_out: r->Ok_0 }),
            ),
            r is Err ==> *final(self) == *old(self),
    {
        if !(grant.user == user && grant.amount_in == amount_in && grant.rate_num == rate_num
            && grant.rate_den == rate_den) {
            return Err(SwapError::Unauthorized);
        }
        let count = self.get_count(user);
        match swap_transition(count, amount_in, rate_num, rate_den) {
            Ok((new_count, amount_out)) => {
                self.set_count(user, new_count);
                self.events.push(SwapEvent { topic: EventTopic::Swap, user, amount_out });
                Ok(amount_out)
            },
            Err(e) => Err(e),
        }
    }
}

/// Overwriting an entry that does not carry `key` with another that does not
/// carry it leaves the lookup of `key` unchanged.
pub proof fn lemma_lookup_update_other(
    s: Seq<(DataKey, u32)>,
    i: int,
    p: (DataKey, u32),
    key: DataKey,
    k: int,
)
    requires
        0 <= i < s.len(),
        s[i].0 != key,
        p.0 != key,
        0 <= k,
    ensures
        lookup_from(s.update(i, p), key, k) == lookup_from(s, key, k),
    decreases s.len() - k,
{
    if k < s.len() {
        lemma_lookup_update_other(s, i, p, key, k + 1);
    }
}

/// Appending an entry that does not carry `key` leaves the lookup of `key`
/// unchanged.
pub proof fn lemma_lookup_push_other(
    s: Seq<(DataKey, u32)>,
    p: (DataKey, u32),
    key: DataKey,
    k: int,
)
    requires
        p.0 != key,
        0 <= k,
    ensures
        lookup_from(s.push(p), key, k) == lookup_from(s, key, k),
    decreases s.len() + 1 - k,
{
    if k <= s.len() {
        lemma_lookup_push_other(s, p, key, k + 1);
    }
}

/// Looking past positions that do not carry `key` reaches no entry: the
/// lookup reads 0.
pub proof fn lemma_lookup_not_found(s: Seq<(DataKey, u32)>, key: DataKey, k: int)
    requires
        0 <= k,
        forall|j: int| k <= j < s.len() ==> s[j].0 != key,
    ensures
        lookup_from(s, key, k) == 0,
    decreases s.len() - k,
{
    if k < s.len() {
        lemma_lookup_not_found(s, key, k + 1);
    }
}

/// Where position `i` is the first at or after `k` to carry `key`, the lookup
/// from `k` reads that entry's value.
pub proof fn lemma_lookup_found_at(s: Seq<(DataKey, u32)>, key: DataKey, k: int, i: int)
    requires
        0 <= k <= i < s.len(),
        s[i].0 == key,
        forall|j: int| k <= j < i ==> s[j].0 != key,
    ensures
        lookup_from(s, key, k) == s[i].1,
    decreases i - k,
{
    if k < i {
        lemma_lookup_found_at(s, key, k + 1, i);
    }
}

} // verus!
