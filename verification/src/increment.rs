//! The counter contract: a global counter with a bounded and an unbounded
//! increment, and one counter for each identity that authorizes its own.

use crate::host::{
    address_of, authorizes, grants, keeps_handles, ledger, load_number, load_tagged_number,
    publish, save_number, save_tagged_number, serving, symbol,
};
use crate::ledger::{Ledger, Notice, Slot};
use soroban_sdk::{Address, Env};
use vstd::prelude::*;

verus! {

/// The largest value that `incr_max` lets the global counter take.
pub const MAX: u32 = 5;

/// The largest `count` for which `sum` can return the sum in a `u32`.
pub const SUMMABLE: u32 = 92_682;

/// Why a bounded increment was refused.
#[derive(Copy, Clone, Debug, Eq, PartialEq, PartialOrd, Ord, Structural)]
pub enum Error {
    /// The increment would take the counter above `MAX`.
    LimitReached,
}

/// An increment that the identity it names did not authorize.
#[derive(Clone, Debug, Eq, PartialEq)]
pub struct AuthorizationFailure {
    /// The identity whose authorization was missing.
    pub identity: Address,
    /// The name of the operation that was refused.
    pub operation: &'static str,
}

/// The storage keys of the counter contract, other than the global counter's.
#[derive(Clone)]
pub enum DataKey {
    /// The counter of one identity.
    Counter(Address),
}

impl DataKey {
    /// The identity whose entry this key stands for.
    pub open spec fn user(self) -> Address {
        match self {
            DataKey::Counter(user) => user,
        }
    }

    /// The slot this key stands for.
    pub open spec fn slot(self) -> Slot {
        user_slot(self.user())
    }
}

/// The counter contract.
pub struct IncrementContract;

/// The sum of the natural numbers below `n`.
pub open spec fn sum_below(n: nat) -> nat
    decreases n,
{
    if n == 0 {
        0
    } else {
        (n - 1) as nat + sum_below((n - 1) as nat)
    }
}

/// `sum_below` never shrinks as its argument grows.
pub proof fn lemma_sum_below_grows(m: nat, n: nat)
    requires
        m <= n,
    ensures
        sum_below(m) <= sum_below(n),
    decreases n,
{
    if m < n {
        lemma_sum_below_grows(m, (n - 1) as nat);
    }
}

/// Twice the sum of the numbers below `n` is `n * (n - 1)`.
pub proof fn lemma_sum_below_closed_form(n: nat)
    ensures
        2 * sum_below(n) == n * (n - 1),
    decreases n,
{
    if n > 0 {
        let m = (n - 1) as nat;
        lemma_sum_below_closed_form(m);
        assert(2 * m + m * (m - 1) == n * (n - 1)) by (nonlinear_arith)
            requires
                m == n - 1,
        ;
    } else {
        assert(n * (n - 1) == 0) by (nonlinear_arith)
            requires
                n == 0,
        ;
    }
}

/// The numbers below `n` sum to a `u32` exactly when `n` is at most `SUMMABLE`.
pub proof fn lemma_sum_below_fits(n: nat)
    ensures
        sum_below(n) <= u32::MAX <==> n <= SUMMABLE,
{
    if n <= SUMMABLE {
        lemma_sum_below_grows(n, 92_682);
        lemma_sum_below_closed_form(92_682);
    } else {
        lemma_sum_below_grows(92_683, n);
        lemma_sum_below_closed_form(92_683);
    }
}

/// The slot of the global counter.
pub open spec fn counter_slot() -> Slot {
    Slot::Named("COUNTER"@)
}

/// The slot of the counter of `user`.
pub open spec fn user_slot(user: Address) -> Slot {
    Slot::Tagged("Counter"@, user)
}

/// The event that an increment to `count` publishes.
pub open spec fn increment_notice(count: u32) -> Notice {
    Notice { channel: "COUNTER"@, tag: "increment"@, payload: count }
}

impl IncrementContract {
    /// Whether the global counter of `env` can be read: the host is serving
    /// and the counter's slot is empty or holds a number.
    pub open spec fn counter_ready(env: Env) -> bool {
        serving(env) && ledger(env).number_or_vacant(counter_slot())
    }

    /// The outcome of a bounded increment on `before`.
    pub open spec fn incr_max_outcome(before: Ledger) -> Result<u32, Error> {
        if before.count(counter_slot()) + 1 <= MAX {
            Ok((before.count(counter_slot()) + 1) as u32)
        } else {
            Err(Error::LimitReached)
        }
    }

    /// The ledger that a bounded increment on `before` leaves.
    pub open spec fn after_incr_max(before: Ledger) -> Ledger {
        match Self::incr_max_outcome(before) {
            Ok(count) => before.with_number(counter_slot(), count),
            Err(_) => before,
        }
    }

    /// Adds 1 to the global counter unless that would take it above `MAX`.
    pub fn incr_max(env: &mut Env) -> (outcome: Result<u32, Error>)
        requires
            Self::counter_ready(*old(env)),
        ensures
            outcome == Self::incr_max_outcome(ledger(*old(env))),
            ledger(*final(env)) == Self::after_incr_max(ledger(*old(env))),
            Self::counter_ready(*final(env)),
            keeps_handles(*old(env), *final(env)),
    {
        let count = Self::get_count(env);
        if count < MAX {
            proof {
                reveal_strlit("COUNTER");
            }
            let key = symbol(env, "COUNTER");
            save_number(env, &key, count + 1);
            Ok(count + 1)
        } else {
            Err(Error::LimitReached)
        }
    }

    /// The value that an unbounded increment on `before` returns.
    pub open spec fn increment_value(before: Ledger) -> u32 {
        (before.count(counter_slot()) + 1) as u32
    }

    /// The ledger that an unbounded increment on `before` leaves: the new
    /// value stored, then published.
    pub open spec fn after_increment(before: Ledger) -> Ledger {
        let count = Self::increment_value(before);
        before.with_number(counter_slot(), count).with_notice(increment_notice(count))
    }

    /// Adds 1 to the global counter and publishes the new value.
    pub fn increment(env: &mut Env) -> (count: u32)
        requires
            Self::counter_ready(*old(env)),
            ledger(*old(env)).count(counter_slot()) < u32::MAX,
        ensures
            count == ledger(*old(env)).count(counter_slot()) + 1,
            count == Self::increment_value(ledger(*old(env))),
            ledger(*final(env)) == Self::after_increment(ledger(*old(env))),
            Self::counter_ready(*final(env)),
            keeps_handles(*old(env), *final(env)),
    {
        let count = Self::get_count(env) + 1;
        proof {
            reveal_strlit("COUNTER");
            reveal_strlit("increment");
        }
        let key = symbol(env, "COUNTER");
        let tag = symbol(env, "increment");
        save_number(env, &key, count);
        publish(env, &key, &tag, count);
        count
    }

    /// Whether the counter of `user` can be read in `env`: the host is
    /// serving, `user` is an address of that host, and the counter's slot is
    /// empty or holds a number.
    pub open spec fn user_ready(env: Env, user: Address) -> bool {
        serving(env) && address_of(env, user) && ledger(env).number_or_vacant(user_slot(user))
    }

    /// The outcome of an increment of the counter of `user` by `value`,
    /// `approved` telling whether `user` authorized it.
    pub open spec fn incr_auth_outcome(before: Ledger, approved: bool, user: Address, value: u32) -> Result<
        u32,
        AuthorizationFailure,
    > {
        if approved {
            Ok((before.count(user_slot(user)) + value) as u32)
        } else {
            Err(AuthorizationFailure { identity: user, operation: "incr_auth" })
        }
    }

    /// The ledger that such an increment leaves.
    pub open spec fn after_incr_auth(before: Ledger, approved: bool, user: Address, value: u32) -> Ledger {
        if approved {
            before.with_number(user_slot(user), (before.count(user_slot(user)) + value) as u32)
        } else {
            before
        }
    }

    /// Asks the host whether `user` authorized this call, before reading
    /// anything. Where the host grants it, adds `value` to the counter of
    /// `user`; where not, refuses and leaves the ledger as it was.
    pub fn incr_auth(env: &mut Env, user: Address, value: u32) -> (outcome: Result<
        u32,
        AuthorizationFailure,
    >)
        requires
            address_of(*old(env), user),
            grants(*old(env), user) ==> Self::user_ready(*old(env), user) && ledger(
                *old(env),
            ).count(user_slot(user)) + value <= u32::MAX,
        ensures
            outcome is Ok <==> grants(*old(env), user),
            outcome == Self::incr_auth_outcome(
                ledger(*old(env)),
                grants(*old(env), user),
                user,
                value,
            ),
            ledger(*final(env)) == Self::after_incr_auth(
                ledger(*old(env)),
                grants(*old(env), user),
                user,
                value,
            ),
            outcome is Err ==> ledger(*final(env)) == ledger(*old(env)),
            outcome is Ok ==> Self::user_ready(*final(env), user),
            serving(*final(env)) == serving(*old(env)),
            keeps_handles(*old(env), *final(env)),
    {
        let approved = match authorizes(env, &user) {
            Ok(_) => true,
            Err(_) => false,
        };
        Self::incr_auth_decided(env, approved, user, value)
    }

    /// What `incr_auth` does once the host has said whether `user` authorized
    /// the call. Where it did not, nothing is asked of the host.
    pub fn incr_auth_decided(env: &mut Env, approved: bool, user: Address, value: u32) -> (outcome:
        Result<u32, AuthorizationFailure>)
        requires
            approved ==> Self::user_ready(*old(env), user) && ledger(*old(env)).count(
                user_slot(user),
            ) + value <= u32::MAX,
        ensures
            outcome == Self::incr_auth_outcome(ledger(*old(env)), approved, user, value),
            ledger(*final(env)) == Self::after_incr_auth(ledger(*old(env)), approved, user, value),
            approved ==> Self::user_ready(*final(env), user),
            !approved ==> *final(env) == *old(env),
            serving(*final(env)) == serving(*old(env)),
            keeps_handles(*old(env), *final(env)),
    {
        if !approved {
            return Err(AuthorizationFailure { identity: user, operation: "incr_auth" });
        }
        let key = DataKey::Counter(user);
        let count = Self::get_usr_c(env, &key) + value;
        proof {
            reveal_strlit("Counter");
        }
        let tag = symbol(env, "Counter");
        match &key {
            DataKey::Counter(user) => save_tagged_number(env, &tag, user, count),
        }
        Ok(count)
    }

    /// The counter under `key`: the stored number, and 0 where none was stored yet.
    pub fn get_usr_c(env: &Env, key: &DataKey) -> (count: u32)
        requires
            Self::user_ready(*env, key.user()),
        ensures
            count == ledger(*env).count(key.slot()),
            !ledger(*env).entries.contains_key(key.slot()) ==> count == 0,
    {
        proof {
            reveal_strlit("Counter");
        }
        let tag = symbol(env, "Counter");
        let found = match key {
            DataKey::Counter(user) => load_tagged_number(env, &tag, user),
        };
        match found {
            Some(count) => count,
            None => 0,
        }
    }

    /// Collects the numbers below `count` in a vector and returns their sum.
    /// The sum fits in a `u32` exactly for the counts that are admitted.
    pub fn sum(_env: &Env, count: u32) -> (total: u32)
        requires
            count <= SUMMABLE,
        ensures
            total == sum_below(count as nat),
    {
        proof {
            lemma_sum_below_fits(count as nat);
        }
        let mut numbers: Vec<u32> = Vec::new();
        let mut next: u32 = 0;
        while next < count
            invariant
                next <= count,
                numbers@.len() == next,
                forall|i: int| 0 <= i < next ==> numbers@[i] == i,
            decreases count - next,
        {
            numbers.push(next);
            next += 1;
        }
        let mut total: u32 = 0;
        let mut at: usize = 0;
        while at < numbers.len()
            invariant
                at <= numbers@.len(),
                numbers@.len() == count,
                forall|i: int| 0 <= i < count ==> numbers@[i] == i,
                total == sum_below(at as nat),
                sum_below(count as nat) <= u32::MAX,
            decreases numbers@.len() - at,
        {
            proof {
                lemma_sum_below_grows((at + 1) as nat, count as nat);
            }
            total += numbers[at];
            at += 1;
        }
        total
    }

    /// The global counter: the stored number, and 0 where none was stored yet.
    pub fn get_count(env: &Env) -> (count: u32)
        requires
            Self::counter_ready(*env),
        ensures
            count == ledger(*env).count(counter_slot()),
            !ledger(*env).entries.contains_key(counter_slot()) ==> count == 0,
    {
        proof {
            reveal_strlit("COUNTER");
        }
        let key = symbol(env, "COUNTER");
        match load_number(env, &key) {
            Some(count) => count,
            None => 0,
        }
    }
}

} // verus!
