//! What holds of the contracts over whole runs of calls.
//!
//! Each contract function states the ledger it leaves as a function of the
//! ledger it found. The lemmas here follow those functions through any number
//! of calls.

use crate::custom_types::{
    lemma_state_fields_differ, state_slot, IncrementContractCustomTypes, State,
};
use crate::increment::{
    counter_slot, increment_notice, user_slot, Error, IncrementContract, MAX,
};
use crate::ledger::{Ledger, Notice, Slot};
use soroban_sdk::Address;
use vstd::prelude::*;

verus! {

/// The ledger after `n` unbounded increments in a row.
pub open spec fn after_increments(start: Ledger, n: nat) -> Ledger
    decreases n,
{
    if n == 0 {
        start
    } else {
        IncrementContract::after_increment(after_increments(start, (n - 1) as nat))
    }
}

/// The events of `n` increments that start above `from`: payloads
/// `from + 1` to `from + n`, in that order.
pub open spec fn increment_notices(from: nat, n: nat) -> Seq<Notice> {
    Seq::new(n, |i: int| increment_notice((from + i + 1) as u32))
}

/// After `n` unbounded increments in a row, with nothing else writing the
/// global counter, the counter stands `n` above where it started, and that is
/// the value the `n`-th call returned: `n` itself on a counter that was never
/// touched. The events are those of before, then one for each call in the
/// order of the calls, each with the value its call returned.
pub proof fn lemma_increments_count_up(start: Ledger, n: nat)
    requires
        start.count(counter_slot()) + n <= u32::MAX,
    ensures
        after_increments(start, n).count(counter_slot()) == start.count(counter_slot()) + n,
        n >= 1 ==> IncrementContract::increment_value(after_increments(start, (n - 1) as nat))
            == start.count(counter_slot()) + n,
        after_increments(start, n).notices == start.notices + increment_notices(
            start.count(counter_slot()) as nat,
            n,
        ),
    decreases n,
{
    let from = start.count(counter_slot()) as nat;
    if n == 0 {
        assert(start.notices =~= start.notices + increment_notices(from, 0));
    } else {
        lemma_increments_count_up(start, (n - 1) as nat);
        assert(after_increments(start, n).notices =~= start.notices + increment_notices(from, n));
    }
}

/// The ledger after `n` bounded increments in a row.
pub open spec fn after_incr_maxes(start: Ledger, n: nat) -> Ledger
    decreases n,
{
    if n == 0 {
        start
    } else {
        IncrementContract::after_incr_max(after_incr_maxes(start, (n - 1) as nat))
    }
}

/// Of bounded increments in a row on a counter that was never touched, the
/// `n`-th returns `n` as long as `n` is at most `MAX`; every later one is
/// refused with `LimitReached` and leaves the ledger as it was, the counter
/// at `MAX`.
pub proof fn lemma_incr_max_stops_at_ceiling(start: Ledger, n: nat)
    requires
        start.count(counter_slot()) == 0,
        n >= 1,
    ensures
        n <= MAX ==> IncrementContract::incr_max_outcome(after_incr_maxes(start, (n - 1) as nat))
            == Ok::<u32, Error>(n as u32),
        n > MAX ==> IncrementContract::incr_max_outcome(after_incr_maxes(start, (n - 1) as nat))
            == Err::<u32, Error>(Error::LimitReached),
        n > MAX ==> after_incr_maxes(start, n) == after_incr_maxes(start, (n - 1) as nat),
        after_incr_maxes(start, n).count(counter_slot()) == if n <= MAX {
            n
        } else {
            MAX as nat
        },
    decreases n,
{
    if n > 1 {
        lemma_incr_max_stops_at_ceiling(start, (n - 1) as nat);
    }
}

/// A bounded increment never takes the counter above `MAX`, never lowers it,
/// and changes nothing where it is refused.
pub proof fn lemma_incr_max_keeps_ceiling(before: Ledger)
    ensures
        before.count(counter_slot()) <= MAX ==> IncrementContract::after_incr_max(before).count(
            counter_slot(),
        ) <= MAX,
        IncrementContract::after_incr_max(before).count(counter_slot()) >= before.count(
            counter_slot(),
        ),
        IncrementContract::incr_max_outcome(before) is Err ==> IncrementContract::after_incr_max(
            before,
        ) == before,
{
}

/// One call of `incr_auth`: who it names, by how much, and whether the host
/// found it authorized.
pub struct AuthCall {
    pub user: Address,
    pub value: u32,
    pub approved: bool,
}

/// The ledger after the calls of `calls`, in order.
pub open spec fn after_incr_auths(start: Ledger, calls: Seq<AuthCall>) -> Ledger
    decreases calls.len(),
{
    if calls.len() == 0 {
        start
    } else {
        IncrementContract::after_incr_auth(
            after_incr_auths(start, calls.drop_last()),
            calls.last().approved,
            calls.last().user,
            calls.last().value,
        )
    }
}

/// The sum of the amounts that `calls` add for `who` with authorization.
pub open spec fn total_for(calls: Seq<AuthCall>, who: Address) -> int
    decreases calls.len(),
{
    if calls.len() == 0 {
        0
    } else if calls.last().approved && calls.last().user == who {
        total_for(calls.drop_last(), who) + calls.last().value
    } else {
        total_for(calls.drop_last(), who)
    }
}

/// A call of `incr_auth` for `user`, authorized or not and whatever the
/// amount, leaves every entry but the counter of `user` as it was, there with
/// the same value or still absent; so the counter of any other identity, the
/// global counter and the state read as before. It publishes nothing, and
/// where it was not authorized it changes nothing at all.
pub proof fn lemma_incr_auth_touches_one_counter(
    before: Ledger,
    approved: bool,
    user: Address,
    value: u32,
    other: Address,
)
    ensures
        forall|slot: Slot|
            slot != user_slot(user) ==> #[trigger] IncrementContract::after_incr_auth(
                before,
                approved,
                user,
                value,
            ).entries.contains_key(slot) == before.entries.contains_key(slot),
        forall|slot: Slot|
            slot != user_slot(user) && before.entries.contains_key(slot)
                ==> #[trigger] IncrementContract::after_incr_auth(
                before,
                approved,
                user,
                value,
            ).entries[slot] == before.entries[slot],
        other != user ==> IncrementContract::after_incr_auth(before, approved, user, value).count(
            user_slot(other),
        ) == before.count(user_slot(other)),
        IncrementContract::after_incr_auth(before, approved, user, value).count(counter_slot())
            == before.count(counter_slot()),
        IncrementContractCustomTypes::state(
            IncrementContract::after_incr_auth(before, approved, user, value),
        ) == IncrementContractCustomTypes::state(before),
        IncrementContract::after_incr_auth(before, approved, user, value).notices == before.notices,
        !approved ==> IncrementContract::after_incr_auth(before, approved, user, value) == before,
{
}

/// After any calls of `incr_auth`, for any identities and in any order, the
/// counter of `who` is what it was plus the amounts that were added for `who`
/// with authorization: calls for others, and calls that were refused, leave
/// it alone.
pub proof fn lemma_incr_auth_totals_are_independent(start: Ledger, calls: Seq<AuthCall>, who: Address)
    requires
        start.count(user_slot(who)) + total_for(calls, who) <= u32::MAX,
    ensures
        after_incr_auths(start, calls).count(user_slot(who)) == start.count(user_slot(who))
            + total_for(calls, who),
    decreases calls.len(),
{
    if calls.len() > 0 {
        lemma_incr_auth_totals_are_independent(start, calls.drop_last(), who);
        lemma_incr_auth_touches_one_counter(
            after_incr_auths(start, calls.drop_last()),
            calls.last().approved,
            calls.last().user,
            calls.last().value,
            who,
        );
    }
}

/// An increment of the state by `incr` leaves the count it found plus `incr`,
/// cut to 32 bits, and `incr` as the last increment.
pub proof fn lemma_incr_state_sets_both(before: Ledger, incr: u32)
    ensures
        IncrementContractCustomTypes::state(
            IncrementContractCustomTypes::after_incr_state(before, incr),
        ) == (State {
            count: (IncrementContractCustomTypes::state(before).count + incr) as u32,
            last_incr: incr,
        }),
{
    lemma_state_fields_differ();
}

/// The ledger after increments of the state by `amounts`, in order.
pub open spec fn after_incr_states(start: Ledger, amounts: Seq<u32>) -> Ledger
    decreases amounts.len(),
{
    if amounts.len() == 0 {
        start
    } else {
        IncrementContractCustomTypes::after_incr_state(
            after_incr_states(start, amounts.drop_last()),
            amounts.last(),
        )
    }
}

/// The sum of `amounts`.
pub open spec fn total(amounts: Seq<u32>) -> int
    decreases amounts.len(),
{
    if amounts.len() == 0 {
        0
    } else {
        total(amounts.drop_last()) + amounts.last()
    }
}

/// After increments of the state by `amounts`, the count is what it was plus
/// the sum of all the amounts, and the last increment is the last amount
/// alone.
pub proof fn lemma_incr_state_sums_and_remembers(start: Ledger, amounts: Seq<u32>)
    requires
        IncrementContractCustomTypes::state(start).count + total(amounts) <= u32::MAX,
    ensures
        IncrementContractCustomTypes::state(after_incr_states(start, amounts)).count
            == IncrementContractCustomTypes::state(start).count + total(amounts),
        amounts.len() > 0 ==> IncrementContractCustomTypes::state(
            after_incr_states(start, amounts),
        ).last_incr == amounts.last(),
    decreases amounts.len(),
{
    if amounts.len() > 0 {
        lemma_incr_state_sums_and_remembers(start, amounts.drop_last());
        lemma_incr_state_sets_both(after_incr_states(start, amounts.drop_last()), amounts.last());
    }
}

/// No operation lowers a counter: as long as the new value fits in a `u32`,
/// each leaves the counter it writes at least as high as it found it, and an
/// increment by 1 leaves it higher.
pub proof fn lemma_counts_never_fall(before: Ledger, approved: bool, user: Address, value: u32)
    ensures
        before.count(counter_slot()) < u32::MAX ==> IncrementContract::after_increment(
            before,
        ).count(counter_slot()) > before.count(counter_slot()),
        before.count(user_slot(user)) + value <= u32::MAX ==> IncrementContract::after_incr_auth(
            before,
            approved,
            user,
            value,
        ).count(user_slot(user)) >= before.count(user_slot(user)),
        IncrementContractCustomTypes::state(before).count + value <= u32::MAX
            ==> IncrementContractCustomTypes::state(
            IncrementContractCustomTypes::after_incr_state(before, value),
        ).count >= IncrementContractCustomTypes::state(before).count,
{
    lemma_incr_state_sets_both(before, value);
}

/// The global counter, the counter of any identity and the state lie in three
/// different slots, so that a write to one of them leaves the other two as
/// they were.
pub proof fn lemma_slots_are_distinct(user: Address)
    ensures
        counter_slot() != state_slot(),
        counter_slot() != user_slot(user),
        state_slot() != user_slot(user),
{
    reveal_strlit("COUNTER");
    reveal_strlit("STATE");
    assert("COUNTER"@.len() != "STATE"@.len());
}

/// A slot that nothing was stored under reads as 0, and as the state of two
/// zeros.
pub proof fn lemma_untouched_reads_default(ledger: Ledger, user: Address)
    ensures
        !ledger.entries.contains_key(counter_slot()) ==> ledger.count(counter_slot()) == 0,
        !ledger.entries.contains_key(user_slot(user)) ==> ledger.count(user_slot(user)) == 0,
        !ledger.entries.contains_key(state_slot()) ==> IncrementContractCustomTypes::state(ledger)
            == (State { count: 0, last_incr: 0 }),
{
}

} // verus!
