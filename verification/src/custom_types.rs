//! The contract that keeps a counter together with the size of its last step.

use crate::host::{keeps_handles, ledger, load_record, save_record, serving, symbol};
use crate::ledger::{Ledger, Slot};
use soroban_sdk::Env;
use vstd::prelude::*;

verus! {

/// A counter and the amount that was last added to it.
#[derive(Clone, Debug, Eq, PartialEq, Structural)]
pub struct State {
    pub count: u32,
    pub last_incr: u32,
}

impl Default for State {
    /// The state before any increment: both fields 0.
    fn default() -> (state: State)
        ensures
            state == (State { count: 0, last_incr: 0 }),
    {
        State { count: 0, last_incr: 0 }
    }
}

/// The contract that keeps a `State`.
pub struct IncrementContractCustomTypes;

/// The slot of the state.
pub open spec fn state_slot() -> Slot {
    Slot::Named("STATE"@)
}

/// The state is stored as a record of two fields that bear the names of the
/// fields of `State`; they are two different names.
pub proof fn lemma_state_fields_differ()
    ensures
        "count"@ != "last_incr"@,
{
    reveal_strlit("count");
    reveal_strlit("last_incr");
    assert("count"@.len() != "last_incr"@.len());
}

impl IncrementContractCustomTypes {
    /// Whether the state can be read in `env`: the host is serving and the
    /// state's slot is empty or holds a record with both fields.
    pub open spec fn state_ready(env: Env) -> bool {
        serving(env) && ledger(env).record_or_vacant(state_slot(), "count"@, "last_incr"@)
    }

    /// The state that `ledger` holds: the stored record, and zeros where none
    /// was stored yet.
    pub open spec fn state(ledger: Ledger) -> State {
        match ledger.record_at(state_slot(), "count"@, "last_incr"@) {
            Some((count, last_incr)) => State { count, last_incr },
            None => State { count: 0, last_incr: 0 },
        }
    }

    /// The ledger that an increment of the state by `incr` leaves.
    pub open spec fn after_incr_state(before: Ledger, incr: u32) -> Ledger {
        before.with_record(
            state_slot(),
            "count"@,
            (Self::state(before).count + incr) as u32,
            "last_incr"@,
            incr,
        )
    }

    /// Adds `incr` to the count, records `incr` as the last increment, and
    /// returns the new count.
    pub fn incr_state(env: &mut Env, incr: u32) -> (count: u32)
        requires
            Self::state_ready(*old(env)),
            Self::state(ledger(*old(env))).count + incr <= u32::MAX,
        ensures
            count == Self::state(ledger(*old(env))).count + incr,
            ledger(*final(env)) == Self::after_incr_state(ledger(*old(env)), incr),
            Self::state(ledger(*final(env))) == (State { count, last_incr: incr }),
            Self::state_ready(*final(env)),
            keeps_handles(*old(env), *final(env)),
    {
        let mut state = Self::get_state(env);
        state.count += incr;
        state.last_incr = incr;
        proof {
            reveal_strlit("STATE");
            reveal_strlit("count");
            reveal_strlit("last_incr");
            lemma_state_fields_differ();
        }
        let key = symbol(env, "STATE");
        let count = symbol(env, "count");
        let last_incr = symbol(env, "last_incr");
        save_record(env, &key, &count, state.count, &last_incr, state.last_incr);
        state.count
    }

    /// The state: the stored one, and zeros where none was stored yet.
    pub fn get_state(env: &Env) -> (state: State)
        requires
            Self::state_ready(*env),
        ensures
            state == Self::state(ledger(*env)),
            !ledger(*env).entries.contains_key(state_slot()) ==> state == (State {
                count: 0,
                last_incr: 0,
            }),
    {
        proof {
            reveal_strlit("STATE");
            reveal_strlit("count");
            reveal_strlit("last_incr");
        }
        let key = symbol(env, "STATE");
        let count = symbol(env, "count");
        let last_incr = symbol(env, "last_incr");
        match load_record(env, &key, &count, &last_incr) {
            Some((count, last_incr)) => State { count, last_incr },
            None => State::default(),
        }
    }
}

} // verus!
