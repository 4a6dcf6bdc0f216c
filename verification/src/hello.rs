//! The greeting contract.

use crate::host::{serving, symbol, symbol_of, symbol_pair, symbol_text, symbols};
use soroban_sdk::{Env, Symbol};
use vstd::prelude::*;

verus! {

/// The greeting contract.
pub struct Contract;

impl Contract {
    /// The greeting for `to`: the word `Hello`, then `to`. It reads and
    /// changes nothing of the ledger. The host of `env` makes the list, so it
    /// has to be serving, and `to` has to be a symbol that it reads.
    pub fn hello(env: &Env, to: Symbol) -> (words: soroban_sdk::Vec<Symbol>)
        requires
            serving(*env),
            symbol_of(*env, to),
        ensures
            symbols(words).len() == 2,
            symbol_text(symbols(words)[0]) == "Hello"@,
            symbols(words)[1] == to,
    {
        proof {
            reveal_strlit("Hello");
        }
        let greeting = symbol(env, "Hello");
        symbol_pair(env, greeting, to)
    }
}

} // verus!
