//! The calls into the Soroban SDK and host.
//!
//! Nothing in this file is proved. Each function below makes one call and
//! states what the verified code assumes of it; the names without a body say
//! which parts of the host's state those statements speak of.

use crate::ledger::{Ledger, Notice, Slot, Stored};
use soroban_env_host::HostError;
use soroban_sdk::{Address, Env, Symbol};
use vstd::prelude::*;

verus! {

#[verifier::external_type_specification]
#[verifier::external_body]
pub struct ExEnv(soroban_sdk::Env);

#[verifier::external_type_specification]
#[verifier::external_body]
pub struct ExAddress(soroban_sdk::Address);

#[verifier::external_type_specification]
#[verifier::external_body]
pub struct ExSymbol(soroban_sdk::Symbol);

#[verifier::external_type_specification]
#[verifier::external_body]
#[verifier::reject_recursive_types(T)]
pub struct ExHostVec<T>(soroban_sdk::Vec<T>);

#[verifier::external_type_specification]
#[verifier::external_body]
pub struct ExHostError(soroban_env_host::HostError);

/// The persistent storage entries of the contract that is executing in `env`,
/// as far as their keys are a symbol or a pair of a symbol and an address.
pub uninterp spec fn stored(env: Env) -> Map<Slot, Stored>;

/// The events that the contract executing in `env` has published with two
/// symbols as topics and a `u32` as data, oldest first.
pub uninterp spec fn emitted(env: Env) -> Seq<Notice>;

/// Whether the host behind `env` serves the contract that is executing in it:
/// there is one, and until it returns the host carries out what it asks of
/// storage and events and makes the values it asks for. No call reports this.
/// It is the standing assumption under which the SDK's calls return at all:
/// where the host refuses one, the SDK aborts the invocation. So the
/// functions below that ask the host for anything require it, and those that
/// change the ledger hand it on.
pub uninterp spec fn serving(env: Env) -> bool;

/// Whether the host behind `env` reads the value in `symbol` as that symbol: it
/// is written out in the value itself, or it is a handle that this host gave.
pub uninterp spec fn symbol_of(env: Env, symbol: Symbol) -> bool;

/// Whether `address` holds a handle that the host behind `env` gave, so that
/// this host reads it as the identity that `address` names.
pub uninterp spec fn address_of(env: Env, address: Address) -> bool;

/// Whether the host behind `env` holds an authorization of `address` for the
/// invocation that is executing which its `require_auth` accepts when asked
/// next.
pub uninterp spec fn grants(env: Env, address: Address) -> bool;

/// The text of a symbol.
pub uninterp spec fn symbol_text(symbol: Symbol) -> Seq<char>;

/// The items of a host vector of symbols, in order.
pub uninterp spec fn symbols(list: soroban_sdk::Vec<Symbol>) -> Seq<Symbol>;

/// What the contract executing in `env` has stored and published.
pub open spec fn ledger(env: Env) -> Ledger {
    Ledger { entries: stored(env), notices: emitted(env) }
}

/// Whether the host behind `after` still reads every symbol and address that
/// the host behind `before` read: a host keeps the handles it gave.
pub open spec fn keeps_handles(before: Env, after: Env) -> bool {
    &&& forall|symbol: Symbol| #[trigger] symbol_of(before, symbol) ==> symbol_of(after, symbol)
    &&& forall|address: Address|
        #[trigger] address_of(before, address) ==> address_of(after, address)
}

/// The characters a symbol may hold.
pub open spec fn is_symbol_char(c: char) -> bool {
    ('a' <= c && c <= 'z') || ('A' <= c && c <= 'Z') || ('0' <= c && c <= '9') || c == '_'
}

/// The texts that can be made into a symbol: at most 32 characters out of `a-zA-Z0-9_`.
pub open spec fn is_symbol(text: Seq<char>) -> bool {
    text.len() <= 32 && forall|i: int| 0 <= i < text.len() ==> is_symbol_char(#[trigger] text[i])
}

/// `Address::clone`: the copy names the identity that the address cloned
/// names, by the same handle.
pub assume_specification[ <soroban_sdk::Address as Clone>::clone ](address: &Address) -> (copy: Address)
    ensures
        copy == *address,
;

/// `Symbol::new`: the symbol with the given text, which the host behind `env`
/// reads. The SDK panics on a text that is longer than 32 characters or holds
/// a character outside `a-zA-Z0-9_`; for a text of more than nine characters
/// it asks the host for a handle.
#[verifier::external_body]
pub(crate) fn symbol(env: &Env, text: &str) -> (made: Symbol)
    requires
        serving(*env),
        is_symbol(text@),
    ensures
        symbol_text(made) == text@,
        symbol_of(*env, made),
{
    Symbol::new(env, text)
}

/// `Vec::from_array` on two symbols: the host vector that holds them in the
/// order given. The SDK asks the host for the vector, and the host looks up
/// the handles of the two symbols in its own table.
#[verifier::external_body]
pub(crate) fn symbol_pair(env: &Env, first: Symbol, second: Symbol) -> (list: soroban_sdk::Vec<Symbol>)
    requires
        serving(*env),
        symbol_of(*env, first),
        symbol_of(*env, second),
    ensures
        symbols(list) == seq![first, second],
{
    soroban_sdk::Vec::from_array(env, [first, second])
}

/// `Persistent::get` with a symbol as key, read as a `u32`: the stored number,
/// or `None` where the key has no entry. The SDK panics where the entry does
/// not hold a `u32`.
#[verifier::external_body]
pub(crate) fn load_number(env: &Env, key: &Symbol) -> (found: Option<u32>)
    requires
        serving(*env),
        symbol_of(*env, *key),
        ledger(*env).number_or_vacant(Slot::Named(symbol_text(*key))),
    ensures
        found == ledger(*env).number_at(Slot::Named(symbol_text(*key))),
{
    env.storage().persistent().get::<Symbol, u32>(key)
}

/// `Persistent::set` with a symbol as key and a `u32` as value: the entry is
/// created or overwritten, and nothing else changes.
#[verifier::external_body]
pub(crate) fn save_number(env: &mut Env, key: &Symbol, value: u32)
    requires
        serving(*old(env)),
        symbol_of(*old(env), *key),
    ensures
        stored(*final(env)) == stored(*old(env)).insert(
            Slot::Named(symbol_text(*key)),
            Stored::Number(value),
        ),
        emitted(*final(env)) == emitted(*old(env)),
        serving(*final(env)),
        keeps_handles(*old(env), *final(env)),
{
    env.storage().persistent().set(key, &value);
}

/// `Persistent::get` with the pair of a symbol and an address as key, read as
/// a `u32`: the stored number, or `None` where the key has no entry. The SDK
/// panics where the entry does not hold a `u32`.
#[verifier::external_body]
pub(crate) fn load_tagged_number(env: &Env, tag: &Symbol, user: &Address) -> (found: Option<u32>)
    requires
        serving(*env),
        symbol_of(*env, *tag),
        address_of(*env, *user),
        ledger(*env).number_or_vacant(Slot::Tagged(symbol_text(*tag), *user)),
    ensures
        found == ledger(*env).number_at(Slot::Tagged(symbol_text(*tag), *user)),
{
    env.storage().persistent().get::<(Symbol, Address), u32>(&(tag.clone(), user.clone()))
}

/// `Persistent::set` with the pair of a symbol and an address as key and a
/// `u32` as value: the entry is created or overwritten, and nothing else changes.
#[verifier::external_body]
pub(crate) fn save_tagged_number(env: &mut Env, tag: &Symbol, user: &Address, value: u32)
    requires
        serving(*old(env)),
        symbol_of(*old(env), *tag),
        address_of(*old(env), *user),
    ensures
        stored(*final(env)) == stored(*old(env)).insert(
            Slot::Tagged(symbol_text(*tag), *user),
            Stored::Number(value),
        ),
        emitted(*final(env)) == emitted(*old(env)),
        serving(*final(env)),
        address_of(*final(env), *user),
        keeps_handles(*old(env), *final(env)),
{
    env.storage().persistent().set(&(tag.clone(), user.clone()), &value);
}

/// `Persistent::get` with a symbol as key, read as a map from symbols to
/// `u32`, and `Map::get_unchecked` for each of two fields: their values, or
/// `None` where the key has no entry. The SDK panics where the entry is not
/// such a map or lacks one of the two fields.
#[verifier::external_body]
pub(crate) fn load_record(env: &Env, key: &Symbol, first: &Symbol, second: &Symbol) -> (found: Option<
    (u32, u32),
>)
    requires
        serving(*env),
        symbol_of(*env, *key),
        symbol_of(*env, *first),
        symbol_of(*env, *second),
        ledger(*env).record_or_vacant(
            Slot::Named(symbol_text(*key)),
            symbol_text(*first),
            symbol_text(*second),
        ),
    ensures
        found == ledger(*env).record_at(
            Slot::Named(symbol_text(*key)),
            symbol_text(*first),
            symbol_text(*second),
        ),
{
    env.storage().persistent().get::<Symbol, soroban_sdk::Map<Symbol, u32>>(key).map(
        |fields| (fields.get_unchecked(first.clone()), fields.get_unchecked(second.clone())),
    )
}

/// `Persistent::set` with a symbol as key and, as value, the map that
/// `Map::from_array` makes of two fields: the entry is created or overwritten
/// as one value, and nothing else changes.
#[verifier::external_body]
pub(crate) fn save_record(
    env: &mut Env,
    key: &Symbol,
    first: &Symbol,
    a: u32,
    second: &Symbol,
    b: u32,
)
    requires
        serving(*old(env)),
        symbol_of(*old(env), *key),
        symbol_of(*old(env), *first),
        symbol_of(*old(env), *second),
    ensures
        stored(*final(env)) == stored(*old(env)).insert(
            Slot::Named(symbol_text(*key)),
            Stored::Record(
                Map::empty().insert(symbol_text(*first), a).insert(symbol_text(*second), b),
            ),
        ),
        emitted(*final(env)) == emitted(*old(env)),
        serving(*final(env)),
        keeps_handles(*old(env), *final(env)),
{
    let fields = soroban_sdk::Map::from_array(env, [(first.clone(), a), (second.clone(), b)]);
    env.storage().persistent().set(key, &fields);
}

/// `Events::publish` with two symbols as topics and a `u32` as data: the event
/// is recorded after those published before, and storage is left as it was.
#[allow(deprecated)]
#[verifier::external_body]
pub(crate) fn publish(env: &mut Env, channel: &Symbol, tag: &Symbol, payload: u32)
    requires
        serving(*old(env)),
        symbol_of(*old(env), *channel),
        symbol_of(*old(env), *tag),
    ensures
        emitted(*final(env)) == emitted(*old(env)).push(
            (Notice { channel: symbol_text(*channel), tag: symbol_text(*tag), payload }),
        ),
        stored(*final(env)) == stored(*old(env)),
        serving(*final(env)),
        keeps_handles(*old(env), *final(env)),
{
    env.events().publish((channel.clone(), tag.clone()), payload);
}

/// The host's `require_auth`, the check behind `Address::require_auth`, with
/// its verdict handed back instead of aborting the call: `Ok` where `user`
/// authorized the invocation that is executing, the host's error where not.
/// The host takes note of the request, so that what it grants next may differ;
/// it touches neither storage nor events.
#[verifier::external_body]
pub(crate) fn authorizes(env: &mut Env, user: &Address) -> (verdict: Result<(), HostError>)
    requires
        address_of(*old(env), *user),
    ensures
        verdict is Ok <==> grants(*old(env), *user),
        stored(*final(env)) == stored(*old(env)),
        emitted(*final(env)) == emitted(*old(env)),
        serving(*final(env)) == serving(*old(env)),
        keeps_handles(*old(env), *final(env)),
{
    soroban_env_host::Env::require_auth(env.host(), user.to_object()).map(|_| ())
}

} // verus!
