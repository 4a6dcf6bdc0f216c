//! What a contract has stored and published, as plain mathematical values.

use vstd::prelude::*;

verus! {

/// The key of one storage entry.
pub enum Slot {
    /// An entry keyed by a symbol alone; the field is the symbol's text.
    Named(Seq<char>),
    /// An entry keyed by a symbol and an address, as one pair.
    Tagged(Seq<char>, soroban_sdk::Address),
}

/// The value of one storage entry.
pub enum Stored {
    /// A single unsigned 32-bit number.
    Number(u32),
    /// A map from symbols to unsigned 32-bit numbers, stored as one value; the
    /// keys are the symbols' texts.
    Record(Map<Seq<char>, u32>),
    /// A value of any other shape.
    Other,
}

/// One published event: two topics and a number as its data.
pub struct Notice {
    pub channel: Seq<char>,
    pub tag: Seq<char>,
    pub payload: u32,
}

/// The storage entries of a contract and the events it has published, oldest first.
pub struct Ledger {
    pub entries: Map<Slot, Stored>,
    pub notices: Seq<Notice>,
}

impl Ledger {
    /// Whether `slot` is empty or holds a number: the states in which it can be read as a counter.
    pub open spec fn number_or_vacant(self, slot: Slot) -> bool {
        self.entries.contains_key(slot) ==> self.entries[slot] is Number
    }

    /// Whether `slot` is empty or holds a record with the fields `first` and
    /// `second`: the states in which those two can be read from it.
    pub open spec fn record_or_vacant(self, slot: Slot, first: Seq<char>, second: Seq<char>) -> bool {
        self.entries.contains_key(slot) ==> match self.entries[slot] {
            Stored::Record(fields) => fields.contains_key(first) && fields.contains_key(second),
            _ => false,
        }
    }

    /// The number read from `slot`, if it holds one.
    pub open spec fn number_at(self, slot: Slot) -> Option<u32> {
        if self.entries.contains_key(slot) {
            match self.entries[slot] {
                Stored::Number(n) => Some(n),
                _ => None,
            }
        } else {
            None
        }
    }

    /// The fields `first` and `second` of the record in `slot`, if it holds one.
    pub open spec fn record_at(self, slot: Slot, first: Seq<char>, second: Seq<char>) -> Option<
        (u32, u32),
    > {
        if self.entries.contains_key(slot) {
            match self.entries[slot] {
                Stored::Record(fields) => Some((fields[first], fields[second])),
                _ => None,
            }
        } else {
            None
        }
    }

    /// The counter under `slot`: the stored number, and 0 where there is none.
    pub open spec fn count(self, slot: Slot) -> u32 {
        match self.number_at(slot) {
            Some(n) => n,
            None => 0,
        }
    }

    /// This ledger with `slot` overwritten by the number `n`.
    pub open spec fn with_number(self, slot: Slot, n: u32) -> Ledger {
        Ledger { entries: self.entries.insert(slot, Stored::Number(n)), notices: self.notices }
    }

    /// This ledger with `slot` overwritten by the record of the two fields
    /// `first`, with the value `a`, and `second`, with the value `b`.
    pub open spec fn with_record(
        self,
        slot: Slot,
        first: Seq<char>,
        a: u32,
        second: Seq<char>,
        b: u32,
    ) -> Ledger {
        Ledger {
            entries: self.entries.insert(
                slot,
                Stored::Record(Map::empty().insert(first, a).insert(second, b)),
            ),
            notices: self.notices,
        }
    }

    /// This ledger with `notice` published after all earlier events.
    pub open spec fn with_notice(self, notice: Notice) -> Ledger {
        Ledger { entries: self.entries, notices: self.notices.push(notice) }
    }
}

} // verus!
