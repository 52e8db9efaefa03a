//! A generator of random transaction records.
use crate::transaction::{Transaction, Type};
use vstd::prelude::*;

verus! {

/// Draws a byte from `rand::random`. Nothing is claimed of the byte: it is
/// whatever the thread's generator hands out.
#[verifier::external_body]
fn random_u8() -> (r: u8) {
    rand::random::<u8>()
}

/// Draws sixteen bits from `rand::random`. Nothing is claimed of them.
#[verifier::external_body]
fn random_u16() -> (r: u16) {
    rand::random::<u16>()
}

/// Draws a boolean from `rand::random`. Nothing is claimed of it.
#[verifier::external_body]
fn random_bool() -> (r: bool) {
    rand::random::<bool>()
}

/// The record that a set of draws stands for: the type by the remainder of
/// `kind_draw` modulo five, an amount below one whole unit of currency.
pub open spec fn drawn_transaction(
    id: u32,
    kind_draw: u8,
    client: u16,
    amount_draw: u16,
    under_dispute: bool,
) -> Transaction {
    Transaction {
        kind: Type::spec_from_index(kind_draw),
        client,
        id,
        amount: (amount_draw % 10_000) as u64,
        under_dispute,
    }
}

/// Whether a roll moves the generator on to the next id: three rolls in ten do.
pub open spec fn roll_advances(roll: u8) -> bool {
    roll % 100 < 30
}

/// Builds the record that a set of draws stands for.
pub fn transaction_from_draws(
    id: u32,
    kind_draw: u8,
    client: u16,
    amount_draw: u16,
    under_dispute: bool,
) -> (t: Transaction)
    ensures
        t == drawn_transaction(id, kind_draw, client, amount_draw, under_dispute),
{
    let cents: u16 = amount_draw % 10_000;
    Transaction {
        kind: Type::from_index(kind_draw),
        client,
        id,
        amount: cents as u64,
        under_dispute,
    }
}

impl Type {
    /// A type picked at random.
    pub fn random() -> (r: Type) {
        Type::from_index(random_u8())
    }
}

impl Transaction {
    /// A random record with the given id.
    pub fn new_random(id: u32) -> (t: Transaction)
        ensures
            t.id == id,
            t.amount < 10_000,
    {
        let kind_draw: u8 = random_u8();
        let client: u16 = random_u16();
        let amount_draw: u16 = random_u16();
        let flag: bool = random_bool();
        transaction_from_draws(id, kind_draw, client, amount_draw, flag)
    }
}

/// An endless source of random records. It hands out ids in ascending
/// order and repeats an id now and then, so that disputes and duplicates
/// come up.
pub struct RandomTransactions {
    next_id: u32,
}

impl RandomTransactions {
    /// The id that the next record will carry.
    pub closed spec fn spec_next_id(&self) -> u32 {
        self.next_id
    }

    /// The id after a roll: the next one where the roll advances and there
    /// is a next one, else the same.
    pub open spec fn id_after(id: u32, roll: u8) -> u32 {
        if roll_advances(roll) && id < u32::MAX {
            (id + 1) as u32
        } else {
            id
        }
    }

    /// A generator that starts at id 1.
    pub fn new() -> (g: RandomTransactions)
        ensures
            g.spec_next_id() == 1,
    {
        RandomTransactions { next_id: 1 }
    }

    /// The id that the next record will carry.
    pub fn next_id(&self) -> (id: u32)
        ensures
            id == self.spec_next_id(),
    {
        self.next_id
    }

    /// Moves on to the next id if the roll says so.
    pub fn advance(&mut self, roll: u8)
        ensures
            final(self).spec_next_id() == Self::id_after(old(self).spec_next_id(), roll),
    {
        if roll % 100 < 30 && self.next_id < u32::MAX {
            self.next_id = self.next_id + 1;
        }
    }

    /// The next random record. It always yields one; the id stays or grows by one.
    pub fn next(&mut self) -> (r: Option<Transaction>)
        ensures
            r is Some,
            r->0.id == old(self).spec_next_id(),
            final(self).spec_next_id() == old(self).spec_next_id() || final(self).spec_next_id()
                == old(self).spec_next_id() + 1,
    {
        let t = Transaction::new_random(self.next_id);
        let roll: u8 = random_u8();
        self.advance(roll);
        Some(t)
    }
}

} // verus!
