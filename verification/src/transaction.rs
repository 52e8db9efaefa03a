//! Transaction records and the log of those that were accepted.
use std::collections::HashMap;
use vstd::prelude::*;

pub mod utils;

verus! {

broadcast use vstd::std_specs::hash::group_hash_axioms;

/// The type of the transaction.
#[derive(Debug, Clone, Copy, PartialEq, Eq, Structural)]
pub enum Type {
    Withdrawal,
    Deposit,
    Dispute,
    Resolve,
    Chargeback,
}

impl Type {
    /// The type that a drawn number stands for: its remainder modulo five,
    /// in the order of the declaration.
    pub open spec fn spec_from_index(n: u8) -> Type {
        if n % 5 == 0 {
            Type::Withdrawal
        } else if n % 5 == 1 {
            Type::Deposit
        } else if n % 5 == 2 {
            Type::Dispute
        } else if n % 5 == 3 {
            Type::Resolve
        } else {
            Type::Chargeback
        }
    }

    /// Deposits and withdrawals are primitive: they carry an amount and
    /// create a record. The other three refer to a recorded transaction.
    pub open spec fn spec_primitive(self) -> bool {
        self == Type::Deposit || self == Type::Withdrawal
    }

    /// Maps a drawn number to a type.
    pub fn from_index(n: u8) -> (r: Type)
        ensures
            r == Type::spec_from_index(n),
    {
        let k: u8 = n % 5;
        if k == 0 {
            Type::Withdrawal
        } else if k == 1 {
            Type::Deposit
        } else if k == 2 {
            Type::Dispute
        } else if k == 3 {
            Type::Resolve
        } else {
            Type::Chargeback
        }
    }

    /// Whether a transaction of this type is primitive.
    pub fn primitive(&self) -> (r: bool)
        ensures
            r == self.spec_primitive(),
    {
        match self {
            Type::Deposit => true,
            Type::Withdrawal => true,
            _ => false,
        }
    }
}

/// A transaction record. `amount` counts ten-thousandths and is read only
/// for primitive transactions.
#[derive(Debug, Clone, Copy, PartialEq, Eq, Structural)]
pub struct Transaction {
    pub kind: Type,
    pub client: u16,
    pub id: u32,
    pub amount: u64,
    pub under_dispute: bool,
}

impl Transaction {
    /// The same record with its dispute flag set to `flag`.
    pub open spec fn with_dispute(self, flag: bool) -> Transaction {
        Transaction { under_dispute: flag, ..self }
    }

    /// A record that is not under dispute.
    pub fn new(kind: Type, client: u16, id: u32, amount: u64) -> (t: Transaction)
        ensures
            t == (Transaction { kind, client, id, amount, under_dispute: false }),
    {
        Transaction { kind, client, id, amount, under_dispute: false }
    }

    /// Check if the transaction is under dispute
    pub fn under_dispute(&self) -> (r: bool)
        ensures
            r == self.under_dispute,
    {
        self.under_dispute
    }

    /// Whether the transaction is a deposit or a withdrawal.
    pub fn primitive(&self) -> (r: bool)
        ensures
            r == self.kind.spec_primitive(),
    {
        self.kind.primitive()
    }
}

/// The TransactionLog holds the transactions that were accepted, by id.
/// It can be queried to `find()` a specific transaction by id.
/// Attempting to add a transaction with an id that already was recorded
/// silently fails.
#[derive(Debug)]
pub struct TransactionLog {
    /// map of transaction id to transaction
    transactions: HashMap<u32, Transaction>,
}

impl View for TransactionLog {
    type V = Map<u32, Transaction>;

    closed spec fn view(&self) -> Map<u32, Transaction> {
        self.transactions@
    }
}

/// What `push` makes of a log: a new id is added, a known one changes nothing.
pub open spec fn log_pushed(log: Map<u32, Transaction>, t: Transaction) -> Map<u32, Transaction> {
    if log.contains_key(t.id) {
        log
    } else {
        log.insert(t.id, t)
    }
}

/// The log with the dispute flag of `tx_id` set to `flag`, if it is there.
pub open spec fn log_flagged(log: Map<u32, Transaction>, tx_id: u32, flag: bool) -> Map<
    u32,
    Transaction,
> {
    if log.contains_key(tx_id) {
        log.insert(tx_id, log[tx_id].with_dispute(flag))
    } else {
        log
    }
}

impl TransactionLog {
    /// Create a new empty transaction log
    pub fn new() -> (log: TransactionLog)
        ensures
            log@ == Map::<u32, Transaction>::empty(),
    {
        TransactionLog { transactions: HashMap::new() }
    }

    /// Returns the number of transactions in the log
    pub fn len(&self) -> (n: usize)
        ensures
            n == self@.len(),
            self@.dom().finite(),
    {
        self.transactions.len()
    }

    /// Add a new transaction to the list
    pub fn push(&mut self, t: &Transaction)
        ensures
            final(self)@ == log_pushed(old(self)@, *t),
    {
        if !self.transactions.contains_key(&t.id) {
            self.transactions.insert(t.id, *t);
        }
    }

    /// Find a transaction with a given id in the log
    pub fn find(&self, tx_id: u32) -> (r: Option<&Transaction>)
        ensures
            match r {
                Some(t) => self@.contains_key(tx_id) && *t == self@[tx_id],
                None => !self@.contains_key(tx_id),
            },
    {
        self.transactions.get(&tx_id)
    }

    /// Checks if the transaction with id `tx_id` exits in the log
    pub fn contains(&self, tx_id: u32) -> (r: bool)
        ensures
            r == self@.contains_key(tx_id),
    {
        self.transactions.contains_key(&tx_id)
    }

    fn set_flag(&mut self, tx_id: u32, flag: bool)
        ensures
            final(self)@ == log_flagged(old(self)@, tx_id, flag),
    {
        let found: Option<Transaction> = match self.transactions.get(&tx_id) {
            Some(t) => Some(*t),
            None => None,
        };
        match found {
            Some(t) => {
                self.transactions.insert(
                    tx_id,
                    Transaction {
                        kind: t.kind,
                        client: t.client,
                        id: t.id,
                        amount: t.amount,
                        under_dispute: flag,
                    },
                );
            },
            None => {},
        }
    }

    /// Mark a transaction as under dispute
    pub fn dispute(&mut self, tx_id: u32)
        ensures
            final(self)@ == log_flagged(old(self)@, tx_id, true),
    {
        self.set_flag(tx_id, true);
    }

    /// Reset the dispute status of a transaction
    pub fn undispute(&mut self, tx_id: u32)
        ensures
            final(self)@ == log_flagged(old(self)@, tx_id, false),
    {
        self.set_flag(tx_id, false);
    }
}

} // verus!
