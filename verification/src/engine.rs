//! The execution engine: the rules that turn a transaction record and the
//! state of a wallet into a change of balances or a rejection.
use crate::client::{wallet_or_new, Client, ClientWallets, WalletView};
use crate::error::{Error, Result};
use crate::transaction::{log_pushed, Transaction, TransactionLog, Type};
use vstd::prelude::*;

verus! {

/// The wallet holds a record under the id that `t` refers to, and the
/// record was issued by the client that `t` names.
pub open spec fn owns(w: WalletView, t: Transaction) -> bool {
    w.issued.contains_key(t.id) && w.issued[t.id].client == t.client
}

/// A deposit credits the amount and records the transaction.
pub open spec fn spec_deposit(w: WalletView, t: Transaction) -> (WalletView, Result<()>) {
    (w.credit(t.amount as nat).record(t), Ok(()))
}

/// A withdrawal debits the amount and records the transaction, or is
/// rejected where the amount is not available.
pub open spec fn spec_withdraw(w: WalletView, t: Transaction) -> (WalletView, Result<()>) {
    if t.amount > w.available {
        (w, Err(Error::InssuficientFunds))
    } else {
        (w.debit(t.amount as nat).record(t), Ok(()))
    }
}

/// A dispute holds the amount of the transaction it refers to and marks
/// that transaction.
pub open spec fn spec_dispute(w: WalletView, t: Transaction) -> (WalletView, Result<()>) {
    if !owns(w, t) {
        (w, Err(Error::AccessViolation(t.client, t.id)))
    } else if w.issued[t.id].under_dispute {
        (w, Err(Error::MultipleDispute(t.id)))
    } else if w.issued[t.id].amount > w.available {
        (w, Err(Error::InssuficientFunds))
    } else {
        (w.hold(w.issued[t.id].amount as nat).flag(t.id, true), Ok(()))
    }
}

/// A resolve releases the held amount of a disputed transaction and takes
/// the mark off.
pub open spec fn spec_resolve(w: WalletView, t: Transaction) -> (WalletView, Result<()>) {
    if !owns(w, t) {
        (w, Err(Error::AccessViolation(t.client, t.id)))
    } else if !w.issued[t.id].under_dispute {
        (w, Err(Error::ResolveUndisputed(t.client, t.id)))
    } else if w.issued[t.id].amount > w.held {
        (w, Err(Error::InssuficientFunds))
    } else {
        (w.release(w.issued[t.id].amount as nat).flag(t.id, false), Ok(()))
    }
}

/// A chargeback takes the held amount of a disputed transaction away,
/// locks the wallet and takes the mark off.
pub open spec fn spec_chargeback(w: WalletView, t: Transaction) -> (WalletView, Result<()>) {
    if !owns(w, t) {
        (w, Err(Error::AccessViolation(t.client, t.id)))
    } else if !w.issued[t.id].under_dispute {
        (w, Err(Error::ChargebackUndisputed(t.client, t.id)))
    } else if w.issued[t.id].amount > w.held {
        (w, Err(Error::InssuficientFunds))
    } else {
        (w.confiscate(w.issued[t.id].amount as nat).lock().flag(t.id, false), Ok(()))
    }
}

/// What the rule of the transaction's type makes of the wallet.
pub open spec fn spec_dispatch(w: WalletView, t: Transaction) -> (WalletView, Result<()>) {
    match t.kind {
        Type::Deposit => spec_deposit(w, t),
        Type::Withdrawal => spec_withdraw(w, t),
        Type::Dispute => spec_dispute(w, t),
        Type::Resolve => spec_resolve(w, t),
        Type::Chargeback => spec_chargeback(w, t),
    }
}

/// One transaction against one wallet: the wallet afterwards, and either
/// the record to enter in the ledger (for an accepted primitive
/// transaction), nothing to enter, or the reason of the rejection. A
/// locked wallet rejects everything.
pub open spec fn spec_execute(w: WalletView, t: Transaction) -> (
    WalletView,
    Result<Option<Transaction>>,
) {
    if w.locked {
        (w, Err(Error::WalletLocked(t.client)))
    } else {
        match spec_dispatch(w, t).1 {
            Ok(_) => (
                spec_dispatch(w, t).0,
                Ok(
                    if t.kind.spec_primitive() {
                        Some(t)
                    } else {
                        None
                    },
                ),
            ),
            Err(e) => (spec_dispatch(w, t).0, Err(e)),
        }
    }
}

/// A map keyed by 32-bit ids holds at most 2^32 entries.
pub proof fn lemma_id_keys_bounded(m: Map<u32, Transaction>)
    requires
        m.dom().finite(),
    ensures
        m.len() <= 0x1_0000_0000,
{
    let f = |k: u32| k as int;
    let image = m.dom().map(f);
    let all = vstd::set_lib::set_int_range(0, 0x1_0000_0000);
    vstd::set_lib::lemma_int_range(0, 0x1_0000_0000);
    assert(vstd::relations::injective_on(f, m.dom()));
    vstd::set_lib::lemma_map_size(m.dom(), image, f);
    assert(image.subset_of(all)) by {
        assert forall|i: int| image.contains(i) implies all.contains(i) by {
            let k = choose|k: u32| m.dom().contains(k) && f(k) == i;
            assert(f(k) == i);
        }
    }
    vstd::set_lib::lemma_len_subset(image, all);
}

/// A wallet that is covered by its records stays so when one more record
/// comes with a credit of its amount, and its total fits the machine.
proof fn lemma_credit_backed(w: WalletView, t: Transaction)
    requires
        w.wf(),
        w.backed(),
        !w.issued.contains_key(t.id),
    ensures
        w.total + t.amount <= u128::MAX,
        w.credit(t.amount as nat).record(t).backed(),
        w.record(t).backed(),
{
    lemma_id_keys_bounded(w.issued);
    let n = w.issued.len();
    assert(n * u64::MAX <= 0x1_0000_0000 * u64::MAX) by (nonlinear_arith)
        requires
            n <= 0x1_0000_0000,
    ;
    assert((n + 1) * u64::MAX == n * u64::MAX + u64::MAX) by (nonlinear_arith);
    assert(w.issued.insert(t.id, t).len() == n + 1);
}

/// Marking a record leaves the number of records as it is.
proof fn lemma_flag_backed(w: WalletView, tx_id: u32, flag: bool)
    requires
        w.backed(),
    ensures
        w.flag(tx_id, flag).issued.dom() == w.issued.dom(),
        w.flag(tx_id, flag).backed(),
{
    assert(w.flag(tx_id, flag).issued.dom() =~= w.issued.dom());
}

/// Credits the amount and records the transaction. A deposit is never
/// rejected. The id must be new to the wallet.
pub fn deposit(tx: &Transaction, wallet: &mut Client) -> (r: Result<()>)
    requires
        old(wallet)@.wf(),
        old(wallet)@.backed(),
        !old(wallet)@.issued.contains_key(tx.id),
    ensures
        final(wallet)@ == spec_deposit(old(wallet)@, *tx).0,
        r == spec_deposit(old(wallet)@, *tx).1,
        final(wallet)@.wf(),
        final(wallet)@.backed(),
{
    proof {
        lemma_credit_backed(wallet@, *tx);
    }
    wallet.credit(tx.amount);
    wallet.record_tx(tx);
    Ok(())
}

/// Debits the amount and records the transaction; rejects the withdrawal
/// and records nothing where the amount is not available. The id must be
/// new to the wallet.
pub fn withdraw(tx: &Transaction, wallet: &mut Client) -> (r: Result<()>)
    requires
        old(wallet)@.wf(),
        !old(wallet)@.issued.contains_key(tx.id),
    ensures
        final(wallet)@ == spec_withdraw(old(wallet)@, *tx).0,
        r == spec_withdraw(old(wallet)@, *tx).1,
        final(wallet)@.wf(),
        old(wallet)@.backed() ==> final(wallet)@.backed(),
{
    match wallet.debit(tx.amount) {
        Ok(()) => {
            wallet.record_tx(tx);
            proof {
                if old(wallet)@.backed() {
                    lemma_credit_backed(old(wallet)@, *tx);
                    let n = old(wallet)@.issued.len();
                    assert(n * u64::MAX <= (n + 1) * u64::MAX) by (nonlinear_arith);
                }
            }
            Ok(())
        },
        Err(e) => Err(e),
    }
}

/// Holds the amount of the client's own transaction `tx.id` and marks it
/// as under dispute. A rejection leaves the wallet as it was.
pub fn dispute(tx: &Transaction, wallet: &mut Client) -> (r: Result<()>)
    requires
        old(wallet)@.wf(),
    ensures
        final(wallet)@ == spec_dispute(old(wallet)@, *tx).0,
        r == spec_dispute(old(wallet)@, *tx).1,
        final(wallet)@.wf(),
        old(wallet)@.backed() ==> final(wallet)@.backed(),
{
    let orig = match wallet.get_tx(tx.id) {
        Some(orig) => orig,
        None => {
            return Err(Error::AccessViolation(tx.client, tx.id));
        },
    };
    if orig.client != tx.client {
        return Err(Error::AccessViolation(tx.client, tx.id));
    }
    if orig.under_dispute() {
        return Err(Error::MultipleDispute(tx.id));
    }
    match wallet.hold(orig.amount) {
        Ok(()) => {
            proof {
                if old(wallet)@.backed() {
                    lemma_flag_backed(wallet@, tx.id, true);
                }
            }
            wallet.dispute_tx(tx.id);
            Ok(())
        },
        Err(e) => Err(e),
    }
}

/// Releases the held amount of the disputed transaction `tx.id` and takes
/// the mark off. A rejection leaves the wallet as it was.
pub fn resolve(tx: &Transaction, wallet: &mut Client) -> (r: Result<()>)
    requires
        old(wallet)@.wf(),
    ensures
        final(wallet)@ == spec_resolve(old(wallet)@, *tx).0,
        r == spec_resolve(old(wallet)@, *tx).1,
        final(wallet)@.wf(),
        old(wallet)@.backed() ==> final(wallet)@.backed(),
{
    let orig = match wallet.get_tx(tx.id) {
        Some(orig) => orig,
        None => {
            return Err(Error::AccessViolation(tx.client, tx.id));
        },
    };
    if orig.client != tx.client {
        return Err(Error::AccessViolation(tx.client, tx.id));
    }
    if !orig.under_dispute() {
        return Err(Error::ResolveUndisputed(tx.client, tx.id));
    }
    match wallet.release(orig.amount) {
        Ok(()) => {
            proof {
                if old(wallet)@.backed() {
                    lemma_flag_backed(wallet@, tx.id, false);
                }
            }
            wallet.undispute_tx(tx.id);
            Ok(())
        },
        Err(e) => Err(e),
    }
}

/// Takes the held amount of the disputed transaction `tx.id` away, locks
/// the wallet and takes the mark off. A rejection leaves the wallet as it
/// was.
pub fn chargeback(tx: &Transaction, wallet: &mut Client) -> (r: Result<()>)
    requires
        old(wallet)@.wf(),
    ensures
        final(wallet)@ == spec_chargeback(old(wallet)@, *tx).0,
        r == spec_chargeback(old(wallet)@, *tx).1,
        final(wallet)@.wf(),
        old(wallet)@.backed() ==> final(wallet)@.backed(),
{
    let orig = match wallet.get_tx(tx.id) {
        Some(orig) => orig,
        None => {
            return Err(Error::AccessViolation(tx.client, tx.id));
        },
    };
    if orig.client != tx.client {
        return Err(Error::AccessViolation(tx.client, tx.id));
    }
    if !orig.under_dispute() {
        return Err(Error::ChargebackUndisputed(tx.client, tx.id));
    }
    match wallet.confiscate(orig.amount) {
        Ok(()) => {
            wallet.lock();
            proof {
                if old(wallet)@.backed() {
                    lemma_flag_backed(wallet@, tx.id, false);
                }
            }
            wallet.undispute_tx(tx.id);
            Ok(())
        },
        Err(e) => Err(e),
    }
}

/// Given a transaction and the wallet of the client that issued it,
/// execute the transaction, if it is valid.
/// Returns the transaction if it needs to be entered in the ledger.
///
/// A primitive transaction must be new to the wallet: the caller's guard
/// against duplicates sees to that.
pub fn execute_transaction(t: &Transaction, wallet: &mut Client) -> (r: Result<
    Option<Transaction>,
>)
    requires
        old(wallet)@.wf(),
        old(wallet)@.backed(),
        t.kind.spec_primitive() && !old(wallet)@.locked ==> !old(wallet)@.issued.contains_key(
            t.id,
        ),
    ensures
        final(wallet)@ == spec_execute(old(wallet)@, *t).0,
        r == spec_execute(old(wallet)@, *t).1,
        final(wallet)@.wf(),
        final(wallet)@.backed(),
{
    if wallet.locked() {
        return Err(Error::WalletLocked(t.client));
    }
    let done = match t.kind {
        Type::Deposit => deposit(t, wallet),
        Type::Withdrawal => withdraw(t, wallet),
        Type::Dispute => dispute(t, wallet),
        Type::Resolve => resolve(t, wallet),
        Type::Chargeback => chargeback(t, wallet),
    };
    match done {
        Ok(()) => if t.primitive() {
            Ok(Some(*t))
        } else {
            Ok(None)
        },
        Err(e) => Err(e),
    }
}

/// What became of one record that was handed to the engine.
#[derive(Debug, Clone, Copy, PartialEq, Eq, Structural)]
pub enum Outcome {
    /// The transaction was executed.
    Applied,
    /// A primitive transaction with an id that the ledger knows: dropped
    /// without a trace.
    Duplicate,
    /// The transaction was turned down, for the reason given.
    Rejected(Error),
}

/// What an engine is, mathematically: the ledger of accepted primitive
/// transactions by id, and the wallets by client.
pub struct EngineView {
    pub ledger: Map<u32, Transaction>,
    pub wallets: Map<u16, WalletView>,
}

impl EngineView {
    /// The engine that has seen nothing.
    pub open spec fn empty() -> EngineView {
        EngineView { ledger: Map::empty(), wallets: Map::empty() }
    }

    /// The wallet of client `c` is sound: it carries the client's id, its
    /// balances add up and are covered by its records, and each of its
    /// records is the client's own and stands in the ledger under the
    /// client's name.
    pub open spec fn wallet_ok(self, c: u16) -> bool {
        let w = self.wallets[c];
        &&& w.id == c
        &&& w.wf()
        &&& w.backed()
        &&& forall|id: u32| #[trigger]
            w.issued.contains_key(id) ==> {
                &&& w.issued[id].id == id
                &&& w.issued[id].client == c
                &&& self.ledger.contains_key(id)
                &&& self.ledger[id].client == c
            }
    }

    /// Every wallet is sound, and the ledger holds each record under the
    /// record's own id.
    pub open spec fn wf(self) -> bool {
        &&& forall|c: u16| #[trigger] self.wallets.contains_key(c) ==> self.wallet_ok(c)
        &&& forall|id: u32| #[trigger]
            self.ledger.contains_key(id) ==> self.ledger[id].id == id
    }

    /// The record is dropped by the guard against duplicates.
    pub open spec fn duplicate(self, t: Transaction) -> bool {
        t.kind.spec_primitive() && self.ledger.contains_key(t.id)
    }

    /// The engine after one record.
    pub open spec fn process(self, t: Transaction) -> EngineView {
        if self.duplicate(t) {
            self
        } else {
            let done = spec_execute(wallet_or_new(self.wallets, t.client), t);
            EngineView {
                ledger: match done.1 {
                    Ok(Some(rec)) => log_pushed(self.ledger, rec),
                    _ => self.ledger,
                },
                wallets: self.wallets.insert(t.client, done.0),
            }
        }
    }

    /// What the engine reports of one record.
    pub open spec fn outcome(self, t: Transaction) -> Outcome {
        if self.duplicate(t) {
            Outcome::Duplicate
        } else {
            match spec_execute(wallet_or_new(self.wallets, t.client), t).1 {
                Ok(_) => Outcome::Applied,
                Err(e) => Outcome::Rejected(e),
            }
        }
    }

    /// The engine after a sequence of records, applied in order.
    pub open spec fn run(self, ts: Seq<Transaction>) -> EngineView
        decreases ts.len(),
    {
        if ts.len() == 0 {
            self
        } else {
            self.run(ts.drop_last()).process(ts.last())
        }
    }
}

/// The balance invariant, for one wallet: whatever the record, the wallet
/// afterwards still has a total that is the sum of what is available and
/// what is held, and is still covered by its records. It keeps its id, and
/// the records it holds are those it held, each under its client's name,
/// and the new one if a primitive transaction was accepted.
pub proof fn lemma_execute_sound(w: WalletView, t: Transaction)
    requires
        w.wf(),
        w.backed(),
        t.kind.spec_primitive() && !w.locked ==> !w.issued.contains_key(t.id),
    ensures
        spec_execute(w, t).0.wf(),
        spec_execute(w, t).0.backed(),
        spec_execute(w, t).0.id == w.id,
        spec_execute(w, t).1 is Err ==> spec_execute(w, t).0 == w,
        spec_execute(w, t).1 matches Ok(entry) ==> entry == (if t.kind.spec_primitive() {
            Some(t)
        } else {
            None
        }),
        forall|id: u32| #[trigger]
            spec_execute(w, t).0.issued.contains_key(id) ==> {
                if w.issued.contains_key(id) {
                    &&& spec_execute(w, t).0.issued[id].client == w.issued[id].client
                    &&& spec_execute(w, t).0.issued[id].id == w.issued[id].id
                } else {
                    id == t.id && spec_execute(w, t).1 == Ok::<Option<Transaction>, Error>(Some(t))
                        && spec_execute(w, t).0.issued[id] == t
                }
            },
{
    if !w.locked && spec_execute(w, t).1 is Ok {
        match t.kind {
            Type::Deposit => {
                lemma_credit_backed(w, t);
            },
            Type::Withdrawal => {
                lemma_credit_backed(w, t);
                let n = w.issued.len();
                assert(n * u64::MAX <= (n + 1) * u64::MAX) by (nonlinear_arith);
            },
            Type::Dispute => {
                lemma_flag_backed(w.hold(w.issued[t.id].amount as nat), t.id, true);
            },
            Type::Resolve => {
                lemma_flag_backed(w.release(w.issued[t.id].amount as nat), t.id, false);
            },
            Type::Chargeback => {
                lemma_flag_backed(w.confiscate(w.issued[t.id].amount as nat).lock(), t.id, false);
            },
        }
    }
}

/// A sound engine stays sound over any record.
pub proof fn lemma_process_wf(s: EngineView, t: Transaction)
    requires
        s.wf(),
    ensures
        s.process(t).wf(),
{
    if !s.duplicate(t) {
        let c = t.client;
        let w = wallet_or_new(s.wallets, c);
        let next = s.process(t);
        assert(s.wallets.contains_key(c) ==> s.wallet_ok(c));
        lemma_execute_sound(w, t);
        assert forall|k: u16| #[trigger] next.wallets.contains_key(k) implies next.wallet_ok(
            k,
        ) by {
            if k != c {
                assert(s.wallets.contains_key(k));
                assert(s.wallet_ok(k));
            }
        }
    }
}

/// A sound engine stays sound over any sequence of records.
pub proof fn lemma_run_wf(s: EngineView, ts: Seq<Transaction>)
    requires
        s.wf(),
    ensures
        s.run(ts).wf(),
    decreases ts.len(),
{
    if ts.len() > 0 {
        lemma_run_wf(s, ts.drop_last());
        lemma_process_wf(s.run(ts.drop_last()), ts.last());
    }
}

/// The engine: the ledger of accepted transactions and the wallets.
pub struct Engine {
    past_tx: TransactionLog,
    wallets: ClientWallets,
}

impl View for Engine {
    type V = EngineView;

    closed spec fn view(&self) -> EngineView {
        EngineView { ledger: self.past_tx@, wallets: self.wallets@ }
    }
}

impl Engine {
    /// An engine with an empty ledger and no wallets.
    pub fn new() -> (e: Engine)
        ensures
            e@ == EngineView::empty(),
            e@.wf(),
    {
        Engine { past_tx: TransactionLog::new(), wallets: ClientWallets::new() }
    }

    /// Applies one record: drops it if it is a duplicate, else executes it
    /// against the wallet of its client, which is made if need be, and
    /// enters an accepted primitive transaction in the ledger.
    pub fn process(&mut self, t: &Transaction) -> (r: Outcome)
        requires
            old(self)@.wf(),
        ensures
            final(self)@ == old(self)@.process(*t),
            r == old(self)@.outcome(*t),
            final(self)@.wf(),
    {
        proof {
            lemma_process_wf(self@, *t);
        }
        if t.primitive() && self.past_tx.contains(t.id) {
            return Outcome::Duplicate;
        }
        assert(self@.wallets.contains_key(t.client) ==> self@.wallet_ok(t.client));
        let wallet = self.wallets.get_or_create_mut(t.client);
        let done = execute_transaction(t, wallet);
        match done {
            Ok(Some(rec)) => {
                self.past_tx.push(&rec);
                Outcome::Applied
            },
            Ok(None) => Outcome::Applied,
            Err(e) => Outcome::Rejected(e),
        }
    }

    /// Applies the records in order. Rejections are not fatal: the run
    /// goes on with the next record.
    pub fn run(&mut self, transactions: &[Transaction]) -> (wallets: &ClientWallets)
        requires
            old(self)@.wf(),
        ensures
            final(self)@ == old(self)@.run(transactions@),
            final(self)@.wf(),
            wallets@ == final(self)@.wallets,
    {
        let mut i: usize = 0;
        while i < transactions.len()
            invariant
                i <= transactions.len(),
                self@.wf(),
                self@ == old(self)@.run(transactions@.take(i as int)),
            decreases transactions.len() - i,
        {
            let _ = self.process(&transactions[i]);
            proof {
                let upto = transactions@.take(i + 1);
                assert(upto.drop_last() =~= transactions@.take(i as int));
                assert(upto.last() == transactions@[i as int]);
            }
            i = i + 1;
        }
        assert(transactions@.take(i as int) =~= transactions@);
        &self.wallets
    }

    /// The wallets as they stand.
    pub fn wallets(&self) -> (wallets: &ClientWallets)
        ensures
            wallets@ == self@.wallets,
    {
        &self.wallets
    }

    /// Returns the number of transactions that were successfully executed and recorded
    /// by the engine.
    pub fn valid_transactions(&self) -> (n: usize)
        ensures
            n == self@.ledger.len(),
    {
        self.past_tx.len()
    }
}

} // verus!
