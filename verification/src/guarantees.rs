//! What holds of the engine whatever the records are. Each statement is
//! over the engine's model, which the contracts of `process` and `run`
//! tie the executable code to.
use crate::client::{wallet_or_new, WalletView};
use crate::engine::{spec_execute, EngineView, Outcome};
use crate::error::Error;
use crate::transaction::{Transaction, Type};
use vstd::prelude::*;

verus! {

/// Balances add up at every point of every run: starting from a sound
/// engine, after any sequence of records each wallet has a total that is
/// the sum of what is available and what is held. None of the three is
/// ever negative, as they are natural numbers.
pub proof fn balances_always_add_up(s: EngineView, ts: Seq<Transaction>, c: u16)
    requires
        s.wf(),
        s.run(ts).wallets.contains_key(c),
    ensures
        s.run(ts).wallets[c].total == s.run(ts).wallets[c].available + s.run(ts).wallets[c].held,
        s.run(ts).wallets[c].id == c,
{
    crate::engine::lemma_run_wf(s, ts);
    assert(s.run(ts).wallet_ok(c));
}

/// Applying the same deposit or withdrawal twice leaves the engine as
/// applying it once does. Where the first was executed, the second is
/// dropped as a duplicate.
pub proof fn primitive_applied_twice(s: EngineView, t: Transaction)
    requires
        t.kind.spec_primitive(),
    ensures
        s.process(t).process(t) == s.process(t),
        s.outcome(t) == Outcome::Applied ==> s.process(t).outcome(t) == Outcome::Duplicate,
        s.outcome(t) != Outcome::Applied ==> s.process(t).outcome(t) == s.outcome(t),
{
    let once = s.process(t);
    if !s.duplicate(t) {
        let w = wallet_or_new(s.wallets, t.client);
        if spec_execute(w, t).1 is Err {
            assert(once.wallets.insert(t.client, w) =~= once.wallets);
        }
    }
}

/// A deposit, a dispute of it and a resolve bring what is available and
/// what is held back to what they were after the deposit: all three
/// records are accepted, the dispute moves the amount from available to
/// held, and the resolve moves it back.
pub proof fn deposit_dispute_resolve(
    w: WalletView,
    deposit: Transaction,
    dispute: Transaction,
    resolve: Transaction,
)
    requires
        w.wf(),
        !w.locked,
        !w.issued.contains_key(deposit.id),
        deposit.kind == Type::Deposit,
        !deposit.under_dispute,
        dispute.kind == Type::Dispute,
        dispute.id == deposit.id,
        dispute.client == deposit.client,
        resolve.kind == Type::Resolve,
        resolve.id == deposit.id,
        resolve.client == deposit.client,
    ensures
        ({
            let deposited = spec_execute(w, deposit);
            let disputed = spec_execute(deposited.0, dispute);
            let resolved = spec_execute(disputed.0, resolve);
            &&& deposited.1 is Ok
            &&& disputed.1 is Ok
            &&& resolved.1 is Ok
            &&& disputed.0.available == deposited.0.available - deposit.amount
            &&& disputed.0.held == deposited.0.held + deposit.amount
            &&& disputed.0.total == deposited.0.total
            &&& resolved.0 == deposited.0
        }),
{
    let deposited = spec_execute(w, deposit);
    let disputed = spec_execute(deposited.0, dispute);
    let resolved = spec_execute(disputed.0, resolve);
    assert(resolved.0.issued =~= deposited.0.issued);
}

/// A deposit, a dispute of it and a chargeback leave the total lower by
/// the deposited amount than it was after the deposit, and the wallet
/// locked. What is available is what it was before the deposit.
pub proof fn deposit_dispute_chargeback(
    w: WalletView,
    deposit: Transaction,
    dispute: Transaction,
    chargeback: Transaction,
)
    requires
        w.wf(),
        !w.locked,
        !w.issued.contains_key(deposit.id),
        deposit.kind == Type::Deposit,
        !deposit.under_dispute,
        dispute.kind == Type::Dispute,
        dispute.id == deposit.id,
        dispute.client == deposit.client,
        chargeback.kind == Type::Chargeback,
        chargeback.id == deposit.id,
        chargeback.client == deposit.client,
    ensures
        ({
            let deposited = spec_execute(w, deposit);
            let disputed = spec_execute(deposited.0, dispute);
            let charged = spec_execute(disputed.0, chargeback);
            &&& deposited.1 is Ok
            &&& disputed.1 is Ok
            &&& charged.1 is Ok
            &&& charged.0.total == deposited.0.total - deposit.amount
            &&& charged.0.total == w.total
            &&& charged.0.available == w.available
            &&& charged.0.held == w.held
            &&& charged.0.locked
        }),
{
}

/// The same two round trips through the engine: for a deposit that the
/// engine has not seen, into a wallet that is not locked, the deposit, its
/// dispute and its resolve are all applied and leave the client's wallet as
/// it was after the deposit; with a chargeback in place of the resolve the
/// wallet ends locked, with its total lower by the deposited amount.
pub proof fn round_trips_in_engine(
    s: EngineView,
    deposit: Transaction,
    dispute: Transaction,
    resolve: Transaction,
    chargeback: Transaction,
)
    requires
        s.wf(),
        !s.ledger.contains_key(deposit.id),
        !wallet_or_new(s.wallets, deposit.client).locked,
        deposit.kind == Type::Deposit,
        !deposit.under_dispute,
        dispute.kind == Type::Dispute,
        dispute.id == deposit.id,
        dispute.client == deposit.client,
        resolve.kind == Type::Resolve,
        resolve.id == deposit.id,
        resolve.client == deposit.client,
        chargeback.kind == Type::Chargeback,
        chargeback.id == deposit.id,
        chargeback.client == deposit.client,
    ensures
        ({
            let c = deposit.client;
            let deposited = s.process(deposit);
            let disputed = deposited.process(dispute);
            let resolved = disputed.process(resolve);
            let charged = disputed.process(chargeback);
            &&& s.outcome(deposit) == Outcome::Applied
            &&& deposited.outcome(dispute) == Outcome::Applied
            &&& disputed.outcome(resolve) == Outcome::Applied
            &&& disputed.outcome(chargeback) == Outcome::Applied
            &&& disputed.wallets[c].available == deposited.wallets[c].available - deposit.amount
            &&& disputed.wallets[c].held == deposited.wallets[c].held + deposit.amount
            &&& resolved == deposited
            &&& charged.wallets[c].total == deposited.wallets[c].total - deposit.amount
            &&& charged.wallets[c].locked
        }),
{
    let c = deposit.client;
    let w = wallet_or_new(s.wallets, c);
    if s.wallets.contains_key(c) {
        assert(s.wallet_ok(c));
    }
    deposit_dispute_resolve(w, deposit, dispute, resolve);
    deposit_dispute_chargeback(w, deposit, dispute, chargeback);
    let deposited = s.process(deposit);
    let disputed = deposited.process(dispute);
    let resolved = disputed.process(resolve);
    assert(resolved.wallets =~= deposited.wallets);
}

/// A client cannot dispute what another client issued: where the ledger
/// has the transaction under another client's name, the dispute is
/// rejected, as an access violation unless the wallet is locked. The
/// ledger and every wallet stay as they were; at most an empty wallet is
/// made for a client that had none.
pub proof fn foreign_dispute_rejected(s: EngineView, t: Transaction)
    requires
        s.wf(),
        t.kind == Type::Dispute,
        s.ledger.contains_key(t.id),
        s.ledger[t.id].client != t.client,
    ensures
        s.outcome(t) is Rejected,
        !wallet_or_new(s.wallets, t.client).locked ==> s.outcome(t) == Outcome::Rejected(
            Error::AccessViolation(t.client, t.id),
        ),
        s.process(t).ledger == s.ledger,
        s.process(t).wallets == s.wallets.insert(t.client, wallet_or_new(s.wallets, t.client)),
        forall|c: u16| #[trigger]
            s.wallets.contains_key(c) ==> s.process(t).wallets[c] == s.wallets[c],
{
    if s.wallets.contains_key(t.client) {
        assert(s.wallet_ok(t.client));
    }
}

/// A transaction that is under dispute cannot be disputed again: after an
/// accepted dispute, a second one of the same transaction is rejected and
/// changes nothing.
pub proof fn second_dispute_rejected(s: EngineView, first: Transaction, second: Transaction)
    requires
        first.kind == Type::Dispute,
        s.outcome(first) == Outcome::Applied,
        second.kind == Type::Dispute,
        second.id == first.id,
        second.client == first.client,
    ensures
        s.process(first).outcome(second) == Outcome::Rejected(Error::MultipleDispute(first.id)),
        s.process(first).process(second) == s.process(first),
{
    let once = s.process(first);
    let w = once.wallets[first.client];
    assert(once.wallets.insert(first.client, w) =~= once.wallets);
}

/// An accepted chargeback locks the wallet of its client.
pub proof fn chargeback_locks(s: EngineView, t: Transaction)
    requires
        t.kind == Type::Chargeback,
        s.outcome(t) == Outcome::Applied,
    ensures
        s.process(t).wallets.contains_key(t.client),
        s.process(t).wallets[t.client].locked,
{
}

/// A locked wallet accepts nothing: a record of any type for its client
/// is rejected, or dropped as a duplicate, and the engine stays as it was.
pub proof fn locked_wallet_rejects(s: EngineView, t: Transaction)
    requires
        s.wallets.contains_key(t.client),
        s.wallets[t.client].locked,
    ensures
        s.process(t) == s,
        s.outcome(t) == (if s.duplicate(t) {
            Outcome::Duplicate
        } else {
            Outcome::Rejected(Error::WalletLocked(t.client))
        }),
{
    assert(s.wallets.insert(t.client, s.wallets[t.client]) =~= s.wallets);
}

/// A locked wallet is terminal: whatever records follow, for this client
/// or for others, the wallet stays exactly as it was when it was locked.
pub proof fn locked_wallet_never_changes(s: EngineView, ts: Seq<Transaction>, c: u16)
    requires
        s.wallets.contains_key(c),
        s.wallets[c].locked,
    ensures
        s.run(ts).wallets.contains_key(c),
        s.run(ts).wallets[c] == s.wallets[c],
    decreases ts.len(),
{
    if ts.len() > 0 {
        locked_wallet_never_changes(s, ts.drop_last(), c);
        let before = s.run(ts.drop_last());
        if ts.last().client == c {
            locked_wallet_rejects(before, ts.last());
        }
    }
}

} // verus!
