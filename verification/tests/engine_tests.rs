use pay_engine::client::{Balance, Client};
use pay_engine::engine::{
    chargeback, deposit, dispute, execute_transaction, resolve, withdraw, Engine, Outcome,
};
use pay_engine::error::Error;
use pay_engine::transaction::{Transaction, Type};

fn tx(kind: Type, client: u16, id: u32, amount: u64) -> Transaction {
    Transaction::new(kind, client, id, amount)
}

fn row(engine: &Engine, client: u16) -> Balance {
    let w = engine.wallets().get(client).expect("the client has a wallet");
    Balance {
        client: w.id(),
        available: w.available_balance(),
        held: w.held_balance(),
        total: w.total_balance(),
        locked: w.locked(),
    }
}

fn balance(client: u16, available: u128, held: u128, total: u128, locked: bool) -> Balance {
    Balance { client, available, held, total, locked }
}

#[test]
fn deposit_dispute_chargeback_then_locked() {
    let mut engine = Engine::new();
    assert_eq!(engine.process(&tx(Type::Deposit, 1, 1, 1_000_000)), Outcome::Applied);
    assert_eq!(row(&engine, 1), balance(1, 1_000_000, 0, 1_000_000, false));
    assert_eq!(engine.process(&tx(Type::Dispute, 1, 1, 0)), Outcome::Applied);
    assert_eq!(row(&engine, 1), balance(1, 0, 1_000_000, 1_000_000, false));
    assert_eq!(engine.process(&tx(Type::Chargeback, 1, 1, 0)), Outcome::Applied);
    assert_eq!(row(&engine, 1), balance(1, 0, 0, 0, true));
    assert_eq!(
        engine.process(&tx(Type::Deposit, 1, 2, 50_000)),
        Outcome::Rejected(Error::WalletLocked(1))
    );
    assert_eq!(row(&engine, 1), balance(1, 0, 0, 0, true));
    assert_eq!(engine.valid_transactions(), 1);
}

#[test]
fn same_deposit_twice_counts_once() {
    let mut once = Engine::new();
    once.process(&tx(Type::Deposit, 1, 1, 500));
    let mut twice = Engine::new();
    assert_eq!(twice.process(&tx(Type::Deposit, 1, 1, 500)), Outcome::Applied);
    assert_eq!(twice.process(&tx(Type::Deposit, 1, 1, 500)), Outcome::Duplicate);
    assert_eq!(row(&twice, 1), row(&once, 1));
    assert_eq!(row(&twice, 1), balance(1, 500, 0, 500, false));
    assert_eq!(twice.valid_transactions(), 1);
}

#[test]
fn same_withdrawal_twice_counts_once() {
    let mut engine = Engine::new();
    engine.process(&tx(Type::Deposit, 1, 1, 500));
    assert_eq!(engine.process(&tx(Type::Withdrawal, 1, 2, 200)), Outcome::Applied);
    assert_eq!(engine.process(&tx(Type::Withdrawal, 1, 2, 200)), Outcome::Duplicate);
    assert_eq!(row(&engine, 1), balance(1, 300, 0, 300, false));
    assert_eq!(engine.valid_transactions(), 2);
}

#[test]
fn known_id_is_dropped_for_any_client() {
    let mut engine = Engine::new();
    engine.process(&tx(Type::Deposit, 1, 1, 500));
    assert_eq!(engine.process(&tx(Type::Deposit, 2, 1, 900)), Outcome::Duplicate);
    assert_eq!(engine.process(&tx(Type::Withdrawal, 1, 1, 100)), Outcome::Duplicate);
    assert!(engine.wallets().get(2).is_none());
    assert_eq!(engine.wallets().balances(), vec![balance(1, 500, 0, 500, false)]);
}

#[test]
fn rejected_withdrawal_is_not_recorded() {
    let mut engine = Engine::new();
    assert_eq!(
        engine.process(&tx(Type::Withdrawal, 1, 1, 100)),
        Outcome::Rejected(Error::InssuficientFunds)
    );
    assert_eq!(row(&engine, 1), balance(1, 0, 0, 0, false));
    assert_eq!(engine.valid_transactions(), 0);
    assert_eq!(engine.wallets().get(1).unwrap().get_tx(1), None);
    assert_eq!(engine.process(&tx(Type::Deposit, 1, 1, 100)), Outcome::Applied);
    assert_eq!(row(&engine, 1), balance(1, 100, 0, 100, false));
}

#[test]
fn dispute_then_resolve_restores_balances() {
    let mut engine = Engine::new();
    engine.process(&tx(Type::Deposit, 1, 1, 700));
    engine.process(&tx(Type::Deposit, 1, 2, 300));
    let before = row(&engine, 1);
    assert_eq!(engine.process(&tx(Type::Dispute, 1, 2, 0)), Outcome::Applied);
    assert_eq!(row(&engine, 1), balance(1, 700, 300, 1000, false));
    assert!(engine.wallets().get(1).unwrap().get_tx(2).unwrap().under_dispute());
    assert_eq!(engine.process(&tx(Type::Resolve, 1, 2, 0)), Outcome::Applied);
    assert_eq!(row(&engine, 1), before);
    assert!(!engine.wallets().get(1).unwrap().get_tx(2).unwrap().under_dispute());
    assert_eq!(engine.valid_transactions(), 2);
}

#[test]
fn dispute_then_chargeback_reduces_total_and_locks() {
    let mut engine = Engine::new();
    engine.process(&tx(Type::Deposit, 1, 1, 700));
    engine.process(&tx(Type::Deposit, 1, 2, 300));
    engine.process(&tx(Type::Dispute, 1, 2, 0));
    assert_eq!(engine.process(&tx(Type::Chargeback, 1, 2, 0)), Outcome::Applied);
    assert_eq!(row(&engine, 1), balance(1, 700, 0, 700, true));
    assert!(!engine.wallets().get(1).unwrap().get_tx(2).unwrap().under_dispute());
}

#[test]
fn dispute_of_foreign_transaction_is_rejected() {
    let mut engine = Engine::new();
    engine.process(&tx(Type::Deposit, 1, 1, 700));
    engine.process(&tx(Type::Deposit, 2, 2, 300));
    assert_eq!(
        engine.process(&tx(Type::Dispute, 2, 1, 0)),
        Outcome::Rejected(Error::AccessViolation(2, 1))
    );
    assert_eq!(row(&engine, 1), balance(1, 700, 0, 700, false));
    assert_eq!(row(&engine, 2), balance(2, 300, 0, 300, false));
    assert!(!engine.wallets().get(1).unwrap().get_tx(1).unwrap().under_dispute());
}

#[test]
fn reference_to_unknown_transaction_is_rejected() {
    let mut engine = Engine::new();
    engine.process(&tx(Type::Deposit, 1, 1, 700));
    assert_eq!(
        engine.process(&tx(Type::Dispute, 1, 9, 0)),
        Outcome::Rejected(Error::AccessViolation(1, 9))
    );
    assert_eq!(
        engine.process(&tx(Type::Resolve, 1, 9, 0)),
        Outcome::Rejected(Error::AccessViolation(1, 9))
    );
    assert_eq!(
        engine.process(&tx(Type::Chargeback, 3, 9, 0)),
        Outcome::Rejected(Error::AccessViolation(3, 9))
    );
    assert_eq!(row(&engine, 1), balance(1, 700, 0, 700, false));
    assert_eq!(row(&engine, 3), balance(3, 0, 0, 0, false));
}

#[test]
fn second_dispute_is_rejected() {
    let mut engine = Engine::new();
    engine.process(&tx(Type::Deposit, 1, 1, 700));
    assert_eq!(engine.process(&tx(Type::Dispute, 1, 1, 0)), Outcome::Applied);
    let before = row(&engine, 1);
    assert_eq!(
        engine.process(&tx(Type::Dispute, 1, 1, 0)),
        Outcome::Rejected(Error::MultipleDispute(1))
    );
    assert_eq!(row(&engine, 1), before);
    assert_eq!(before, balance(1, 0, 700, 700, false));
}

#[test]
fn resolve_and_chargeback_need_a_dispute() {
    let mut engine = Engine::new();
    engine.process(&tx(Type::Deposit, 4, 1, 700));
    assert_eq!(
        engine.process(&tx(Type::Resolve, 4, 1, 0)),
        Outcome::Rejected(Error::ResolveUndisputed(4, 1))
    );
    assert_eq!(
        engine.process(&tx(Type::Chargeback, 4, 1, 0)),
        Outcome::Rejected(Error::ChargebackUndisputed(4, 1))
    );
    assert_eq!(row(&engine, 4), balance(4, 700, 0, 700, false));
}

#[test]
fn dispute_without_enough_available_changes_nothing() {
    let mut engine = Engine::new();
    engine.process(&tx(Type::Deposit, 1, 1, 1000));
    engine.process(&tx(Type::Withdrawal, 1, 2, 600));
    assert_eq!(
        engine.process(&tx(Type::Dispute, 1, 1, 0)),
        Outcome::Rejected(Error::InssuficientFunds)
    );
    assert_eq!(row(&engine, 1), balance(1, 400, 0, 400, false));
    assert!(!engine.wallets().get(1).unwrap().get_tx(1).unwrap().under_dispute());
    assert_eq!(
        engine.process(&tx(Type::Dispute, 1, 1, 0)),
        Outcome::Rejected(Error::InssuficientFunds)
    );
}

#[test]
fn withdrawal_can_be_disputed() {
    let mut engine = Engine::new();
    engine.process(&tx(Type::Deposit, 1, 1, 1000));
    engine.process(&tx(Type::Withdrawal, 1, 2, 300));
    assert_eq!(engine.process(&tx(Type::Dispute, 1, 2, 0)), Outcome::Applied);
    assert_eq!(row(&engine, 1), balance(1, 400, 300, 700, false));
}

#[test]
fn record_that_arrives_marked_cannot_be_resolved_without_held_funds() {
    let mut engine = Engine::new();
    let marked = Transaction {
        kind: Type::Deposit,
        client: 1,
        id: 1,
        amount: 500,
        under_dispute: true,
    };
    assert_eq!(engine.process(&marked), Outcome::Applied);
    assert_eq!(
        engine.process(&tx(Type::Dispute, 1, 1, 0)),
        Outcome::Rejected(Error::MultipleDispute(1))
    );
    assert_eq!(
        engine.process(&tx(Type::Resolve, 1, 1, 0)),
        Outcome::Rejected(Error::InssuficientFunds)
    );
    assert_eq!(
        engine.process(&tx(Type::Chargeback, 1, 1, 0)),
        Outcome::Rejected(Error::InssuficientFunds)
    );
    assert_eq!(row(&engine, 1), balance(1, 500, 0, 500, false));
}

#[test]
fn locked_wallet_rejects_every_type() {
    let mut engine = Engine::new();
    engine.process(&tx(Type::Deposit, 1, 1, 700));
    engine.process(&tx(Type::Deposit, 1, 2, 300));
    engine.process(&tx(Type::Dispute, 1, 1, 0));
    engine.process(&tx(Type::Chargeback, 1, 1, 0));
    let locked = row(&engine, 1);
    assert_eq!(locked, balance(1, 300, 0, 300, true));
    for kind in [
        Type::Deposit,
        Type::Withdrawal,
        Type::Dispute,
        Type::Resolve,
        Type::Chargeback,
    ] {
        assert_eq!(
            engine.process(&tx(kind, 1, 10, 100)),
            Outcome::Rejected(Error::WalletLocked(1))
        );
        assert_eq!(row(&engine, 1), locked);
    }
    assert_eq!(
        engine.process(&tx(Type::Dispute, 1, 2, 0)),
        Outcome::Rejected(Error::WalletLocked(1))
    );
    assert_eq!(engine.process(&tx(Type::Deposit, 1, 2, 100)), Outcome::Duplicate);
    assert_eq!(row(&engine, 1), locked);
    assert_eq!(engine.valid_transactions(), 2);
    assert_eq!(engine.process(&tx(Type::Deposit, 2, 10, 100)), Outcome::Applied);
    assert_eq!(row(&engine, 2), balance(2, 100, 0, 100, false));
}

#[test]
fn run_applies_records_in_order() {
    let records = vec![
        tx(Type::Deposit, 2, 1, 20_000),
        tx(Type::Deposit, 1, 2, 10_000),
        tx(Type::Withdrawal, 1, 3, 15_000),
        tx(Type::Deposit, 1, 4, 10_000),
        tx(Type::Withdrawal, 1, 5, 15_000),
        tx(Type::Dispute, 2, 1, 0),
        tx(Type::Deposit, 2, 1, 20_000),
    ];
    let mut engine = Engine::new();
    let rows = engine.run(&records).balances();
    assert_eq!(
        rows,
        vec![
            balance(1, 5_000, 0, 5_000, false),
            balance(2, 0, 20_000, 20_000, false),
        ]
    );
    assert_eq!(engine.valid_transactions(), 4);

    let mut stepwise = Engine::new();
    for t in records.iter() {
        stepwise.process(t);
    }
    assert_eq!(stepwise.wallets().balances(), rows);
}

#[test]
fn run_of_nothing_changes_nothing() {
    let mut engine = Engine::new();
    assert_eq!(engine.run(&vec![]).len(), 0);
    assert_eq!(engine.valid_transactions(), 0);
}

#[test]
fn execute_tells_what_to_enter_in_the_ledger() {
    let mut wallet = Client::with_id(1);
    let d = tx(Type::Deposit, 1, 1, 700);
    assert_eq!(execute_transaction(&d, &mut wallet), Ok(Some(d)));
    let w = tx(Type::Withdrawal, 1, 2, 200);
    assert_eq!(execute_transaction(&w, &mut wallet), Ok(Some(w)));
    assert_eq!(execute_transaction(&tx(Type::Dispute, 1, 2, 0), &mut wallet), Ok(None));
    assert_eq!(wallet.held_balance(), 200);
    assert_eq!(execute_transaction(&tx(Type::Resolve, 1, 2, 0), &mut wallet), Ok(None));
    assert_eq!(
        execute_transaction(&tx(Type::Withdrawal, 1, 3, 501), &mut wallet),
        Err(Error::InssuficientFunds)
    );
    assert_eq!(wallet.available_balance(), 500);
    assert_eq!(wallet.issued_len(), 2);
}

#[test]
fn rules_on_a_single_wallet() {
    let mut wallet = Client::with_id(8);
    assert_eq!(deposit(&tx(Type::Deposit, 8, 1, 900), &mut wallet), Ok(()));
    assert_eq!(
        withdraw(&tx(Type::Withdrawal, 8, 2, 901), &mut wallet),
        Err(Error::InssuficientFunds)
    );
    assert_eq!(withdraw(&tx(Type::Withdrawal, 8, 2, 400), &mut wallet), Ok(()));
    assert_eq!(
        dispute(&tx(Type::Dispute, 9, 1, 0), &mut wallet),
        Err(Error::AccessViolation(9, 1))
    );
    assert_eq!(
        dispute(&tx(Type::Dispute, 8, 1, 0), &mut wallet),
        Err(Error::InssuficientFunds)
    );
    assert_eq!(dispute(&tx(Type::Dispute, 8, 2, 0), &mut wallet), Ok(()));
    assert_eq!(wallet.available_balance(), 100);
    assert_eq!(wallet.held_balance(), 400);
    assert_eq!(
        resolve(&tx(Type::Resolve, 8, 1, 0), &mut wallet),
        Err(Error::ResolveUndisputed(8, 1))
    );
    assert_eq!(resolve(&tx(Type::Resolve, 8, 2, 0), &mut wallet), Ok(()));
    assert_eq!(wallet.available_balance(), 500);
    assert_eq!(wallet.held_balance(), 0);
    assert_eq!(dispute(&tx(Type::Dispute, 8, 2, 0), &mut wallet), Ok(()));
    assert_eq!(
        chargeback(&tx(Type::Chargeback, 8, 1, 0), &mut wallet),
        Err(Error::ChargebackUndisputed(8, 1))
    );
    assert_eq!(chargeback(&tx(Type::Chargeback, 8, 2, 0), &mut wallet), Ok(()));
    assert_eq!(wallet.available_balance(), 100);
    assert_eq!(wallet.held_balance(), 0);
    assert_eq!(wallet.total_balance(), 100);
    assert!(wallet.locked());
}
