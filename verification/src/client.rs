//! Wallets: the balances of one client with the transactions it issued,
//! and the registry that holds one wallet per client.
use crate::error::{Error, Result};
use crate::transaction::{log_flagged, Transaction, TransactionLog};
use std::collections::HashMap;
use vstd::prelude::*;

verus! {

broadcast use vstd::std_specs::hash::group_hash_axioms;

/// What a wallet is, mathematically: three balances in ten-thousandths,
/// the lock, and the transactions that the client issued, by id.
pub struct WalletView {
    pub id: u16,
    pub available: nat,
    pub held: nat,
    pub total: nat,
    pub locked: bool,
    pub issued: Map<u32, Transaction>,
}

impl WalletView {
    /// The wallet of a client that has done nothing yet.
    pub open spec fn empty(id: u16) -> WalletView {
        WalletView { id, available: 0, held: 0, total: 0, locked: false, issued: Map::empty() }
    }

    /// The balance identity: the total is what is available plus what is held.
    pub open spec fn wf(self) -> bool {
        self.total == self.available + self.held
    }

    /// The total is covered by the records: no more than the largest amount
    /// for each recorded transaction. This is what keeps the balances
    /// within the machine's integers.
    pub open spec fn backed(self) -> bool {
        &&& self.issued.dom().finite()
        &&& self.total <= self.issued.len() * u64::MAX
    }

    /// The amount is added to what is available and to the total.
    pub open spec fn credit(self, amount: nat) -> WalletView {
        WalletView { available: self.available + amount, total: self.total + amount, ..self }
    }

    /// The amount is taken from what is available and from the total.
    pub open spec fn debit(self, amount: nat) -> WalletView
        recommends
            amount <= self.available,
            self.wf(),
    {
        WalletView {
            available: (self.available - amount) as nat,
            total: (self.total - amount) as nat,
            ..self
        }
    }

    /// The amount moves from available to held; the total stays.
    pub open spec fn hold(self, amount: nat) -> WalletView
        recommends
            amount <= self.available,
    {
        WalletView {
            available: (self.available - amount) as nat,
            held: self.held + amount,
            ..self
        }
    }

    /// The amount moves from held back to available; the total stays.
    pub open spec fn release(self, amount: nat) -> WalletView
        recommends
            amount <= self.held,
    {
        WalletView {
            held: (self.held - amount) as nat,
            available: self.available + amount,
            ..self
        }
    }

    /// The amount is taken from what is held and from the total; what is
    /// available stays.
    pub open spec fn confiscate(self, amount: nat) -> WalletView
        recommends
            amount <= self.held,
            self.wf(),
    {
        WalletView {
            held: (self.held - amount) as nat,
            total: (self.total - amount) as nat,
            ..self
        }
    }

    /// The wallet, locked.
    pub open spec fn lock(self) -> WalletView {
        WalletView { locked: true, ..self }
    }

    /// The wallet with `t` stored under its id.
    pub open spec fn record(self, t: Transaction) -> WalletView {
        WalletView { issued: self.issued.insert(t.id, t), ..self }
    }

    /// The wallet with the dispute flag of `tx_id` set to `flag`, if the
    /// wallet holds that transaction.
    pub open spec fn flag(self, tx_id: u32, flag: bool) -> WalletView {
        WalletView { issued: log_flagged(self.issued, tx_id, flag), ..self }
    }
}

/// Represents a Client's state
#[derive(Debug)]
pub struct Client {
    id: u16,
    available_balance: u128,
    held_balance: u128,
    total_balance: u128,
    locked: bool,
    issued: TransactionLog,
}

impl View for Client {
    type V = WalletView;

    closed spec fn view(&self) -> WalletView {
        WalletView {
            id: self.id,
            available: self.available_balance as nat,
            held: self.held_balance as nat,
            total: self.total_balance as nat,
            locked: self.locked,
            issued: self.issued@,
        }
    }
}

impl Client {
    /// An empty, unlocked wallet for the client `id`.
    pub fn with_id(id: u16) -> (c: Client)
        ensures
            c@ == WalletView::empty(id),
    {
        Client {
            id,
            available_balance: 0,
            held_balance: 0,
            total_balance: 0,
            locked: false,
            issued: TransactionLog::new(),
        }
    }

    /// Add funds to the client's balance
    /// This function updates the client's available and total balance
    pub fn credit(&mut self, amount: u64)
        requires
            old(self)@.wf(),
            old(self)@.total + amount <= u128::MAX,
        ensures
            final(self)@ == old(self)@.credit(amount as nat),
            final(self)@.wf(),
    {
        self.available_balance += amount as u128;
        self.total_balance += amount as u128;
    }

    /// Take away from the client's balance
    /// This function updates the client's available and total balance
    ///
    /// # Note
    /// This function does prevent debiting more than the available balance
    pub fn debit(&mut self, amount: u64) -> (r: Result<()>)
        requires
            old(self)@.wf(),
        ensures
            amount <= old(self)@.available ==> r == Ok::<(), Error>(()) && final(self)@ == old(
                self,
            )@.debit(amount as nat),
            amount > old(self)@.available ==> r == Err::<(), Error>(Error::InssuficientFunds)
                && final(self)@ == old(self)@,
            final(self)@.wf(),
    {
        if amount as u128 > self.available_balance {
            return Err(Error::InssuficientFunds);
        }
        self.available_balance -= amount as u128;
        self.total_balance -= amount as u128;
        Ok(())
    }

    /// Put some of the client's funds in holding
    /// This function updates the client's available and held balance
    pub fn hold(&mut self, amount: u64) -> (r: Result<()>)
        requires
            old(self)@.wf(),
        ensures
            amount <= old(self)@.available ==> r == Ok::<(), Error>(()) && final(self)@ == old(
                self,
            )@.hold(amount as nat),
            amount > old(self)@.available ==> r == Err::<(), Error>(Error::InssuficientFunds)
                && final(self)@ == old(self)@,
            final(self)@.wf(),
    {
        if amount as u128 > self.available_balance {
            return Err(Error::InssuficientFunds);
        }
        self.available_balance -= amount as u128;
        self.held_balance += amount as u128;
        Ok(())
    }

    /// Put funds from holding back into the available balance
    pub fn release(&mut self, amount: u64) -> (r: Result<()>)
        requires
            old(self)@.wf(),
        ensures
            amount <= old(self)@.held ==> r == Ok::<(), Error>(()) && final(self)@ == old(
                self,
            )@.release(amount as nat),
            amount > old(self)@.held ==> r == Err::<(), Error>(Error::InssuficientFunds)
                && final(self)@ == old(self)@,
            final(self)@.wf(),
    {
        if self.held_balance < amount as u128 {
            return Err(Error::InssuficientFunds);
        }
        self.held_balance -= amount as u128;
        self.available_balance += amount as u128;
        Ok(())
    }

    /// Remove `amount` of funds from holding, deceasing total balance.
    pub fn confiscate(&mut self, amount: u64) -> (r: Result<()>)
        requires
            old(self)@.wf(),
        ensures
            amount <= old(self)@.held ==> r == Ok::<(), Error>(()) && final(self)@ == old(
                self,
            )@.confiscate(amount as nat),
            amount > old(self)@.held ==> r == Err::<(), Error>(Error::InssuficientFunds)
                && final(self)@ == old(self)@,
            final(self)@.wf(),
    {
        if self.held_balance < amount as u128 {
            return Err(Error::InssuficientFunds);
        }
        self.held_balance -= amount as u128;
        self.total_balance -= amount as u128;
        Ok(())
    }

    /// Stores a transaction that the client issued, keyed by its id.
    /// The id must be new to this wallet.
    pub fn record_tx(&mut self, t: &Transaction)
        requires
            !old(self)@.issued.contains_key(t.id),
        ensures
            final(self)@ == old(self)@.record(*t),
    {
        self.issued.push(t);
    }

    /// The transaction that the client issued under this id, if any.
    pub fn get_tx(&self, tx_id: u32) -> (r: Option<Transaction>)
        ensures
            r == self@.issued.get(tx_id),
    {
        match self.issued.find(tx_id) {
            Some(t) => Some(*t),
            None => None,
        }
    }

    /// Marks a transaction of this client as under dispute.
    pub fn dispute_tx(&mut self, tx_id: u32)
        ensures
            final(self)@ == old(self)@.flag(tx_id, true),
    {
        self.issued.dispute(tx_id);
    }

    /// Takes the dispute mark off a transaction of this client.
    pub fn undispute_tx(&mut self, tx_id: u32)
        ensures
            final(self)@ == old(self)@.flag(tx_id, false),
    {
        self.issued.undispute(tx_id);
    }

    /// Get the client's id
    pub fn id(&self) -> (id: u16)
        ensures
            id == self@.id,
    {
        self.id
    }

    /// Lock a client
    pub fn lock(&mut self)
        ensures
            final(self)@ == old(self)@.lock(),
    {
        self.locked = true;
    }

    /// Whether the wallet is locked.
    pub fn locked(&self) -> (r: bool)
        ensures
            r == self@.locked,
    {
        self.locked
    }

    /// How many transactions the wallet has recorded.
    pub fn issued_len(&self) -> (n: usize)
        ensures
            n == self@.issued.len(),
            self@.issued.dom().finite(),
    {
        self.issued.len()
    }

    /// What the client can spend, in ten-thousandths.
    pub fn available_balance(&self) -> (r: u128)
        ensures
            r == self@.available,
    {
        self.available_balance
    }

    /// What is held under dispute, in ten-thousandths.
    pub fn held_balance(&self) -> (r: u128)
        ensures
            r == self@.held,
    {
        self.held_balance
    }

    /// Available and held together, in ten-thousandths.
    pub fn total_balance(&self) -> (r: u128)
        ensures
            r == self@.total,
    {
        self.total_balance
    }
}

/// The wallet of a client in a registry: the one that is there, or else
/// an empty one.
pub open spec fn wallet_or_new(wallets: Map<u16, WalletView>, client_id: u16) -> WalletView {
    if wallets.contains_key(client_id) {
        wallets[client_id]
    } else {
        WalletView::empty(client_id)
    }
}

/// One row of the balance report.
#[derive(Debug, Clone, Copy, PartialEq, Eq, Structural)]
pub struct Balance {
    pub client: u16,
    pub available: u128,
    pub held: u128,
    pub total: u128,
    pub locked: bool,
}

impl Balance {
    /// The row gives the balances and the lock of the wallet.
    pub open spec fn describes(self, w: WalletView) -> bool {
        &&& self.available == w.available
        &&& self.held == w.held
        &&& self.total == w.total
        &&& self.locked == w.locked
    }
}

/// The registry of wallets: one per client, made when the client is first
/// referred to.
#[derive(Debug)]
pub struct ClientWallets {
    wallets: HashMap<u16, Client>,
}

impl View for ClientWallets {
    type V = Map<u16, WalletView>;

    closed spec fn view(&self) -> Map<u16, WalletView> {
        wallet_views(self.wallets@)
    }
}

/// The registry as a map of wallet views.
spec fn wallet_views(m: Map<u16, Client>) -> Map<u16, WalletView> {
    m.map_values(|c: Client| c@)
}

/// Putting a wallet into the registry puts its view into the registry's view.
proof fn lemma_wallet_views_insert(m: Map<u16, Client>, client_id: u16, c: Client)
    ensures
        wallet_views(m.insert(client_id, c)) == wallet_views(m).insert(client_id, c@),
        wallet_views(m).dom() == m.dom(),
        m.contains_key(client_id) ==> wallet_views(m)[client_id] == m[client_id]@,
{
    assert(wallet_views(m.insert(client_id, c)) =~= wallet_views(m).insert(client_id, c@));
    assert(wallet_views(m).dom() =~= m.dom());
}

impl ClientWallets {
    /// A registry without wallets.
    pub fn new() -> (r: ClientWallets)
        ensures
            r@ == Map::<u16, WalletView>::empty(),
    {
        let r = ClientWallets { wallets: HashMap::new() };
        assert(r@ =~= Map::<u16, WalletView>::empty());
        r
    }

    /// The wallet of `client_id`, made empty if the client is new. What the
    /// caller does to the wallet is what the registry holds afterwards.
    pub fn get_or_create_mut(&mut self, client_id: u16) -> (w: &mut Client)
        ensures
            w@ == wallet_or_new(old(self)@, client_id),
            final(self)@ == old(self)@.insert(client_id, final(w)@),
    {
        let ghost before = self.wallets@;
        let w = self.wallets.entry(client_id).or_insert(Client::with_id(client_id));
        proof {
            lemma_wallet_views_insert(before, client_id, *final(w));
        }
        w
    }

    /// The wallet of `client_id`, if the client has one.
    pub fn get(&self, client_id: u16) -> (r: Option<&Client>)
        ensures
            match r {
                Some(w) => self@.contains_key(client_id) && w@ == self@[client_id],
                None => !self@.contains_key(client_id),
            },
    {
        self.wallets.get(&client_id)
    }

    /// How many clients have a wallet.
    pub fn len(&self) -> (n: usize)
        ensures
            n == self@.len(),
            self@.dom().finite(),
    {
        assert(self@.dom() =~= self.wallets@.dom());
        self.wallets.len()
    }

    /// The balance report: one row for each wallet, by ascending client id.
    pub fn balances(&self) -> (rows: Vec<Balance>)
        ensures
            forall|i: int|
                0 <= i < rows.len() ==> self@.contains_key(#[trigger] rows[i].client)
                    && rows[i].describes(self@[rows[i].client]),
            forall|i: int, j: int|
                0 <= i < j < rows.len() ==> (#[trigger] rows[i]).client < (#[trigger] rows[j]).client,
            forall|c: u16| #[trigger]
                self@.contains_key(c) ==> exists|i: int|
                    0 <= i < rows.len() && (#[trigger] rows[i]).client == c,
    {
        let mut rows: Vec<Balance> = Vec::new();
        let mut c: u32 = 0;
        while c <= 65535
            invariant
                c <= 65536,
                forall|i: int|
                    0 <= i < rows.len() ==> self@.contains_key(#[trigger] rows[i].client)
                        && rows[i].describes(self@[rows[i].client]) && rows[i].client < c,
                forall|i: int, j: int|
                    0 <= i < j < rows.len() ==> (#[trigger] rows[i]).client < (
                    #[trigger] rows[j]).client,
                forall|k: u16| #[trigger]
                    self@.contains_key(k) && k < c ==> exists|i: int|
                        0 <= i < rows.len() && (#[trigger] rows[i]).client == k,
            decreases 65536 - c,
        {
            let id: u16 = c as u16;
            match self.get(id) {
                Some(w) => {
                    let row = Balance {
                        client: id,
                        available: w.available_balance(),
                        held: w.held_balance(),
                        total: w.total_balance(),
                        locked: w.locked(),
                    };
                    let ghost before = rows@;
                    rows.push(row);
                    proof {
                        assert(rows@[before.len() as int] == row);
                        assert forall|k: u16| #[trigger]
                            self@.contains_key(k) && k < c + 1 implies exists|i: int|
                            0 <= i < rows.len() && (#[trigger] rows[i]).client == k by {
                            if k < c {
                                let i = choose|i: int|
                                    0 <= i < before.len() && (#[trigger] before[i]).client == k;
                                assert(rows[i].client == k);
                            } else {
                                assert(rows[before.len() as int].client == k);
                            }
                        }
                    }
                },
                None => {},
            }
            c = c + 1;
        }
        rows
    }
}

} // verus!
