//! The account store, the two transaction ledgers, and the processor that
//! applies one transaction record at a time to them.
use crate::model::{
    chargeback_step, deposit_step, dispute_step, empty_state, lemma_run_balanced,
    lemma_run_disputes_applied, resolve_step, run, step, withdrawal_step, LedgerState,
};
use crate::types::{Account, DiscardReason, Disposition, Transaction, TransactionType};
use std::collections::HashMap;
use vstd::prelude::*;

verus! {

broadcast use vstd::std_specs::hash::group_hash_axioms;

/// The account store: client id to account, filled on first deposit.
pub struct ClientList(HashMap<u16, Account>);

/// The applied-transaction ledger (`valid`) and the open-dispute ledger
/// (`disputes`, transaction id to the amount held).
pub struct Transactions {
    valid: HashMap<u32, Transaction>,
    disputes: HashMap<u32, i64>,
}

impl View for ClientList {
    type V = Map<u16, Account>;

    closed spec fn view(&self) -> Map<u16, Account> {
        self.0@
    }
}

impl Transactions {
    pub closed spec fn applied_map(&self) -> Map<u32, Transaction> {
        self.valid@
    }

    pub closed spec fn disputes_map(&self) -> Map<u32, i64> {
        self.disputes@
    }
}

/// The model state held by a transaction ledger and an account store.
pub open spec fn state_of(transactions: &Transactions, clients: &ClientList) -> LedgerState {
    LedgerState {
        accounts: clients@,
        applied: transactions.applied_map(),
        disputes: transactions.disputes_map(),
    }
}

/// `a + b` within the range of `i64`, if it lies there.
fn add_in_range(a: i64, b: i64) -> (r: Option<i64>)
    ensures
        r matches Some(v) ==> v == a + b,
        r is None <==> !(i64::MIN <= a + b <= i64::MAX),
{
    let v: i128 = a as i128 + b as i128;
    if v < i64::MIN as i128 || v > i64::MAX as i128 {
        None
    } else {
        Some(v as i64)
    }
}

/// `a - b` within the range of `i64`, if it lies there.
fn sub_in_range(a: i64, b: i64) -> (r: Option<i64>)
    ensures
        r matches Some(v) ==> v == a - b,
        r is None <==> !(i64::MIN <= a - b <= i64::MAX),
{
    let v: i128 = a as i128 - b as i128;
    if v < i64::MIN as i128 || v > i64::MAX as i128 {
        None
    } else {
        Some(v as i64)
    }
}

impl ClientList {
    /// An empty account store.
    pub fn new() -> (r: ClientList)
        ensures
            r@ == Map::<u16, Account>::empty(),
    {
        ClientList(HashMap::new())
    }

    /// The account of `client`, if it has one.
    pub fn get(&self, client: u16) -> (r: Option<Account>)
        ensures
            r == (if self@.contains_key(client) {
                Some(self@[client])
            } else {
                None
            }),
    {
        match self.0.get(&client) {
            Some(acc) => Some(*acc),
            None => None,
        }
    }

    /// The account of `client`, or a zeroed unlocked one if it has none; the
    /// store itself is left as it is.
    pub fn get_or_create(&self, client: u16) -> (r: Account)
        ensures
            r == (if self@.contains_key(client) {
                self@[client]
            } else {
                Account { available: 0, held: 0, total: 0, locked: false }
            }),
    {
        match self.0.get(&client) {
            Some(acc) => *acc,
            None => Account { available: 0, held: 0, total: 0, locked: false },
        }
    }

    /// Every account, keyed by client id, for presentation.
    pub fn accounts(&self) -> (r: &HashMap<u16, Account>)
        ensures
            r@ == self@,
    {
        &self.0
    }

    fn set(&mut self, client: u16, acc: Account)
        ensures
            final(self)@ == old(self)@.insert(client, acc),
    {
        self.0.insert(client, acc);
    }
}

impl Transactions {
    /// Empty ledgers.
    pub fn new() -> (r: Transactions)
        ensures
            r.applied_map() == Map::<u32, Transaction>::empty(),
            r.disputes_map() == Map::<u32, i64>::empty(),
    {
        Transactions { valid: HashMap::new(), disputes: HashMap::new() }
    }

    /// The applied deposit or withdrawal with id `tx`, if any.
    pub fn applied(&self, tx: u32) -> (r: Option<Transaction>)
        ensures
            r == (if self.applied_map().contains_key(tx) {
                Some(self.applied_map()[tx])
            } else {
                None
            }),
    {
        match self.valid.get(&tx) {
            Some(t) => Some(*t),
            None => None,
        }
    }

    /// The amount held by the open dispute on `tx`, if any.
    pub fn open_dispute(&self, tx: u32) -> (r: Option<i64>)
        ensures
            r == (if self.disputes_map().contains_key(tx) {
                Some(self.disputes_map()[tx])
            } else {
                None
            }),
    {
        match self.disputes.get(&tx) {
            Some(a) => Some(*a),
            None => None,
        }
    }
}

/// Applies a deposit: opens the client's account on a first deposit, else
/// credits it unless it is locked; an applied deposit is recorded under its
/// id, replacing any record applied earlier under the same id.
pub fn handle_deposit(t: Transaction, transactions: &mut Transactions, clients: &mut ClientList) -> (r:
    Disposition)
    ensures
        (state_of(final(transactions), final(clients)), r) == deposit_step(
            state_of(old(transactions), old(clients)),
            t,
        ),
{
    let a = match t.amount {
        Some(a) => a,
        None => {
            return Disposition::Discarded(DiscardReason::MissingAmount);
        },
    };
    let updated = match clients.get(t.client) {
        None => Account::opened_with(a),
        Some(acc) => {
            if acc.locked {
                return Disposition::Discarded(DiscardReason::AccountLocked);
            }
            match (add_in_range(acc.available, a), add_in_range(acc.total, a)) {
                (Some(available), Some(total)) => Account { available, total, ..acc },
                _ => {
                    return Disposition::Discarded(DiscardReason::Overflow);
                },
            }
        },
    };
    clients.set(t.client, updated);
    transactions.valid.insert(t.tx, t);
    Disposition::Applied
}

/// Applies a withdrawal: debits an existing unlocked account whose available
/// funds cover the amount; an applied withdrawal is recorded under its id.
pub fn handle_withdrawal(
    t: Transaction,
    transactions: &mut Transactions,
    clients: &mut ClientList,
) -> (r: Disposition)
    ensures
        (state_of(final(transactions), final(clients)), r) == withdrawal_step(
            state_of(old(transactions), old(clients)),
            t,
        ),
{
    let a = match t.amount {
        Some(a) => a,
        None => {
            return Disposition::Discarded(DiscardReason::MissingAmount);
        },
    };
    let acc = match clients.get(t.client) {
        Some(acc) => acc,
        None => {
            return Disposition::Discarded(DiscardReason::AccountNotFound);
        },
    };
    if acc.locked {
        return Disposition::Discarded(DiscardReason::AccountLocked);
    }
    if acc.available < a {
        return Disposition::Discarded(DiscardReason::InsufficientFunds);
    }
    match (sub_in_range(acc.available, a), sub_in_range(acc.total, a)) {
        (Some(available), Some(total)) => {
            clients.set(t.client, Account { available, total, ..acc });
            transactions.valid.insert(t.tx, t);
            Disposition::Applied
        },
        _ => Disposition::Discarded(DiscardReason::Overflow),
    }
}

/// Applies a dispute: holds the amount of the applied transaction it names
/// on the dispute's client and opens a dispute for it under that id.
///
/// The dispute's client is trusted as given: it is not compared with the
/// client of the referenced record. A second dispute on an id whose dispute
/// is still open holds the amount again and replaces the open entry.
pub fn handle_dispute(t: Transaction, transactions: &mut Transactions, clients: &mut ClientList) -> (r:
    Disposition)
    ensures
        (state_of(final(transactions), final(clients)), r) == dispute_step(
            state_of(old(transactions), old(clients)),
            t,
        ),
{
    let past = match transactions.applied(t.tx) {
        Some(past) => past,
        None => {
            return Disposition::Discarded(DiscardReason::UnknownTransaction);
        },
    };
    let acc = match clients.get(t.client) {
        Some(acc) => acc,
        None => {
            return Disposition::Discarded(DiscardReason::AccountNotFound);
        },
    };
    if acc.locked {
        return Disposition::Discarded(DiscardReason::AccountLocked);
    }
    let a = match past.amount {
        Some(a) => a,
        None => {
            return Disposition::Discarded(DiscardReason::MissingAmount);
        },
    };
    match (sub_in_range(acc.available, a), add_in_range(acc.held, a)) {
        (Some(available), Some(held)) => {
            clients.set(t.client, Account { available, held, ..acc });
            transactions.disputes.insert(t.tx, a);
            Disposition::Applied
        },
        _ => Disposition::Discarded(DiscardReason::Overflow),
    }
}

/// Applies a resolve: releases the amount of the open dispute it names back
/// to available funds and closes the dispute.
pub fn handle_resolve(t: Transaction, transactions: &mut Transactions, clients: &mut ClientList) -> (r:
    Disposition)
    ensures
        (state_of(final(transactions), final(clients)), r) == resolve_step(
            state_of(old(transactions), old(clients)),
            t,
        ),
{
    let a = match transactions.open_dispute(t.tx) {
        Some(a) => a,
        None => {
            return Disposition::Discarded(DiscardReason::NoOpenDispute);
        },
    };
    let acc = match clients.get(t.client) {
        Some(acc) => acc,
        None => {
            return Disposition::Discarded(DiscardReason::AccountNotFound);
        },
    };
    if acc.locked {
        return Disposition::Discarded(DiscardReason::AccountLocked);
    }
    match (add_in_range(acc.available, a), sub_in_range(acc.held, a)) {
        (Some(available), Some(held)) => {
            clients.set(t.client, Account { available, held, ..acc });
            transactions.disputes.remove(&t.tx);
            Disposition::Applied
        },
        _ => Disposition::Discarded(DiscardReason::Overflow),
    }
}

/// Applies a chargeback: removes the amount of the open dispute it names
/// from held and total funds, locks the account and closes the dispute.
pub fn handle_chargeback(
    t: Transaction,
    transactions: &mut Transactions,
    clients: &mut ClientList,
) -> (r: Disposition)
    ensures
        (state_of(final(transactions), final(clients)), r) == chargeback_step(
            state_of(old(transactions), old(clients)),
            t,
        ),
{
    let a = match transactions.open_dispute(t.tx) {
        Some(a) => a,
        None => {
            return Disposition::Discarded(DiscardReason::NoOpenDispute);
        },
    };
    let acc = match clients.get(t.client) {
        Some(acc) => acc,
        None => {
            return Disposition::Discarded(DiscardReason::AccountNotFound);
        },
    };
    if acc.locked {
        return Disposition::Discarded(DiscardReason::AccountLocked);
    }
    match (sub_in_range(acc.held, a), sub_in_range(acc.total, a)) {
        (Some(held), Some(total)) => {
            clients.set(t.client, Account { held, total, locked: true, ..acc });
            transactions.disputes.remove(&t.tx);
            Disposition::Applied
        },
        _ => Disposition::Discarded(DiscardReason::Overflow),
    }
}

/// Applies one transaction record, by its type.
pub fn process(t: Transaction, transactions: &mut Transactions, clients: &mut ClientList) -> (r:
    Disposition)
    ensures
        (state_of(final(transactions), final(clients)), r) == step(
            state_of(old(transactions), old(clients)),
            t,
        ),
{
    match t.tx_type {
        TransactionType::Deposit => handle_deposit(t, transactions, clients),
        TransactionType::Withdrawal => handle_withdrawal(t, transactions, clients),
        TransactionType::Dispute => handle_dispute(t, transactions, clients),
        TransactionType::Resolve => handle_resolve(t, transactions, clients),
        TransactionType::Chargeback => handle_chargeback(t, transactions, clients),
    }
}

/// Applies the records of `ts` in order.
pub fn process_all(ts: &Vec<Transaction>, transactions: &mut Transactions, clients: &mut ClientList)
    ensures
        state_of(final(transactions), final(clients)) == run(
            state_of(old(transactions), old(clients)),
            ts@,
        ),
{
    let ghost start = state_of(transactions, clients);
    let mut i: usize = 0;
    while i < ts.len()
        invariant
            i <= ts@.len(),
            state_of(transactions, clients) == run(start, ts@.take(i as int)),
        decreases ts@.len() - i,
    {
        process(ts[i], transactions, clients);
        proof {
            assert(ts@.take(i as int + 1).drop_last() == ts@.take(i as int));
        }
        i = i + 1;
    }
    assert(ts@.take(ts@.len() as int) == ts@);
}

/// Applies the records of `ts` in order to a fresh engine and returns the
/// resulting ledgers and account store. Every account then balances, and
/// every open dispute names an applied transaction.
pub fn process_stream(ts: &Vec<Transaction>) -> (r: (Transactions, ClientList))
    ensures
        state_of(&r.0, &r.1) == run(empty_state(), ts@),
        state_of(&r.0, &r.1).balanced(),
        state_of(&r.0, &r.1).disputes_applied(),
{
    proof {
        lemma_run_balanced(ts@);
        lemma_run_disputes_applied(ts@);
    }
    let mut transactions = Transactions::new();
    let mut clients = ClientList::new();
    proof {
        assert(state_of(&transactions, &clients) == empty_state());
    }
    process_all(ts, &mut transactions, &mut clients);
    (transactions, clients)
}

} // verus!
