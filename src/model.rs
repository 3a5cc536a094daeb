//! The mathematical model of the engine: its state as three maps, the effect
//! of one transaction on that state, and the laws that every run obeys.
use crate::types::{Account, DiscardReason, Disposition, Transaction, TransactionType};
use vstd::prelude::*;

verus! {

/// The whole state of the engine: the account store, the ledger of applied
/// deposits and withdrawals, and the amounts held by open disputes.
pub struct LedgerState {
    pub accounts: Map<u16, Account>,
    pub applied: Map<u32, Transaction>,
    pub disputes: Map<u32, i64>,
}

/// `x` can be stored in an `i64`.
pub open spec fn fits_i64(x: int) -> bool {
    i64::MIN <= x <= i64::MAX
}

/// The state before any transaction.
pub open spec fn empty_state() -> LedgerState {
    LedgerState { accounts: Map::empty(), applied: Map::empty(), disputes: Map::empty() }
}

impl LedgerState {
    /// Every account's total equals its available plus held funds.
    pub open spec fn balanced(self) -> bool {
        forall|c: u16| #[trigger] self.accounts.contains_key(c) ==> self.accounts[c].balanced()
    }

    /// Every open dispute names an applied transaction.
    pub open spec fn disputes_applied(self) -> bool {
        forall|id: u32| #[trigger]
            self.disputes.contains_key(id) ==> self.applied.contains_key(id)
    }

    pub open spec fn with_account(self, c: u16, a: Account) -> LedgerState {
        LedgerState { accounts: self.accounts.insert(c, a), ..self }
    }
}

pub open spec fn discard(s: LedgerState, why: DiscardReason) -> (LedgerState, Disposition) {
    (s, Disposition::Discarded(why))
}

/// A deposit: opens the account on a client's first deposit, else credits
/// an unlocked account; an applied deposit is recorded under its id.
pub open spec fn deposit_step(s: LedgerState, t: Transaction) -> (LedgerState, Disposition) {
    match t.amount {
        None => discard(s, DiscardReason::MissingAmount),
        Some(a) => {
            let recorded = LedgerState { applied: s.applied.insert(t.tx, t), ..s };
            if !s.accounts.contains_key(t.client) {
                (
                    recorded.with_account(
                        t.client,
                        Account { available: a, held: 0, total: a, locked: false },
                    ),
                    Disposition::Applied,
                )
            } else {
                let acc = s.accounts[t.client];
                if acc.locked {
                    discard(s, DiscardReason::AccountLocked)
                } else if !fits_i64(acc.available + a) || !fits_i64(acc.total + a) {
                    discard(s, DiscardReason::Overflow)
                } else {
                    (
                        recorded.with_account(
                            t.client,
                            Account {
                                available: (acc.available + a) as i64,
                                total: (acc.total + a) as i64,
                                ..acc
                            },
                        ),
                        Disposition::Applied,
                    )
                }
            }
        },
    }
}

/// A withdrawal: debits an existing unlocked account holding at least the
/// amount as available funds; an applied withdrawal is recorded under its id.
pub open spec fn withdrawal_step(s: LedgerState, t: Transaction) -> (LedgerState, Disposition) {
    match t.amount {
        None => discard(s, DiscardReason::MissingAmount),
        Some(a) => {
            if !s.accounts.contains_key(t.client) {
                discard(s, DiscardReason::AccountNotFound)
            } else {
                let acc = s.accounts[t.client];
                if acc.locked {
                    discard(s, DiscardReason::AccountLocked)
                } else if acc.available < a {
                    discard(s, DiscardReason::InsufficientFunds)
                } else if !fits_i64(acc.available - a) || !fits_i64(acc.total - a) {
                    discard(s, DiscardReason::Overflow)
                } else {
                    (
                        LedgerState { applied: s.applied.insert(t.tx, t), ..s }.with_account(
                            t.client,
                            Account {
                                available: (acc.available - a) as i64,
                                total: (acc.total - a) as i64,
                                ..acc
                            },
                        ),
                        Disposition::Applied,
                    )
                }
            }
        },
    }
}

/// A dispute: moves the amount of the referenced applied transaction from
/// the available to the held funds of the dispute's client, and opens a
/// dispute for that amount under the referenced id.
pub open spec fn dispute_step(s: LedgerState, t: Transaction) -> (LedgerState, Disposition) {
    if !s.applied.contains_key(t.tx) {
        discard(s, DiscardReason::UnknownTransaction)
    } else if !s.accounts.contains_key(t.client) {
        discard(s, DiscardReason::AccountNotFound)
    } else {
        let acc = s.accounts[t.client];
        if acc.locked {
            discard(s, DiscardReason::AccountLocked)
        } else {
            match s.applied[t.tx].amount {
                None => discard(s, DiscardReason::MissingAmount),
                Some(a) => if !fits_i64(acc.available - a) || !fits_i64(acc.held + a) {
                    discard(s, DiscardReason::Overflow)
                } else {
                    (
                        LedgerState { disputes: s.disputes.insert(t.tx, a), ..s }.with_account(
                            t.client,
                            Account {
                                available: (acc.available - a) as i64,
                                held: (acc.held + a) as i64,
                                ..acc
                            },
                        ),
                        Disposition::Applied,
                    )
                },
            }
        }
    }
}

/// A resolve: returns the amount of the open dispute from held to available
/// funds and closes the dispute.
pub open spec fn resolve_step(s: LedgerState, t: Transaction) -> (LedgerState, Disposition) {
    if !s.disputes.contains_key(t.tx) {
        discard(s, DiscardReason::NoOpenDispute)
    } else if !s.accounts.contains_key(t.client) {
        discard(s, DiscardReason::AccountNotFound)
    } else {
        let acc = s.accounts[t.client];
        let a = s.disputes[t.tx];
        if acc.locked {
            discard(s, DiscardReason::AccountLocked)
        } else if !fits_i64(acc.available + a) || !fits_i64(acc.held - a) {
            discard(s, DiscardReason::Overflow)
        } else {
            (
                LedgerState { disputes: s.disputes.remove(t.tx), ..s }.with_account(
                    t.client,
                    Account {
                        available: (acc.available + a) as i64,
                        held: (acc.held - a) as i64,
                        ..acc
                    },
                ),
                Disposition::Applied,
            )
        }
    }
}

/// A chargeback: removes the amount of the open dispute from the held and
/// total funds, locks the account and closes the dispute.
pub open spec fn chargeback_step(s: LedgerState, t: Transaction) -> (LedgerState, Disposition) {
    if !s.disputes.contains_key(t.tx) {
        discard(s, DiscardReason::NoOpenDispute)
    } else if !s.accounts.contains_key(t.client) {
        discard(s, DiscardReason::AccountNotFound)
    } else {
        let acc = s.accounts[t.client];
        let a = s.disputes[t.tx];
        if acc.locked {
            discard(s, DiscardReason::AccountLocked)
        } else if !fits_i64(acc.held - a) || !fits_i64(acc.total - a) {
            discard(s, DiscardReason::Overflow)
        } else {
            (
                LedgerState { disputes: s.disputes.remove(t.tx), ..s }.with_account(
                    t.client,
                    Account {
                        held: (acc.held - a) as i64,
                        total: (acc.total - a) as i64,
                        locked: true,
                        ..acc
                    },
                ),
                Disposition::Applied,
            )
        }
    }
}

/// The effect of one transaction, chosen by its type.
pub open spec fn step(s: LedgerState, t: Transaction) -> (LedgerState, Disposition) {
    match t.tx_type {
        TransactionType::Deposit => deposit_step(s, t),
        TransactionType::Withdrawal => withdrawal_step(s, t),
        TransactionType::Dispute => dispute_step(s, t),
        TransactionType::Resolve => resolve_step(s, t),
        TransactionType::Chargeback => chargeback_step(s, t),
    }
}

/// The state after applying `ts` in order, starting from `s`.
pub open spec fn run(s: LedgerState, ts: Seq<Transaction>) -> LedgerState
    decreases ts.len(),
{
    if ts.len() == 0 {
        s
    } else {
        step(run(s, ts.drop_last()), ts.last()).0
    }
}

/// One transaction keeps every account's total equal to its available plus
/// held funds.
pub proof fn lemma_step_balanced(s: LedgerState, t: Transaction)
    requires
        s.balanced(),
    ensures
        step(s, t).0.balanced(),
{
}

/// One transaction changes no locked account.
pub proof fn lemma_step_keeps_locked(s: LedgerState, t: Transaction, c: u16)
    requires
        s.accounts.contains_key(c),
        s.accounts[c].locked,
    ensures
        step(s, t).0.accounts.contains_key(c),
        step(s, t).0.accounts[c] == s.accounts[c],
{
}

/// One transaction keeps every open dispute pointing at an applied
/// transaction.
pub proof fn lemma_step_disputes_applied(s: LedgerState, t: Transaction)
    requires
        s.disputes_applied(),
    ensures
        step(s, t).0.disputes_applied(),
{
}

/// After any sequence of transactions on an empty engine, every account's
/// total equals its available plus held funds.
pub proof fn lemma_run_balanced(ts: Seq<Transaction>)
    ensures
        run(empty_state(), ts).balanced(),
    decreases ts.len(),
{
    if ts.len() > 0 {
        lemma_run_balanced(ts.drop_last());
        lemma_step_balanced(run(empty_state(), ts.drop_last()), ts.last());
    }
}

/// Once an account is locked, no later sequence of transactions changes its
/// available, held or total funds (nor unlocks it).
pub proof fn lemma_locked_stays_frozen(s: LedgerState, ts: Seq<Transaction>, c: u16)
    requires
        s.accounts.contains_key(c),
        s.accounts[c].locked,
    ensures
        run(s, ts).accounts.contains_key(c),
        run(s, ts).accounts[c] == s.accounts[c],
    decreases ts.len(),
{
    if ts.len() > 0 {
        lemma_locked_stays_frozen(s, ts.drop_last(), c);
        lemma_step_keeps_locked(run(s, ts.drop_last()), ts.last(), c);
    }
}

/// After any sequence of transactions on an empty engine, every open
/// dispute names a transaction in the applied ledger.
pub proof fn lemma_run_disputes_applied(ts: Seq<Transaction>)
    ensures
        run(empty_state(), ts).disputes_applied(),
    decreases ts.len(),
{
    if ts.len() > 0 {
        lemma_run_disputes_applied(ts.drop_last());
        lemma_step_disputes_applied(run(empty_state(), ts.drop_last()), ts.last());
    }
}

/// A dispute or resolve naming a transaction id that is not in the applied
/// ledger changes nothing: no account and no entry of either ledger.
pub proof fn lemma_unknown_reference_is_noop(s: LedgerState, t: Transaction)
    requires
        s.disputes_applied(),
        !s.applied.contains_key(t.tx),
        t.tx_type == TransactionType::Dispute || t.tx_type == TransactionType::Resolve,
    ensures
        step(s, t).0 == s,
{
}

} // verus!
