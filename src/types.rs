use vstd::prelude::*;

verus! {

/// The kind of a transaction record.
#[derive(Clone, Copy, Debug, PartialEq, Eq, Structural)]
pub enum TransactionType {
    Deposit,
    Withdrawal,
    Dispute,
    Resolve,
    Chargeback,
}

/// One decoded transaction record. `amount` is in ten-thousandths of a unit
/// and is present only for deposits and withdrawals.
#[derive(Clone, Copy, Debug, PartialEq, Eq, Structural)]
pub struct Transaction {
    pub tx_type: TransactionType,
    pub client: u16,
    pub tx: u32,
    pub amount: Option<i64>,
}

/// The balances of one client, in ten-thousandths of a unit.
#[derive(Clone, Copy, Debug, PartialEq, Eq, Structural)]
pub struct Account {
    pub available: i64,
    pub held: i64,
    pub total: i64,
    pub locked: bool,
}

/// Why a transaction was discarded without effect.
#[derive(Clone, Copy, Debug, PartialEq, Eq, Structural)]
pub enum DiscardReason {
    /// A deposit or withdrawal without an amount, or a dispute whose
    /// referenced record carries none.
    MissingAmount,
    AccountNotFound,
    AccountLocked,
    InsufficientFunds,
    /// A dispute naming a transaction id that was never applied.
    UnknownTransaction,
    /// A resolve or chargeback naming a transaction id with no open dispute.
    NoOpenDispute,
    /// A balance would leave the range of `i64`.
    Overflow,
}

/// What became of one transaction.
#[derive(Clone, Copy, Debug, PartialEq, Eq, Structural)]
pub enum Disposition {
    Applied,
    Discarded(DiscardReason),
}

impl Account {
    /// `total` is exactly the sum of `available` and `held`.
    pub open spec fn balanced(self) -> bool {
        self.total as int == self.available as int + self.held as int
    }

    /// The account a client's first deposit creates.
    pub fn opened_with(amount: i64) -> (r: Account)
        ensures
            r == (Account { available: amount, held: 0, total: amount, locked: false }),
    {
        Account { available: amount, held: 0, total: amount, locked: false }
    }
}

} // verus!
