use ledger_engine::processor::{
    handle_chargeback, handle_deposit, handle_dispute, handle_resolve, handle_withdrawal,
    process, process_all, process_stream, ClientList, Transactions,
};
use ledger_engine::types::{Account, DiscardReason, Disposition, Transaction, TransactionType};

const UNIT: i64 = 10000;

fn rec(tx_type: TransactionType, client: u16, tx: u32, amount: Option<i64>) -> Transaction {
    Transaction { tx_type, client, tx, amount }
}

fn acct(available: i64, held: i64, total: i64, locked: bool) -> Account {
    Account { available, held, total, locked }
}

fn fresh() -> (Transactions, ClientList) {
    (Transactions::new(), ClientList::new())
}

#[test]
fn deposit_opens_account() {
    let (mut txs, mut clients) = fresh();
    let r = handle_deposit(rec(TransactionType::Deposit, 1, 1, Some(5 * UNIT)), &mut txs, &mut clients);
    assert_eq!(r, Disposition::Applied);
    assert_eq!(clients.get(1), Some(acct(5 * UNIT, 0, 5 * UNIT, false)));
    assert!(txs.applied(1).is_some());
}

#[test]
fn scenario_full_sequence() {
    let (mut txs, mut clients) = fresh();
    process(rec(TransactionType::Deposit, 1, 1, Some(5 * UNIT)), &mut txs, &mut clients);
    assert_eq!(clients.get(1), Some(acct(5 * UNIT, 0, 5 * UNIT, false)));

    let r = process(rec(TransactionType::Withdrawal, 1, 2, Some(3 * UNIT)), &mut txs, &mut clients);
    assert_eq!(r, Disposition::Applied);
    assert_eq!(clients.get(1), Some(acct(2 * UNIT, 0, 2 * UNIT, false)));

    let r = process(rec(TransactionType::Withdrawal, 1, 3, Some(10 * UNIT)), &mut txs, &mut clients);
    assert_eq!(r, Disposition::Discarded(DiscardReason::InsufficientFunds));
    assert_eq!(clients.get(1), Some(acct(2 * UNIT, 0, 2 * UNIT, false)));
    assert_eq!(txs.applied(3), None);

    let r = process(rec(TransactionType::Dispute, 1, 1, None), &mut txs, &mut clients);
    assert_eq!(r, Disposition::Applied);
    assert_eq!(clients.get(1), Some(acct(-3 * UNIT, 5 * UNIT, 2 * UNIT, false)));
    assert_eq!(txs.open_dispute(1), Some(5 * UNIT));

    let r = process(rec(TransactionType::Chargeback, 1, 1, None), &mut txs, &mut clients);
    assert_eq!(r, Disposition::Applied);
    assert_eq!(clients.get(1), Some(acct(-3 * UNIT, 0, -3 * UNIT, true)));
    assert_eq!(txs.open_dispute(1), None);

    let r = process(rec(TransactionType::Deposit, 1, 4, Some(UNIT)), &mut txs, &mut clients);
    assert_eq!(r, Disposition::Discarded(DiscardReason::AccountLocked));
    assert_eq!(clients.get(1), Some(acct(-3 * UNIT, 0, -3 * UNIT, true)));
    assert_eq!(txs.applied(4), None);
}

#[test]
fn unknown_references_are_noops() {
    let (mut txs, mut clients) = fresh();
    process(rec(TransactionType::Deposit, 1, 1, Some(5 * UNIT)), &mut txs, &mut clients);
    let r = handle_resolve(rec(TransactionType::Resolve, 1, 99, None), &mut txs, &mut clients);
    assert_eq!(r, Disposition::Discarded(DiscardReason::NoOpenDispute));
    let r = handle_dispute(rec(TransactionType::Dispute, 1, 99, None), &mut txs, &mut clients);
    assert_eq!(r, Disposition::Discarded(DiscardReason::UnknownTransaction));
    assert_eq!(clients.get(1), Some(acct(5 * UNIT, 0, 5 * UNIT, false)));
    assert_eq!(txs.applied(99), None);
    assert_eq!(txs.open_dispute(99), None);
}

#[test]
fn dispute_then_resolve_restores_funds() {
    let (mut txs, mut clients) = fresh();
    process(rec(TransactionType::Deposit, 2, 10, Some(12345)), &mut txs, &mut clients);
    process(rec(TransactionType::Dispute, 2, 10, None), &mut txs, &mut clients);
    assert_eq!(clients.get(2), Some(acct(0, 12345, 12345, false)));
    let r = handle_resolve(rec(TransactionType::Resolve, 2, 10, None), &mut txs, &mut clients);
    assert_eq!(r, Disposition::Applied);
    assert_eq!(clients.get(2), Some(acct(12345, 0, 12345, false)));
    assert_eq!(txs.open_dispute(10), None);
    assert!(txs.applied(10).is_some());
}

#[test]
fn withdrawal_without_account_is_discarded() {
    let (mut txs, mut clients) = fresh();
    let r = handle_withdrawal(rec(TransactionType::Withdrawal, 7, 1, Some(UNIT)), &mut txs, &mut clients);
    assert_eq!(r, Disposition::Discarded(DiscardReason::AccountNotFound));
    assert_eq!(clients.get(7), None);
    assert_eq!(txs.applied(1), None);
}

#[test]
fn missing_amount_is_discarded() {
    let (mut txs, mut clients) = fresh();
    let r = handle_deposit(rec(TransactionType::Deposit, 1, 1, None), &mut txs, &mut clients);
    assert_eq!(r, Disposition::Discarded(DiscardReason::MissingAmount));
    assert_eq!(clients.get(1), None);
}

#[test]
fn dispute_for_client_without_account() {
    let (mut txs, mut clients) = fresh();
    process(rec(TransactionType::Deposit, 1, 1, Some(UNIT)), &mut txs, &mut clients);
    let r = handle_dispute(rec(TransactionType::Dispute, 5, 1, None), &mut txs, &mut clients);
    assert_eq!(r, Disposition::Discarded(DiscardReason::AccountNotFound));
    assert_eq!(txs.open_dispute(1), None);
}

#[test]
fn deposit_overflow_is_discarded() {
    let (mut txs, mut clients) = fresh();
    process(rec(TransactionType::Deposit, 1, 1, Some(i64::MAX)), &mut txs, &mut clients);
    let r = handle_deposit(rec(TransactionType::Deposit, 1, 2, Some(1)), &mut txs, &mut clients);
    assert_eq!(r, Disposition::Discarded(DiscardReason::Overflow));
    assert_eq!(clients.get(1), Some(acct(i64::MAX, 0, i64::MAX, false)));
    assert_eq!(txs.applied(2), None);
}

#[test]
fn chargeback_locks_and_blocks_everything() {
    let (mut txs, mut clients) = fresh();
    process(rec(TransactionType::Deposit, 3, 1, Some(4 * UNIT)), &mut txs, &mut clients);
    process(rec(TransactionType::Deposit, 3, 2, Some(UNIT)), &mut txs, &mut clients);
    process(rec(TransactionType::Dispute, 3, 1, None), &mut txs, &mut clients);
    process(rec(TransactionType::Dispute, 3, 2, None), &mut txs, &mut clients);
    let r = handle_chargeback(rec(TransactionType::Chargeback, 3, 1, None), &mut txs, &mut clients);
    assert_eq!(r, Disposition::Applied);
    let frozen = acct(0, UNIT, UNIT, true);
    assert_eq!(clients.get(3), Some(frozen));
    for t in [
        rec(TransactionType::Deposit, 3, 5, Some(UNIT)),
        rec(TransactionType::Withdrawal, 3, 6, Some(1)),
        rec(TransactionType::Resolve, 3, 2, None),
        rec(TransactionType::Chargeback, 3, 2, None),
        rec(TransactionType::Dispute, 3, 1, None),
    ] {
        assert_eq!(process(t, &mut txs, &mut clients), Disposition::Discarded(DiscardReason::AccountLocked));
        assert_eq!(clients.get(3), Some(frozen));
    }
}

#[test]
fn balances_stay_consistent_over_a_stream() {
    let ts = vec![
        rec(TransactionType::Deposit, 1, 1, Some(7 * UNIT)),
        rec(TransactionType::Deposit, 2, 2, Some(3 * UNIT)),
        rec(TransactionType::Withdrawal, 1, 3, Some(2 * UNIT)),
        rec(TransactionType::Dispute, 1, 1, None),
        rec(TransactionType::Dispute, 2, 3, None),
        rec(TransactionType::Resolve, 1, 1, None),
        rec(TransactionType::Dispute, 1, 3, None),
        rec(TransactionType::Chargeback, 2, 3, None),
    ];
    let (txs, clients) = process_stream(&ts);
    for (_, a) in clients.accounts().iter() {
        assert_eq!(a.total, a.available + a.held);
    }
    for id in 0..5u32 {
        if txs.open_dispute(id).is_some() {
            assert!(txs.applied(id).is_some());
        }
    }
    assert_eq!(clients.get(1), Some(acct(3 * UNIT, 2 * UNIT, 5 * UNIT, false)));
}

#[test]
fn process_all_matches_one_by_one() {
    let ts = vec![
        rec(TransactionType::Deposit, 1, 1, Some(UNIT)),
        rec(TransactionType::Withdrawal, 1, 2, Some(UNIT / 2)),
    ];
    let (mut txs, mut clients) = fresh();
    process_all(&ts, &mut txs, &mut clients);
    assert_eq!(clients.get(1), Some(acct(UNIT / 2, 0, UNIT / 2, false)));
    assert_eq!(clients.get_or_create(9), acct(0, 0, 0, false));
}

#[test]
fn duplicate_id_replaces_applied_record() {
    let (mut txs, mut clients) = fresh();
    process(rec(TransactionType::Deposit, 1, 1, Some(5 * UNIT)), &mut txs, &mut clients);
    process(rec(TransactionType::Deposit, 2, 1, Some(3 * UNIT)), &mut txs, &mut clients);
    assert_eq!(txs.applied(1), Some(rec(TransactionType::Deposit, 2, 1, Some(3 * UNIT))));
    assert_eq!(clients.get(1), Some(acct(5 * UNIT, 0, 5 * UNIT, false)));
    assert_eq!(clients.get(2), Some(acct(3 * UNIT, 0, 3 * UNIT, false)));
}

#[test]
fn second_dispute_holds_again() {
    let (mut txs, mut clients) = fresh();
    process(rec(TransactionType::Deposit, 1, 1, Some(2 * UNIT)), &mut txs, &mut clients);
    process(rec(TransactionType::Dispute, 1, 1, None), &mut txs, &mut clients);
    let r = process(rec(TransactionType::Dispute, 1, 1, None), &mut txs, &mut clients);
    assert_eq!(r, Disposition::Applied);
    assert_eq!(clients.get(1), Some(acct(-2 * UNIT, 4 * UNIT, 2 * UNIT, false)));
    assert_eq!(txs.open_dispute(1), Some(2 * UNIT));
}

#[test]
fn dispute_uses_the_disputing_client() {
    let (mut txs, mut clients) = fresh();
    process(rec(TransactionType::Deposit, 1, 1, Some(2 * UNIT)), &mut txs, &mut clients);
    process(rec(TransactionType::Deposit, 2, 2, Some(5 * UNIT)), &mut txs, &mut clients);
    let r = process(rec(TransactionType::Dispute, 2, 1, None), &mut txs, &mut clients);
    assert_eq!(r, Disposition::Applied);
    assert_eq!(clients.get(2), Some(acct(3 * UNIT, 2 * UNIT, 5 * UNIT, false)));
    assert_eq!(clients.get(1), Some(acct(2 * UNIT, 0, 2 * UNIT, false)));
}

#[test]
fn disputing_a_withdrawal_holds_its_amount() {
    let (mut txs, mut clients) = fresh();
    process(rec(TransactionType::Deposit, 1, 1, Some(5 * UNIT)), &mut txs, &mut clients);
    process(rec(TransactionType::Withdrawal, 1, 2, Some(2 * UNIT)), &mut txs, &mut clients);
    process(rec(TransactionType::Dispute, 1, 2, None), &mut txs, &mut clients);
    assert_eq!(clients.get(1), Some(acct(UNIT, 2 * UNIT, 3 * UNIT, false)));
    assert_eq!(txs.open_dispute(2), Some(2 * UNIT));
}
