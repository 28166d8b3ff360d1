use cute_ledger::account::AccountError;
use cute_ledger::amount::Amount;
use cute_ledger::command::{AccountCommandError, ModifyTransactionAction, TransactionKind};
use cute_ledger::processor::{Transaction, TransactionProcessError};
use cute_ledger::service::Service;

fn rec(line: u64, kind: TransactionKind, client: u16, tx: u32, amount: Option<i64>) -> (u64, Transaction) {
    (line, Transaction { kind, client, tx, amount: amount.map(Amount::from_whole) })
}

#[test]
fn service_reports_balances_and_failures() {
    let input = vec![
        rec(2, TransactionKind::Deposit, 1, 1, Some(10)),
        rec(3, TransactionKind::Deposit, 2, 2, Some(10)),
        rec(4, TransactionKind::Dispute, 2, 2, None),
        rec(5, TransactionKind::Dispute, 2, 3, None),
        rec(6, TransactionKind::Withdrawal, 3, 4, Some(1)),
    ];
    let report = Service { input }.run();
    assert_eq!(
        report.errors,
        vec![
            (
                5,
                TransactionProcessError::CommandErr(AccountCommandError::ExistingTxRequired {
                    action: ModifyTransactionAction::Dispute
                })
            ),
            (6, TransactionProcessError::AccountErr(AccountError::InsufficientFunds)),
        ]
    );
    let rows: Vec<(u16, Amount, Amount, Amount, bool)> = report
        .accounts
        .iter()
        .map(|s| (s.client, s.available, s.held, s.total, s.locked))
        .collect();
    let w = Amount::from_whole;
    assert_eq!(
        rows,
        vec![
            (1, w(10), w(0), w(10), false),
            (2, w(0), w(10), w(10), false),
            (3, w(0), w(0), w(0), false),
        ]
    );
}

#[test]
fn replaying_accepted_records_gives_same_balances() {
    let input = vec![
        rec(1, TransactionKind::Deposit, 1, 1, Some(10)),
        rec(2, TransactionKind::Withdrawal, 1, 2, Some(20)),
        rec(3, TransactionKind::Deposit, 2, 1, Some(5)),
        rec(4, TransactionKind::Withdrawal, 1, 3, Some(4)),
        rec(5, TransactionKind::Dispute, 1, 1, None),
        rec(6, TransactionKind::Resolve, 1, 1, None),
        rec(7, TransactionKind::Dispute, 1, 3, None),
        rec(8, TransactionKind::Deposit, 2, 4, Some(7)),
    ];
    let first = Service { input: input.clone() }.run();
    let failed: Vec<u64> = first.errors.iter().map(|e| e.0).collect();
    assert_eq!(failed, vec![2, 3, 7]);
    let accepted: Vec<(u64, Transaction)> =
        input.into_iter().filter(|(line, _)| !failed.contains(line)).collect();
    let second = Service { input: accepted }.run();
    assert!(second.errors.is_empty());
    let w = Amount::from_whole;
    assert_eq!(first.accounts[0].available, w(6));
    assert_eq!(first.accounts[1].available, w(7));
    assert_eq!(first.accounts, second.accounts);
}
