use std::collections::HashSet;

use cute_ledger::account::{Account, AccountError, AccountEvent, AccountEventKind};
use cute_ledger::amount::Amount;
use cute_ledger::command::{
    CreateTransactionAction, CreateTransactionCommand, ModifyTransactionAction,
    ModifyTransactionCommand,
};

fn whole(n: i64) -> Amount {
    Amount::from_whole(n)
}

#[test]
fn apply_events() {
    let mut acc = Account::default();
    acc.apply(&AccountEvent {
        transaction_id: 0,
        amount: whole(10),
        kind: AccountEventKind::Deposited,
    });
    assert_eq!(acc.available, whole(10));
    assert_eq!(acc.held, Amount::zero());
    assert!(acc.txs_under_dispute.is_empty());
    acc.apply(&AccountEvent {
        transaction_id: 1,
        amount: whole(3),
        kind: AccountEventKind::Withdrawn,
    });
    assert_eq!(acc.available, whole(7));
    assert_eq!(acc.held, Amount::zero());
    assert!(acc.txs_under_dispute.is_empty());
    // event is the source of truth, there's no more validation happening
    acc.apply(&AccountEvent {
        transaction_id: 3,
        amount: whole(5),
        kind: AccountEventKind::Disputed,
    });
    assert_eq!(acc.available, whole(2));
    assert_eq!(acc.held, whole(5));
    assert_eq!(acc.txs_under_dispute.len(), 1);
    acc.apply(&AccountEvent {
        transaction_id: 3,
        amount: whole(5),
        kind: AccountEventKind::Resolved,
    });
    assert_eq!(acc.available, whole(7));
    assert_eq!(acc.held, whole(0));
    assert!(acc.txs_under_dispute.is_empty());
    assert!(!acc.locked);

    acc.apply(&AccountEvent {
        transaction_id: 5,
        amount: whole(5),
        kind: AccountEventKind::Disputed,
    });
    acc.apply(&AccountEvent {
        transaction_id: 5,
        amount: whole(5),
        kind: AccountEventKind::Chargedback,
    });
    assert_eq!(acc.available, whole(2));
    assert_eq!(acc.held, whole(0));
    assert!(acc.txs_under_dispute.is_empty());
    assert!(acc.locked)
}

#[test]
fn verify_total_amount() {
    let acc = Account {
        available: whole(10),
        held: whole(3),
        ..Default::default()
    };
    assert_eq!(acc.total_amount(), whole(13));
}

#[test]
fn handle_new_transaction() {
    let mut acc = Account::default();

    // deposit
    let deposit_evt = acc
        .handle_new_transaction(CreateTransactionCommand {
            tx_id: 0,
            action: CreateTransactionAction::Deposit,
            amount: whole(13),
        })
        .unwrap();
    assert_eq!(deposit_evt.amount, whole(13));
    assert!(matches!(deposit_evt.kind, AccountEventKind::Deposited));

    // withdrawal
    let withdrawal_cmd = CreateTransactionCommand {
        tx_id: 0,
        action: CreateTransactionAction::Withdraw,
        amount: whole(5),
    };
    let err = acc.handle_new_transaction(withdrawal_cmd.clone()).unwrap_err();
    assert!(matches!(err, AccountError::InsufficientFunds));

    // withdrawal after deposit applied
    acc.apply(&deposit_evt);
    let withdrawal_evt = acc.handle_new_transaction(withdrawal_cmd.clone()).unwrap();
    assert_eq!(withdrawal_evt.amount, whole(5));
    assert!(matches!(withdrawal_evt.kind, AccountEventKind::Withdrawn));

    // account locked
    acc.locked = true;
    let err = acc.handle_new_transaction(withdrawal_cmd).unwrap_err();
    assert!(matches!(err, AccountError::AccountFrozen));
}

#[test]
fn handle_modify_transaction() {
    let mut acc = Account::default();
    let deposit_evt = AccountEvent {
        transaction_id: 1,
        amount: whole(13),
        kind: AccountEventKind::Deposited,
    };
    acc.apply(&deposit_evt);

    // dispute
    let dispute_cmd = ModifyTransactionCommand {
        tx_id: 1,
        action: ModifyTransactionAction::Dispute,
        amount: whole(13),
        create_action: CreateTransactionAction::Deposit,
    };
    let dispute_evt = acc.handle_modify_transaction(dispute_cmd.clone()).unwrap();
    assert_eq!(dispute_evt.amount, whole(13));
    assert!(matches!(dispute_evt.kind, AccountEventKind::Disputed));

    // dispute for withdrawal not supported
    let err = acc
        .handle_modify_transaction(ModifyTransactionCommand {
            create_action: CreateTransactionAction::Withdraw,
            ..dispute_cmd
        })
        .unwrap_err();
    assert!(matches!(&err, AccountError::DisputeNotSupported));

    // dispute twice not allowed
    acc.apply(&dispute_evt);
    let err = acc.handle_modify_transaction(dispute_cmd.clone()).unwrap_err();
    assert!(matches!(
        &err,
        AccountError::TransactionDisputeStateMismatch {
            action: ModifyTransactionAction::Dispute,
            under_dispute: _
        }
    ));
    assert_eq!(
        err.to_string(),
        "Dispute cannot be initiated, because the transaction is already under dispute"
    );

    // resolve transaction
    let resolve_cmd = ModifyTransactionCommand {
        tx_id: 1,
        action: ModifyTransactionAction::Resolve,
        amount: whole(13),
        create_action: CreateTransactionAction::Deposit,
    };
    let resolve_evt = acc.handle_modify_transaction(resolve_cmd.clone()).unwrap();
    assert_eq!(resolve_evt.amount, whole(13));
    assert_eq!(resolve_evt.kind, AccountEventKind::Resolved);

    // cannot resolve already resolved
    acc.apply(&resolve_evt);
    let err = acc.handle_modify_transaction(resolve_cmd).unwrap_err();
    assert!(matches!(
        &err,
        AccountError::TransactionDisputeStateMismatch {
            action: ModifyTransactionAction::Resolve,
            under_dispute: _
        }
    ));
    assert_eq!(
        err.to_string(),
        format!("Resolve cannot be initiated, because the transaction is not under dispute")
    );

    // chargeback transaction
    acc.apply(&dispute_evt);
    let chargeback_cmd = ModifyTransactionCommand {
        tx_id: 1,
        action: ModifyTransactionAction::Chargeback,
        amount: whole(13),
        create_action: CreateTransactionAction::Deposit,
    };
    let chargeback_evt = acc.handle_modify_transaction(chargeback_cmd.clone()).unwrap();
    assert_eq!(chargeback_evt.amount, whole(13));
    assert_eq!(chargeback_evt.kind, AccountEventKind::Chargedback);

    // any further command returns error
    acc.apply(&chargeback_evt);
    let err = acc.handle_modify_transaction(dispute_cmd.clone()).unwrap_err();
    assert!(matches!(err, AccountError::AccountFrozen));
}

#[test]
fn new_account_is_empty() {
    let acc = Account::new();
    assert_eq!(acc.available(), Amount::zero());
    assert_eq!(acc.held(), Amount::zero());
    assert!(!acc.locked());
    assert_eq!(acc.total_amount(), Amount::zero());
    assert_eq!(acc.txs_under_dispute, HashSet::new());
}

#[test]
fn total_is_available_plus_held_after_dispute() {
    let mut acc = Account::new();
    acc.apply(&AccountEvent { transaction_id: 1, amount: whole(10), kind: AccountEventKind::Deposited });
    acc.apply(&AccountEvent { transaction_id: 1, amount: whole(4), kind: AccountEventKind::Disputed });
    assert_eq!(acc.available(), whole(6));
    assert_eq!(acc.held(), whole(4));
    assert_eq!(acc.total_amount(), whole(10));
    assert!(acc.is_disputed(1));
    assert!(!acc.is_disputed(2));
}

#[test]
fn dispute_may_leave_available_negative() {
    let mut acc = Account::new();
    acc.apply(&AccountEvent { transaction_id: 1, amount: whole(10), kind: AccountEventKind::Deposited });
    acc.apply(&AccountEvent { transaction_id: 2, amount: whole(8), kind: AccountEventKind::Withdrawn });
    let evt = acc
        .handle_modify_transaction(ModifyTransactionCommand {
            tx_id: 1,
            action: ModifyTransactionAction::Dispute,
            amount: whole(10),
            create_action: CreateTransactionAction::Deposit,
        })
        .unwrap();
    acc.apply(&evt);
    assert_eq!(acc.available(), whole(-8));
    assert_eq!(acc.held(), whole(10));
    assert_eq!(acc.total_amount(), whole(2));
}

#[test]
fn chargeback_of_undisputed_transaction_is_a_mismatch() {
    let acc = Account::new();
    let err = acc
        .handle_modify_transaction(ModifyTransactionCommand {
            tx_id: 4,
            action: ModifyTransactionAction::Chargeback,
            amount: whole(1),
            create_action: CreateTransactionAction::Deposit,
        })
        .unwrap_err();
    assert_eq!(
        err,
        AccountError::TransactionDisputeStateMismatch {
            action: ModifyTransactionAction::Chargeback,
            under_dispute: false
        }
    );
    assert_eq!(
        err.to_string(),
        "Chargeback cannot be initiated, because the transaction is not under dispute"
    );
}

#[test]
fn deposit_past_the_range_is_refused() {
    let acc = Account {
        available: Amount::from_units(i128::MAX - 5),
        ..Default::default()
    };
    let err = acc
        .handle_new_transaction(CreateTransactionCommand {
            tx_id: 9,
            action: CreateTransactionAction::Deposit,
            amount: Amount::from_units(6),
        })
        .unwrap_err();
    assert_eq!(err, AccountError::BalanceOutOfRange);
    let evt = acc
        .handle_new_transaction(CreateTransactionCommand {
            tx_id: 9,
            action: CreateTransactionAction::Deposit,
            amount: Amount::from_units(5),
        })
        .unwrap();
    assert_eq!(evt.kind, AccountEventKind::Deposited);
}

#[test]
fn account_error_messages() {
    assert_eq!(
        AccountError::AccountFrozen.to_string(),
        "Account is frozen, no further operations are allowed"
    );
    assert_eq!(AccountError::InsufficientFunds.to_string(), "Insufficient funds");
    assert_eq!(
        AccountError::DisputeNotSupported.to_string(),
        "Dispute operation is not supported for parent transaction"
    );
    assert_eq!(
        AccountError::BalanceOutOfRange.to_string(),
        "Balances would leave the range of an amount"
    );
}
