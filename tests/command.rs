use cute_ledger::amount::Amount;
use cute_ledger::command::{
    AccountCommand, AccountCommandError, CreateTransactionAction, CreateTransactionCommand,
    ModifyTransactionAction, ModifyTransactionCommand, TransactionKind,
};

#[test]
fn creation_in_vacant_slot() {
    let r = AccountCommand::parse_command(4, None, TransactionKind::Withdrawal, Some(Amount::from_whole(2)));
    assert_eq!(
        r,
        Ok(AccountCommand::CreateTx(CreateTransactionCommand {
            tx_id: 4,
            action: CreateTransactionAction::Withdraw,
            amount: Amount::from_whole(2)
        }))
    );
}

#[test]
fn creation_in_occupied_slot() {
    let stored = CreateTransactionCommand {
        tx_id: 4,
        action: CreateTransactionAction::Deposit,
        amount: Amount::from_whole(9),
    };
    let r = AccountCommand::parse_command(4, Some(stored), TransactionKind::Deposit, None);
    assert_eq!(
        r,
        Err(AccountCommandError::DuplicateTransaction { action: CreateTransactionAction::Deposit })
    );
}

#[test]
fn modification_copies_stored_amount_and_action() {
    let stored = CreateTransactionCommand {
        tx_id: 4,
        action: CreateTransactionAction::Deposit,
        amount: Amount::from_whole(9),
    };
    // the record's own amount is ignored
    let r = AccountCommand::parse_command(4, Some(stored), TransactionKind::Resolve, Some(Amount::from_whole(1)));
    assert_eq!(
        r,
        Ok(AccountCommand::ModifyTx(ModifyTransactionCommand {
            tx_id: 4,
            action: ModifyTransactionAction::Resolve,
            amount: Amount::from_whole(9),
            create_action: CreateTransactionAction::Deposit
        }))
    );
}

#[test]
fn modification_of_vacant_slot() {
    let r = AccountCommand::parse_command(4, None, TransactionKind::Chargeback, None);
    assert_eq!(
        r,
        Err(AccountCommandError::ExistingTxRequired { action: ModifyTransactionAction::Chargeback })
    );
}

#[test]
fn command_error_messages() {
    assert_eq!(
        AccountCommandError::AmountRequired { action: CreateTransactionAction::Withdraw }.to_string(),
        "Amount is required for Withdraw"
    );
    assert_eq!(
        AccountCommandError::NegativeAmount { action: CreateTransactionAction::Deposit }.to_string(),
        "Amount must not be negative for Deposit"
    );
    assert_eq!(
        AccountCommandError::ExistingTxRequired { action: ModifyTransactionAction::Dispute }.to_string(),
        "There should be an existing transaction for Dispute"
    );
}

#[test]
fn amounts_from_decimal_parts() {
    // 1.5
    assert_eq!(Amount::from_parts(15, 1), Some(Amount::from_units(150_000_000)));
    // 2
    assert_eq!(Amount::from_parts(2, 0), Some(Amount::from_whole(2)));
    // -0.00000001
    assert_eq!(Amount::from_parts(-1, 8), Some(Amount::from_units(-1)));
    // 1.500000000 with trailing zeros beyond the kept digits
    assert_eq!(Amount::from_parts(1_500_000_000, 9), Some(Amount::from_units(150_000_000)));
    // 0.000000001 needs more digits than are kept
    assert_eq!(Amount::from_parts(1, 9), None);
    assert_eq!(Amount::from_parts(i128::MAX, 0), None);
    assert!(Amount::from_whole(-3).is_negative());
    assert!(!Amount::zero().is_negative());
}
