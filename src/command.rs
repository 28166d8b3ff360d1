//! Validation of raw transaction records into account commands.
use vstd::prelude::*;
use vstd::string::StringExecFns;

use crate::amount::Amount;
use crate::TransactionId;

verus! {

/// The kind of a raw transaction record.
#[derive(Clone, Copy, Debug, PartialEq, Eq, Structural)]
pub enum TransactionKind {
    Deposit,
    Withdrawal,
    Dispute,
    Resolve,
    Chargeback,
}

/// An action that creates a transaction.
#[derive(Clone, Copy, Debug, PartialEq, Eq, Structural)]
pub enum CreateTransactionAction {
    Deposit,
    Withdraw,
}

/// An action that modifies an existing transaction.
#[derive(Clone, Copy, Debug, PartialEq, Eq, Structural)]
pub enum ModifyTransactionAction {
    Dispute,
    Resolve,
    Chargeback,
}

/// The canonical record of a transaction that was created.
#[derive(Clone, Copy, Debug, PartialEq, Eq, Structural)]
pub struct CreateTransactionCommand {
    pub tx_id: TransactionId,
    pub action: CreateTransactionAction,
    pub amount: Amount,
}

/// A command on an existing transaction; its amount and creating action are
/// those of the stored creation record.
#[derive(Clone, Copy, Debug, PartialEq, Eq, Structural)]
pub struct ModifyTransactionCommand {
    pub tx_id: TransactionId,
    pub action: ModifyTransactionAction,
    pub amount: Amount,
    pub create_action: CreateTransactionAction,
}

/// Structural errors of a record, found before any account is consulted.
#[derive(Clone, Copy, Debug, PartialEq, Eq, Structural)]
pub enum AccountCommandError {
    AmountRequired { action: CreateTransactionAction },
    NegativeAmount { action: CreateTransactionAction },
    ExistingTxRequired { action: ModifyTransactionAction },
    DuplicateTransaction { action: CreateTransactionAction },
}

/// A validated command.
#[derive(Clone, Copy, Debug, PartialEq, Eq, Structural)]
pub enum AccountCommand {
    CreateTx(CreateTransactionCommand),
    ModifyTx(ModifyTransactionCommand),
}

impl CreateTransactionAction {
    /// The name of the action.
    pub fn name(&self) -> (r: &'static str)
        ensures
            r@ == self.name_spec(),
    {
        match self {
            CreateTransactionAction::Deposit => "Deposit",
            CreateTransactionAction::Withdraw => "Withdraw",
        }
    }

    pub open spec fn name_spec(&self) -> Seq<char> {
        match self {
            CreateTransactionAction::Deposit => "Deposit"@,
            CreateTransactionAction::Withdraw => "Withdraw"@,
        }
    }
}

impl ModifyTransactionAction {
    /// The name of the action.
    pub fn name(&self) -> (r: &'static str)
        ensures
            r@ == self.name_spec(),
    {
        match self {
            ModifyTransactionAction::Dispute => "Dispute",
            ModifyTransactionAction::Resolve => "Resolve",
            ModifyTransactionAction::Chargeback => "Chargeback",
        }
    }

    pub open spec fn name_spec(&self) -> Seq<char> {
        match self {
            ModifyTransactionAction::Dispute => "Dispute"@,
            ModifyTransactionAction::Resolve => "Resolve"@,
            ModifyTransactionAction::Chargeback => "Chargeback"@,
        }
    }
}

impl AccountCommandError {
    /// The human-readable description of the error.
    pub open spec fn message(self) -> Seq<char> {
        match self {
            AccountCommandError::AmountRequired { action } => "Amount is required for "@
                + action.name_spec(),
            AccountCommandError::NegativeAmount { action } => "Amount must not be negative for "@
                + action.name_spec(),
            AccountCommandError::ExistingTxRequired { action } =>
                "There should be an existing transaction for "@ + action.name_spec(),
            AccountCommandError::DuplicateTransaction { action } =>
                "There shouldn't be an existing transaction for "@ + action.name_spec(),
        }
    }

    /// The human-readable description of the error.
    pub fn to_string(&self) -> (r: String)
        ensures
            r@ == self.message(),
    {
        match self {
            AccountCommandError::AmountRequired { action } => "Amount is required for ".to_owned().concat(
                action.name(),
            ),
            AccountCommandError::NegativeAmount { action } => "Amount must not be negative for ".to_owned().concat(
                action.name(),
            ),
            AccountCommandError::ExistingTxRequired { action } =>
                "There should be an existing transaction for ".to_owned().concat(action.name()),
            AccountCommandError::DuplicateTransaction { action } =>
                "There shouldn't be an existing transaction for ".to_owned().concat(action.name()),
        }
    }
}

impl TransactionKind {
    /// The creating action of a creation kind.
    pub open spec fn create_action(self) -> Option<CreateTransactionAction> {
        match self {
            TransactionKind::Deposit => Some(CreateTransactionAction::Deposit),
            TransactionKind::Withdrawal => Some(CreateTransactionAction::Withdraw),
            _ => None,
        }
    }

    /// The modifying action of a modification kind.
    pub open spec fn modify_action(self) -> Option<ModifyTransactionAction> {
        match self {
            TransactionKind::Dispute => Some(ModifyTransactionAction::Dispute),
            TransactionKind::Resolve => Some(ModifyTransactionAction::Resolve),
            TransactionKind::Chargeback => Some(ModifyTransactionAction::Chargeback),
            _ => None,
        }
    }
}

/// The outcome of validating a creation of `tx_id`, where `stored` is what
/// the registry holds for it.
pub open spec fn create_validation(
    tx_id: TransactionId,
    stored: Option<CreateTransactionCommand>,
    amount: Option<Amount>,
    action: CreateTransactionAction,
) -> Result<CreateTransactionCommand, AccountCommandError> {
    if stored is Some {
        Err(AccountCommandError::DuplicateTransaction { action })
    } else {
        match amount {
            None => Err(AccountCommandError::AmountRequired { action }),
            Some(a) => if a.units < 0 {
                Err(AccountCommandError::NegativeAmount { action })
            } else {
                Ok(CreateTransactionCommand { tx_id, action, amount: a })
            },
        }
    }
}

/// The outcome of validating a modification of `tx_id`, where `stored` is
/// what the registry holds for it.
pub open spec fn modify_validation(
    tx_id: TransactionId,
    stored: Option<CreateTransactionCommand>,
    action: ModifyTransactionAction,
) -> Result<ModifyTransactionCommand, AccountCommandError> {
    match stored {
        None => Err(AccountCommandError::ExistingTxRequired { action }),
        Some(c) => Ok(
            ModifyTransactionCommand { tx_id, action, amount: c.amount, create_action: c.action },
        ),
    }
}

/// The outcome of validating a record of kind `kind` for `tx_id`.
pub open spec fn validation(
    tx_id: TransactionId,
    stored: Option<CreateTransactionCommand>,
    kind: TransactionKind,
    amount: Option<Amount>,
) -> Result<AccountCommand, AccountCommandError> {
    match kind.create_action() {
        Some(action) => match create_validation(tx_id, stored, amount, action) {
            Ok(c) => Ok(AccountCommand::CreateTx(c)),
            Err(e) => Err(e),
        },
        None => match modify_validation(tx_id, stored, kind.modify_action().unwrap()) {
            Ok(m) => Ok(AccountCommand::ModifyTx(m)),
            Err(e) => Err(e),
        },
    }
}

impl AccountCommand {
    /// Validates a record against the registry slot of its transaction:
    /// `stored` is the creation record held for `tx_id`, if any.
    pub fn parse_command(
        tx_id: TransactionId,
        stored: Option<CreateTransactionCommand>,
        kind: TransactionKind,
        amount: Option<Amount>,
    ) -> (r: Result<AccountCommand, AccountCommandError>)
        ensures
            r == validation(tx_id, stored, kind, amount),
    {
        match kind {
            TransactionKind::Deposit => match Self::parse_create_command(
                tx_id,
                stored,
                amount,
                CreateTransactionAction::Deposit,
            ) {
                Ok(c) => Ok(AccountCommand::CreateTx(c)),
                Err(e) => Err(e),
            },
            TransactionKind::Withdrawal => match Self::parse_create_command(
                tx_id,
                stored,
                amount,
                CreateTransactionAction::Withdraw,
            ) {
                Ok(c) => Ok(AccountCommand::CreateTx(c)),
                Err(e) => Err(e),
            },
            TransactionKind::Dispute => match Self::parse_modify_command(
                tx_id,
                stored,
                ModifyTransactionAction::Dispute,
            ) {
                Ok(m) => Ok(AccountCommand::ModifyTx(m)),
                Err(e) => Err(e),
            },
            TransactionKind::Resolve => match Self::parse_modify_command(
                tx_id,
                stored,
                ModifyTransactionAction::Resolve,
            ) {
                Ok(m) => Ok(AccountCommand::ModifyTx(m)),
                Err(e) => Err(e),
            },
            TransactionKind::Chargeback => match Self::parse_modify_command(
                tx_id,
                stored,
                ModifyTransactionAction::Chargeback,
            ) {
                Ok(m) => Ok(AccountCommand::ModifyTx(m)),
                Err(e) => Err(e),
            },
        }
    }

    fn parse_create_command(
        tx_id: TransactionId,
        stored: Option<CreateTransactionCommand>,
        amount: Option<Amount>,
        action: CreateTransactionAction,
    ) -> (r: Result<CreateTransactionCommand, AccountCommandError>)
        ensures
            r == create_validation(tx_id, stored, amount, action),
    {
        if stored.is_some() {
            return Err(AccountCommandError::DuplicateTransaction { action });
        }
        match amount {
            Some(amount) => {
                if !amount.is_negative() {
                    Ok(CreateTransactionCommand { tx_id, action, amount })
                } else {
                    Err(AccountCommandError::NegativeAmount { action })
                }
            },
            None => Err(AccountCommandError::AmountRequired { action }),
        }
    }

    fn parse_modify_command(
        tx_id: TransactionId,
        stored: Option<CreateTransactionCommand>,
        action: ModifyTransactionAction,
    ) -> (r: Result<ModifyTransactionCommand, AccountCommandError>)
        ensures
            r == modify_validation(tx_id, stored, action),
    {
        match stored {
            Some(entry) => Ok(
                ModifyTransactionCommand {
                    tx_id,
                    action,
                    amount: entry.amount,
                    create_action: entry.action,
                },
            ),
            None => Err(AccountCommandError::ExistingTxRequired { action }),
        }
    }
}

} // verus!
