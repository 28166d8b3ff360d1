//! The per-client account state machine.
//!
//! Commands are checked by the two handlers, which turn a valid command into
//! an event; [`Account::apply`] then changes the account by that event.
use std::collections::HashSet;

use vstd::prelude::*;
use vstd::string::StringExecFns;

use crate::amount::Amount;
use crate::command::{
    CreateTransactionAction, CreateTransactionCommand, ModifyTransactionAction,
    ModifyTransactionCommand,
};
use crate::TransactionId;

verus! {

broadcast use vstd::std_specs::hash::group_hash_axioms;

/// What happened to an account.
#[derive(Clone, Copy, Debug, PartialEq, Eq, Structural)]
pub enum AccountEventKind {
    Deposited,
    Withdrawn,
    Disputed,
    Resolved,
    Chargedback,
}

/// A validated change of an account.
#[derive(Clone, Copy, Debug, PartialEq, Eq, Structural)]
pub struct AccountEvent {
    pub transaction_id: TransactionId,
    pub amount: Amount,
    pub kind: AccountEventKind,
}

/// Business errors of a command on an account.
#[derive(Clone, Copy, Debug, PartialEq, Eq, Structural)]
pub enum AccountError {
    AccountFrozen,
    InsufficientFunds,
    TransactionDisputeStateMismatch { action: ModifyTransactionAction, under_dispute: bool },
    DisputeNotSupported,
    /// The balances after the command would not fit in an [`Amount`].
    BalanceOutOfRange,
}

impl AccountError {
    /// The human-readable description of the error.
    pub open spec fn message(self) -> Seq<char> {
        match self {
            AccountError::AccountFrozen => "Account is frozen, no further operations are allowed"@,
            AccountError::InsufficientFunds => "Insufficient funds"@,
            AccountError::TransactionDisputeStateMismatch { action, under_dispute } => action.name_spec()
                + " cannot be initiated, because the transaction is "@ + if under_dispute {
                "already under dispute"@
            } else {
                "not under dispute"@
            },
            AccountError::DisputeNotSupported =>
                "Dispute operation is not supported for parent transaction"@,
            AccountError::BalanceOutOfRange => "Balances would leave the range of an amount"@,
        }
    }

    /// The human-readable description of the error.
    pub fn to_string(&self) -> (r: String)
        ensures
            r@ == self.message(),
    {
        match self {
            AccountError::AccountFrozen => "Account is frozen, no further operations are allowed".to_owned(),
            AccountError::InsufficientFunds => "Insufficient funds".to_owned(),
            AccountError::TransactionDisputeStateMismatch { action, under_dispute } => {
                let state = if *under_dispute {
                    "already under dispute"
                } else {
                    "not under dispute"
                };
                action.name().to_owned().concat(
                    " cannot be initiated, because the transaction is ",
                ).concat(state)
            },
            AccountError::DisputeNotSupported =>
                "Dispute operation is not supported for parent transaction".to_owned(),
            AccountError::BalanceOutOfRange => "Balances would leave the range of an amount".to_owned(),
        }
    }
}

/// Whether `v` fits in an `i128`.
pub open spec fn in_range(v: int) -> bool {
    i128::MIN <= v <= i128::MAX
}

/// The mathematical state of an account: balances in units, whether it is
/// frozen, and the transactions under dispute.
pub ghost struct AccountModel {
    pub available: int,
    pub held: int,
    pub locked: bool,
    pub disputed: Set<TransactionId>,
}

impl AccountModel {
    /// A fresh account: zero balances, unlocked, nothing disputed.
    pub open spec fn initial() -> AccountModel {
        AccountModel { available: 0, held: 0, locked: false, disputed: Set::empty() }
    }

    pub open spec fn total(self) -> int {
        self.available + self.held
    }

    /// The balances and their total fit in an [`Amount`].
    pub open spec fn wf(self) -> bool {
        &&& in_range(self.available)
        &&& in_range(self.held)
        &&& in_range(self.total())
    }

    /// The account after `event`.
    pub open spec fn applied(self, event: AccountEvent) -> AccountModel {
        let a = event.amount.units as int;
        let id = event.transaction_id;
        match event.kind {
            AccountEventKind::Deposited => AccountModel { available: self.available + a, ..self },
            AccountEventKind::Withdrawn => AccountModel { available: self.available - a, ..self },
            AccountEventKind::Disputed => AccountModel {
                available: self.available - a,
                held: self.held + a,
                disputed: self.disputed.insert(id),
                ..self
            },
            AccountEventKind::Resolved => AccountModel {
                available: self.available + a,
                held: self.held - a,
                disputed: self.disputed.remove(id),
                ..self
            },
            AccountEventKind::Chargedback => AccountModel {
                held: self.held - a,
                locked: true,
                disputed: self.disputed.remove(id),
                ..self
            },
        }
    }

    /// `event`, if the balances after it fit.
    pub open spec fn checked(self, event: AccountEvent) -> Result<AccountEvent, AccountError> {
        if self.applied(event).wf() {
            Ok(event)
        } else {
            Err(AccountError::BalanceOutOfRange)
        }
    }

    /// The outcome of a creation command on this account.
    pub open spec fn create_outcome(self, command: CreateTransactionCommand) -> Result<
        AccountEvent,
        AccountError,
    > {
        if self.locked {
            Err(AccountError::AccountFrozen)
        } else {
            match command.action {
                CreateTransactionAction::Deposit => self.checked(
                    AccountEvent {
                        transaction_id: command.tx_id,
                        amount: command.amount,
                        kind: AccountEventKind::Deposited,
                    },
                ),
                CreateTransactionAction::Withdraw => if self.available >= command.amount.units {
                    self.checked(
                        AccountEvent {
                            transaction_id: command.tx_id,
                            amount: command.amount,
                            kind: AccountEventKind::Withdrawn,
                        },
                    )
                } else {
                    Err(AccountError::InsufficientFunds)
                },
            }
        }
    }

    /// The outcome of a modification command on this account.
    pub open spec fn modify_outcome(self, command: ModifyTransactionCommand) -> Result<
        AccountEvent,
        AccountError,
    > {
        let under_dispute = self.disputed.contains(command.tx_id);
        let event = |kind: AccountEventKind|
            AccountEvent { transaction_id: command.tx_id, amount: command.amount, kind };
        if self.locked {
            Err(AccountError::AccountFrozen)
        } else {
            match (command.action, under_dispute) {
                (ModifyTransactionAction::Dispute, false) => match command.create_action {
                    CreateTransactionAction::Deposit => self.checked(
                        event(AccountEventKind::Disputed),
                    ),
                    CreateTransactionAction::Withdraw => Err(AccountError::DisputeNotSupported),
                },
                (ModifyTransactionAction::Resolve, true) => self.checked(
                    event(AccountEventKind::Resolved),
                ),
                (ModifyTransactionAction::Chargeback, true) => self.checked(
                    event(AccountEventKind::Chargedback),
                ),
                _ => Err(
                    AccountError::TransactionDisputeStateMismatch {
                        action: command.action,
                        under_dispute,
                    },
                ),
            }
        }
    }
}

/// A client's account.
#[derive(Debug)]
pub struct Account {
    pub available: Amount,
    pub held: Amount,
    pub locked: bool,
    pub txs_under_dispute: HashSet<TransactionId>,
}

impl View for Account {
    type V = AccountModel;

    open spec fn view(&self) -> AccountModel {
        AccountModel {
            available: self.available.units as int,
            held: self.held.units as int,
            locked: self.locked,
            disputed: self.txs_under_dispute@,
        }
    }
}

impl Default for Account {
    fn default() -> (r: Account)
        ensures
            r@ == AccountModel::initial(),
    {
        Account::new()
    }
}

impl Account {
    /// Balances and total fit in an [`Amount`].
    pub open spec fn wf(&self) -> bool {
        self@.wf()
    }

    /// A fresh account: zero balances, unlocked, nothing disputed.
    pub fn new() -> (r: Account)
        ensures
            r@ == AccountModel::initial(),
            r.wf(),
    {
        Account {
            available: Amount::zero(),
            held: Amount::zero(),
            locked: false,
            txs_under_dispute: HashSet::new(),
        }
    }

    pub fn available(&self) -> (r: Amount)
        ensures
            r == self.available,
    {
        self.available
    }

    pub fn held(&self) -> (r: Amount)
        ensures
            r == self.held,
    {
        self.held
    }

    pub fn locked(&self) -> (r: bool)
        ensures
            r == self.locked,
    {
        self.locked
    }

    /// Whether `tx_id` is under dispute on this account.
    pub fn is_disputed(&self, tx_id: TransactionId) -> (r: bool)
        ensures
            r == self@.disputed.contains(tx_id),
    {
        self.txs_under_dispute.contains(&tx_id)
    }

    /// The total of the account: available plus held.
    pub fn total_amount(&self) -> (r: Amount)
        requires
            self.wf(),
        ensures
            r.units == self@.total(),
    {
        Amount { units: self.available.units + self.held.units }
    }

    /// Whether the balances after `event` fit in an [`Amount`].
    fn fits_after(&self, event: &AccountEvent) -> (r: bool)
        ensures
            r == self@.applied(*event).wf(),
    {
        let a = self.available.units;
        let h = self.held.units;
        let x = event.amount.units;
        let (na, nh) = match event.kind {
            AccountEventKind::Deposited => (a.checked_add(x), Some(h)),
            AccountEventKind::Withdrawn => (a.checked_sub(x), Some(h)),
            AccountEventKind::Disputed => (a.checked_sub(x), h.checked_add(x)),
            AccountEventKind::Resolved => (a.checked_add(x), h.checked_sub(x)),
            AccountEventKind::Chargedback => (Some(a), h.checked_sub(x)),
        };
        match (na, nh) {
            (Some(na), Some(nh)) => na.checked_add(nh).is_some(),
            _ => false,
        }
    }

    fn checked(&self, event: AccountEvent) -> (r: Result<AccountEvent, AccountError>)
        ensures
            r == self@.checked(event),
    {
        if self.fits_after(&event) {
            Ok(event)
        } else {
            Err(AccountError::BalanceOutOfRange)
        }
    }

    /// Changes the account by `event`. The event must come from a handler of
    /// this account, which guarantees that the new balances fit.
    pub fn apply(&mut self, event: &AccountEvent)
        requires
            old(self)@.applied(*event).wf(),
        ensures
            final(self)@ == old(self)@.applied(*event),
            final(self).wf(),
    {
        let x = event.amount.units;
        match event.kind {
            AccountEventKind::Deposited => {
                self.available = Amount { units: self.available.units + x };
            },
            AccountEventKind::Withdrawn => {
                self.available = Amount { units: self.available.units - x };
            },
            AccountEventKind::Disputed => {
                self.available = Amount { units: self.available.units - x };
                self.held = Amount { units: self.held.units + x };
                self.txs_under_dispute.insert(event.transaction_id);
            },
            AccountEventKind::Resolved => {
                self.available = Amount { units: self.available.units + x };
                self.held = Amount { units: self.held.units - x };
                self.txs_under_dispute.remove(&event.transaction_id);
            },
            AccountEventKind::Chargedback => {
                self.held = Amount { units: self.held.units - x };
                self.locked = true;
                self.txs_under_dispute.remove(&event.transaction_id);
            },
        }
    }

    /// Checks a creation command against the account and returns its event.
    pub fn handle_new_transaction(&self, command: CreateTransactionCommand) -> (r: Result<
        AccountEvent,
        AccountError,
    >)
        ensures
            r == self@.create_outcome(command),
    {
        if self.locked {
            return Err(AccountError::AccountFrozen);
        }
        match command.action {
            CreateTransactionAction::Deposit => self.checked(
                AccountEvent {
                    transaction_id: command.tx_id,
                    amount: command.amount,
                    kind: AccountEventKind::Deposited,
                },
            ),
            CreateTransactionAction::Withdraw => {
                if self.available.units >= command.amount.units {
                    self.checked(
                        AccountEvent {
                            transaction_id: command.tx_id,
                            amount: command.amount,
                            kind: AccountEventKind::Withdrawn,
                        },
                    )
                } else {
                    Err(AccountError::InsufficientFunds)
                }
            },
        }
    }

    /// Checks a modification command against the account and returns its event.
    pub fn handle_modify_transaction(&self, command: ModifyTransactionCommand) -> (r: Result<
        AccountEvent,
        AccountError,
    >)
        ensures
            r == self@.modify_outcome(command),
    {
        if self.locked {
            return Err(AccountError::AccountFrozen);
        }
        let transaction_id = command.tx_id;
        let amount = command.amount;
        let under_dispute = self.txs_under_dispute.contains(&command.tx_id);
        match (command.action, under_dispute) {
            (ModifyTransactionAction::Dispute, false) => match command.create_action {
                CreateTransactionAction::Deposit => self.checked(
                    AccountEvent { transaction_id, amount, kind: AccountEventKind::Disputed },
                ),
                CreateTransactionAction::Withdraw => Err(AccountError::DisputeNotSupported),
            },
            (ModifyTransactionAction::Resolve, true) => self.checked(
                AccountEvent { transaction_id, amount, kind: AccountEventKind::Resolved },
            ),
            (ModifyTransactionAction::Chargeback, true) => self.checked(
                AccountEvent { transaction_id, amount, kind: AccountEventKind::Chargedback },
            ),
            _ => Err(
                AccountError::TransactionDisputeStateMismatch {
                    action: command.action,
                    under_dispute,
                },
            ),
        }
    }
}

} // verus!
