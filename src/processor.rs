//! The processor: validates each record against the global transaction
//! registry, dispatches it to the client's account, and commits the result.
use std::collections::HashMap;

use vstd::prelude::*;

use crate::account::{Account, AccountError, AccountEvent, AccountModel};
use crate::amount::Amount;
use crate::command::{
    validation, AccountCommand, AccountCommandError, CreateTransactionCommand, TransactionKind,
};
use crate::{ClientId, TransactionId};

verus! {

broadcast use vstd::std_specs::hash::group_hash_axioms;

/// Why a record was rejected.
#[derive(Clone, Copy, Debug, PartialEq, Eq, Structural)]
pub enum TransactionProcessError {
    CommandErr(AccountCommandError),
    AccountErr(AccountError),
}

impl TransactionProcessError {
    /// The human-readable description of the error: that of the error it wraps.
    pub fn to_string(&self) -> (r: String)
        ensures
            r@ == match self {
                TransactionProcessError::CommandErr(e) => e.message(),
                TransactionProcessError::AccountErr(e) => e.message(),
            },
    {
        match self {
            TransactionProcessError::CommandErr(e) => e.to_string(),
            TransactionProcessError::AccountErr(e) => e.to_string(),
        }
    }
}

/// One raw transaction record.
#[derive(Clone, Copy, Debug, PartialEq, Eq, Structural)]
pub struct Transaction {
    pub kind: TransactionKind,
    pub client: ClientId,
    pub tx: TransactionId,
    pub amount: Option<Amount>,
}

/// The balances of one client, as exported.
#[derive(Clone, Copy, Debug, PartialEq, Eq, Structural)]
pub struct AccountSnapshot {
    pub client: ClientId,
    pub available: Amount,
    pub held: Amount,
    pub total: Amount,
    pub locked: bool,
}

/// The mathematical state of the ledger: the registry of created
/// transactions, the accounts, and the clients in order of first reference.
pub ghost struct LedgerModel {
    pub registry: Map<TransactionId, CreateTransactionCommand>,
    pub accounts: Map<ClientId, AccountModel>,
    pub clients: Seq<ClientId>,
}

impl LedgerModel {
    /// The ledger before any record.
    pub open spec fn empty() -> LedgerModel {
        LedgerModel { registry: Map::empty(), accounts: Map::empty(), clients: Seq::empty() }
    }

    /// What the registry holds for `tx`.
    pub open spec fn stored(self, tx: TransactionId) -> Option<CreateTransactionCommand> {
        if self.registry.contains_key(tx) {
            Some(self.registry[tx])
        } else {
            None
        }
    }

    /// The account of `client`; a fresh one where none was created yet.
    pub open spec fn account(self, client: ClientId) -> AccountModel {
        if self.accounts.contains_key(client) {
            self.accounts[client]
        } else {
            AccountModel::initial()
        }
    }

    /// The ledger with an account for `client`, created if it was missing.
    pub open spec fn touch(self, client: ClientId) -> LedgerModel {
        if self.accounts.contains_key(client) {
            self
        } else {
            LedgerModel {
                accounts: self.accounts.insert(client, AccountModel::initial()),
                clients: self.clients.push(client),
                ..self
            }
        }
    }

    /// Well-formedness of every state the processor reaches: the clients
    /// list the accounts once each, balances fit, and every disputed
    /// transaction is a deposit in the registry.
    pub open spec fn inv(self) -> bool {
        &&& self.clients.no_duplicates()
        &&& forall|c: ClientId| self.accounts.contains_key(c) <==> self.clients.contains(c)
        &&& forall|c: ClientId| #[trigger]
            self.accounts.contains_key(c) ==> self.accounts[c].wf()
        &&& forall|c: ClientId, t: TransactionId|
            #![trigger self.accounts[c].disputed.contains(t)]
            self.accounts.contains_key(c) && self.accounts[c].disputed.contains(t)
                ==> self.registry.contains_key(t) && self.registry[t].action
                == crate::command::CreateTransactionAction::Deposit
    }

    /// The exported balances of `client`.
    pub open spec fn snapshot(self, client: ClientId) -> AccountSnapshot {
        let a = self.account(client);
        AccountSnapshot {
            client,
            available: Amount { units: a.available as i128 },
            held: Amount { units: a.held as i128 },
            total: Amount { units: a.total() as i128 },
            locked: a.locked,
        }
    }

    /// The exported balances of every client, in order of first reference.
    pub open spec fn snapshots(self) -> Seq<AccountSnapshot> {
        self.clients.map_values(|c: ClientId| self.snapshot(c))
    }

    /// The event that a validated command produces on the account.
    pub open spec fn event_for(acc: AccountModel, cmd: AccountCommand) -> Result<
        AccountEvent,
        AccountError,
    > {
        match cmd {
            AccountCommand::CreateTx(c) => acc.create_outcome(c),
            AccountCommand::ModifyTx(m) => acc.modify_outcome(m),
        }
    }

    /// The outcome of processing record `t`.
    pub open spec fn outcome(self, t: Transaction) -> Result<(), TransactionProcessError> {
        match validation(t.tx, self.stored(t.tx), t.kind, t.amount) {
            Err(e) => Err(TransactionProcessError::CommandErr(e)),
            Ok(cmd) => match Self::event_for(self.account(t.client), cmd) {
                Err(e) => Err(TransactionProcessError::AccountErr(e)),
                Ok(_) => Ok(()),
            },
        }
    }

    /// The ledger after processing record `t`. A record that fails validation
    /// changes nothing; one that an account refuses only creates that account.
    pub open spec fn step(self, t: Transaction) -> LedgerModel {
        match validation(t.tx, self.stored(t.tx), t.kind, t.amount) {
            Err(_) => self,
            Ok(cmd) => {
                let s = self.touch(t.client);
                let acc = s.accounts[t.client];
                match Self::event_for(acc, cmd) {
                    Err(_) => s,
                    Ok(event) => LedgerModel {
                        registry: match cmd {
                            AccountCommand::CreateTx(c) => s.registry.insert(t.tx, c),
                            AccountCommand::ModifyTx(_) => s.registry,
                        },
                        accounts: s.accounts.insert(t.client, acc.applied(event)),
                        clients: s.clients,
                    },
                }
            },
        }
    }
}

/// A processor of transaction records, one at a time.
pub trait TransactionProcessor {
    /// The processor is in a state from which it can take records.
    spec fn ready(&self) -> bool;

    /// The ledger the processor holds.
    spec fn ledger(&self) -> LedgerModel;

    /// Processes one record.
    fn process_transaction(
        &mut self,
        tx_id: TransactionId,
        client_id: ClientId,
        amount: Option<Amount>,
        kind: TransactionKind,
    ) -> (r: Result<(), TransactionProcessError>)
        requires
            old(self).ready(),
        ensures
            final(self).ready(),
            final(self).ledger() == old(self).ledger().step(
                Transaction { kind, client: client_id, tx: tx_id, amount },
            ),
            r == old(self).ledger().outcome(
                Transaction { kind, client: client_id, tx: tx_id, amount },
            ),
    ;
}

/// Processes records one at a time against an in-memory registry and
/// in-memory accounts.
pub struct InMemoryTransactionProcessor {
    created_tx_list: HashMap<TransactionId, CreateTransactionCommand>,
    accounts: HashMap<ClientId, Account>,
    clients: Vec<ClientId>,
}

impl View for InMemoryTransactionProcessor {
    type V = LedgerModel;

    closed spec fn view(&self) -> LedgerModel {
        LedgerModel {
            registry: self.created_tx_list@,
            accounts: Map::new(
                |c: ClientId| self.accounts@.contains_key(c),
                |c: ClientId| self.accounts@[c]@,
            ),
            clients: self.clients@,
        }
    }
}

impl Default for InMemoryTransactionProcessor {
    fn default() -> (r: InMemoryTransactionProcessor)
        ensures
            r@ == LedgerModel::empty(),
            r.wf(),
    {
        InMemoryTransactionProcessor::new()
    }
}

impl InMemoryTransactionProcessor {
    pub open spec fn wf(&self) -> bool {
        self@.inv()
    }

    /// An empty processor.
    pub fn new() -> (r: InMemoryTransactionProcessor)
        ensures
            r@ == LedgerModel::empty(),
            r.wf(),
    {
        let r = InMemoryTransactionProcessor {
            created_tx_list: HashMap::new(),
            accounts: HashMap::new(),
            clients: Vec::new(),
        };
        assert(r@.accounts =~= Map::empty());
        r
    }

    /// Processes one record: validates it against the registry, lets the
    /// client's account handle it, and on success applies the event and,
    /// for a creation, records the transaction.
    pub fn process_transaction(
        &mut self,
        tx_id: TransactionId,
        client_id: ClientId,
        amount: Option<Amount>,
        kind: TransactionKind,
    ) -> (r: Result<(), TransactionProcessError>)
        requires
            old(self).wf(),
        ensures
            final(self).wf(),
            final(self)@ == old(self)@.step(
                Transaction { kind, client: client_id, tx: tx_id, amount },
            ),
            r == old(self)@.outcome(Transaction { kind, client: client_id, tx: tx_id, amount }),
    {
        let ghost t = Transaction { kind, client: client_id, tx: tx_id, amount };
        let ghost s0 = self@;
        proof {
            lemma_step_keeps_inv(s0, t);
        }
        let stored = match self.created_tx_list.get(&tx_id) {
            Some(c) => Some(*c),
            None => None,
        };
        assert(stored == s0.stored(tx_id));
        let cmd = match AccountCommand::parse_command(tx_id, stored, kind, amount) {
            Ok(cmd) => cmd,
            Err(e) => {
                return Err(TransactionProcessError::CommandErr(e));
            },
        };
        let ghost s1 = s0.touch(client_id);
        let mut acc = match self.accounts.remove(&client_id) {
            Some(acc) => acc,
            None => {
                self.clients.push(client_id);
                Account::new()
            },
        };
        assert(acc@ == s1.accounts[client_id]);
        let result = match cmd {
            AccountCommand::CreateTx(command) => match acc.handle_new_transaction(command) {
                Ok(event) => {
                    acc.apply(&event);
                    self.created_tx_list.insert(tx_id, command);
                    Ok(())
                },
                Err(e) => Err(TransactionProcessError::AccountErr(e)),
            },
            AccountCommand::ModifyTx(command) => match acc.handle_modify_transaction(command) {
                Ok(event) => {
                    acc.apply(&event);
                    Ok(())
                },
                Err(e) => Err(TransactionProcessError::AccountErr(e)),
            },
        };
        self.accounts.insert(client_id, acc);
        assert(self@.accounts =~= s0.step(t).accounts);
        assert(self@.registry =~= s0.step(t).registry);
        result
    }

    /// The number of accounts.
    pub fn accounts_len(&self) -> (r: usize)
        ensures
            r == self@.accounts.len(),
    {
        proof {
            assert(self@.accounts.dom() =~= self.accounts@.dom());
        }
        self.accounts.len()
    }

    /// The number of created transactions in the registry.
    pub fn created_tx_len(&self) -> (r: usize)
        ensures
            r == self@.registry.len(),
    {
        self.created_tx_list.len()
    }

    /// The balances of every account, in order of first reference.
    pub fn snapshots(&self) -> (r: Vec<AccountSnapshot>)
        requires
            self.wf(),
        ensures
            r@ == self@.snapshots(),
    {
        let mut r: Vec<AccountSnapshot> = Vec::new();
        let mut i: usize = 0;
        while i < self.clients.len()
            invariant
                self.wf(),
                i <= self.clients@.len(),
                r@ == self@.snapshots().take(i as int),
            decreases self.clients@.len() - i,
        {
            let client = self.clients[i];
            assert(self@.clients.contains(client));
            let acc = self.accounts.get(&client).unwrap();
            let snap = AccountSnapshot {
                client,
                available: acc.available(),
                held: acc.held(),
                total: acc.total_amount(),
                locked: acc.locked(),
            };
            r.push(snap);
            i = i + 1;
            assert(r@ =~= self@.snapshots().take(i as int));
        }
        assert(r@ =~= self@.snapshots());
        r
    }

    /// The account of `client_id`, if it was created.
    pub fn account(&self, client_id: ClientId) -> (r: Option<&Account>)
        ensures
            match r {
                Some(acc) => self@.accounts.contains_key(client_id) && acc@ == self@.accounts[client_id],
                None => !self@.accounts.contains_key(client_id),
            },
    {
        self.accounts.get(&client_id)
    }
}

impl TransactionProcessor for InMemoryTransactionProcessor {
    open spec fn ready(&self) -> bool {
        self.wf()
    }

    open spec fn ledger(&self) -> LedgerModel {
        self@
    }

    fn process_transaction(
        &mut self,
        tx_id: TransactionId,
        client_id: ClientId,
        amount: Option<Amount>,
        kind: TransactionKind,
    ) -> (r: Result<(), TransactionProcessError>) {
        InMemoryTransactionProcessor::process_transaction(self, tx_id, client_id, amount, kind)
    }
}

/// The ledger after processing `records` in order, starting from `s`.
pub open spec fn run(s: LedgerModel, records: Seq<Transaction>) -> LedgerModel
    decreases records.len(),
{
    if records.len() == 0 {
        s
    } else {
        run(s, records.drop_last()).step(records.last())
    }
}

/// Processing keeps the ledger well-formed.
pub proof fn lemma_run_keeps_inv(s: LedgerModel, records: Seq<Transaction>)
    requires
        s.inv(),
    ensures
        run(s, records).inv(),
    decreases records.len(),
{
    if records.len() > 0 {
        lemma_run_keeps_inv(s, records.drop_last());
        lemma_step_keeps_inv(run(s, records.drop_last()), records.last());
    }
}

/// Adding a missing account changes no balance.
pub proof fn lemma_touch_accounts(s: LedgerModel, client: ClientId)
    ensures
        s.touch(client).registry == s.registry,
        s.touch(client).accounts.contains_key(client),
        s.touch(client).accounts[client] == s.account(client),
        forall|c: ClientId| #[trigger] s.touch(client).account(c) == s.account(c),
{
}

/// Adding a missing account keeps the ledger well-formed.
proof fn lemma_touch_keeps_inv(s: LedgerModel, client: ClientId)
    requires
        s.inv(),
    ensures
        s.touch(client).inv(),
{
    lemma_touch_accounts(s, client);
    let s1 = s.touch(client);
    if !s.accounts.contains_key(client) {
        assert forall|c: ClientId| s1.accounts.contains_key(c) <==> s1.clients.contains(c) by {
            if c != client {
                if s1.clients.contains(c) {
                    let i = choose|i: int| 0 <= i < s1.clients.len() && s1.clients[i] == c;
                    assert(s.clients[i] == c);
                }
                if s.clients.contains(c) {
                    let i = choose|i: int| 0 <= i < s.clients.len() && s.clients[i] == c;
                    assert(s1.clients[i] == c);
                }
            } else {
                assert(s1.clients[s1.clients.len() - 1] == c);
            }
        }
        assert(!s.clients.contains(client));
        assert(s1.clients.no_duplicates());
    }
}

/// A step keeps the ledger well-formed.
pub proof fn lemma_step_keeps_inv(s: LedgerModel, t: Transaction)
    requires
        s.inv(),
    ensures
        s.step(t).inv(),
{
    match validation(t.tx, s.stored(t.tx), t.kind, t.amount) {
        Err(_) => {},
        Ok(cmd) => {
            lemma_touch_keeps_inv(s, t.client);
            let s1 = s.touch(t.client);
            let acc = s1.accounts[t.client];
            match LedgerModel::event_for(acc, cmd) {
                Err(_) => {},
                Ok(event) => {
                    let s2 = s.step(t);
                    assert(s2.accounts.dom() =~= s1.accounts.dom());
                    assert forall|c: ClientId, x: TransactionId|
                        s2.accounts.contains_key(c) && #[trigger] s2.accounts[c].disputed.contains(
                            x,
                        ) implies s2.registry.contains_key(x) && s2.registry[x].action
                        == crate::command::CreateTransactionAction::Deposit by {
                        if c != t.client {
                            assert(s1.accounts[c].disputed.contains(x));
                        } else if event.kind == crate::account::AccountEventKind::Disputed
                            && x == t.tx {
                        } else {
                            assert(acc.disputed.contains(x));
                        }
                        if cmd is CreateTx {
                            assert(!s1.registry.contains_key(t.tx));
                        }
                    }
                },
            }
        },
    }
}

} // verus!
