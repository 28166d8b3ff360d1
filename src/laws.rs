//! Laws of the ledger, stated over its model and proved.
use vstd::prelude::*;

use crate::command::{
    validation, AccountCommand, AccountCommandError, CreateTransactionAction,
    CreateTransactionCommand, ModifyTransactionCommand,
    TransactionKind,
};
use crate::account::{AccountError, AccountEvent, AccountEventKind};
use crate::amount::Amount;
use crate::{ClientId, TransactionId};
use crate::processor::{
    lemma_run_keeps_inv, lemma_touch_accounts, run, LedgerModel, Transaction,
    TransactionProcessError,
};

verus! {

/// Two ledgers hold the same registry and the same balances for every
/// client; a client without an account counts as a fresh account.
pub open spec fn same_balances(a: LedgerModel, b: LedgerModel) -> bool {
    &&& a.registry == b.registry
    &&& forall|c| #[trigger] a.account(c) == b.account(c)
}

/// The records of `records` that are accepted when processing starts from `s`.
pub open spec fn accepted(s: LedgerModel, records: Seq<Transaction>) -> Seq<Transaction>
    decreases records.len(),
{
    if records.len() == 0 {
        Seq::empty()
    } else {
        let prev = records.drop_last();
        if run(s, prev).outcome(records.last()) is Ok {
            accepted(s, prev).push(records.last())
        } else {
            accepted(s, prev)
        }
    }
}

/// Every account of every reachable ledger has a total that fits and equals
/// its available plus held funds.
pub proof fn reachable_totals_are_sums(records: Seq<Transaction>)
    ensures
        run(LedgerModel::empty(), records).inv(),
        forall|c|
            #![trigger run(LedgerModel::empty(), records).snapshot(c)]
            {
                let snap = run(LedgerModel::empty(), records).snapshot(c);
                snap.total.units == snap.available.units + snap.held.units
            },
{
    assert(LedgerModel::empty().inv());
    lemma_run_keeps_inv(LedgerModel::empty(), records);
}

/// A record is processed alike on two ledgers with the same balances, and
/// leaves them with the same balances.
proof fn lemma_step_congruent(a: LedgerModel, b: LedgerModel, t: Transaction)
    requires
        same_balances(a, b),
    ensures
        a.outcome(t) == b.outcome(t),
        same_balances(a.step(t), b.step(t)),
{
    lemma_touch_accounts(a, t.client);
    lemma_touch_accounts(b, t.client);
    assert(a.stored(t.tx) == b.stored(t.tx));
    assert(a.account(t.client) == b.account(t.client));
    let (a2, b2) = (a.step(t), b.step(t));
    assert forall|c| #[trigger] a2.account(c) == b2.account(c) by {
        assert(a.account(c) == b.account(c));
    }
}

/// A rejected record changes no balance.
proof fn lemma_rejected_step(s: LedgerModel, t: Transaction)
    requires
        s.outcome(t) is Err,
    ensures
        same_balances(s.step(t), s),
{
    lemma_touch_accounts(s, t.client);
    assert forall|c| #[trigger] s.step(t).account(c) == s.account(c) by {}
}

/// Every record of `records` is accepted when they are processed in order from `s`.
pub open spec fn all_accepted(s: LedgerModel, records: Seq<Transaction>) -> bool {
    forall|i: int|
        0 <= i < records.len() ==> (#[trigger] run(s, records.take(i))).outcome(records[i]) is Ok
}

proof fn lemma_replay(s: LedgerModel, r: LedgerModel, records: Seq<Transaction>)
    requires
        same_balances(s, r),
    ensures
        same_balances(run(s, records), run(r, accepted(s, records))),
        all_accepted(r, accepted(s, records)),
    decreases records.len(),
{
    if records.len() > 0 {
        let prev = records.drop_last();
        let last = records.last();
        lemma_replay(s, r, prev);
        let before = run(s, prev);
        let acc = accepted(s, prev);
        let replayed = run(r, acc);
        lemma_step_congruent(before, replayed, last);
        if before.outcome(last) is Ok {
            let acc2 = acc.push(last);
            assert(acc2.drop_last() =~= acc);
            assert forall|i: int| 0 <= i < acc2.len() implies (#[trigger] run(
                r,
                acc2.take(i),
            )).outcome(acc2[i]) is Ok by {
                if i < acc.len() {
                    assert(acc2.take(i) =~= acc.take(i));
                    assert(run(r, acc.take(i)).outcome(acc[i]) is Ok);
                } else {
                    assert(acc2.take(i) =~= acc);
                }
            }
        } else {
            lemma_rejected_step(before, last);
            assert forall|c| #[trigger] run(s, records).account(c) == replayed.account(c) by {
                assert(before.step(last).account(c) == before.account(c));
                assert(before.account(c) == replayed.account(c));
            }
        }
    }
}

/// Replaying only the accepted records of a stream, from an empty ledger,
/// accepts each of them again and ends with the same registry and the same
/// balances for every client.
pub proof fn replaying_accepted_records_gives_same_balances(records: Seq<Transaction>)
    ensures
        all_accepted(LedgerModel::empty(), accepted(LedgerModel::empty(), records)),
        same_balances(
            run(LedgerModel::empty(), records),
            run(LedgerModel::empty(), accepted(LedgerModel::empty(), records)),
        ),
{
    lemma_replay(LedgerModel::empty(), LedgerModel::empty(), records);
}

/// A record never removes a transaction from the registry.
proof fn lemma_registry_grows(s: LedgerModel, records: Seq<Transaction>, tx: u32)
    requires
        s.registry.contains_key(tx),
    ensures
        run(s, records).registry.contains_key(tx),
    decreases records.len(),
{
    if records.len() > 0 {
        lemma_registry_grows(s, records.drop_last(), tx);
        lemma_touch_accounts(run(s, records.drop_last()), records.last().client);
    }
}

/// Once a creation of a transaction id is accepted, every later creation
/// with that id fails as a duplicate, whichever client it names.
pub proof fn creation_ids_are_never_reused(
    s: LedgerModel,
    first: Transaction,
    later: Seq<Transaction>,
    again: Transaction,
)
    requires
        first.kind.create_action() is Some,
        s.outcome(first) is Ok,
        again.kind.create_action() is Some,
        again.tx == first.tx,
    ensures
        run(s.step(first), later).outcome(again) == Err::<(), _>(
            TransactionProcessError::CommandErr(
                AccountCommandError::DuplicateTransaction {
                    action: again.kind.create_action().unwrap(),
                },
            ),
        ),
{
    lemma_touch_accounts(s, first.client);
    assert(s.step(first).registry.contains_key(first.tx));
    lemma_registry_grows(s.step(first), later, first.tx);
}

/// Validating a modification fails exactly when the registry slot is vacant;
/// otherwise the command carries the stored amount and creating action, and
/// the record's own amount is ignored.
pub proof fn modification_needs_a_stored_creation(
    tx: TransactionId,
    stored: Option<CreateTransactionCommand>,
    kind: TransactionKind,
    amount: Option<Amount>,
)
    requires
        kind.modify_action() is Some,
    ensures
        validation(tx, stored, kind, amount) == match stored {
            None => Err(
                AccountCommandError::ExistingTxRequired { action: kind.modify_action().unwrap() },
            ),
            Some(c) => Ok(
                AccountCommand::ModifyTx(
                    ModifyTransactionCommand {
                        tx_id: tx,
                        action: kind.modify_action().unwrap(),
                        amount: c.amount,
                        create_action: c.action,
                    },
                ),
            ),
        },
{
}

/// A modification of a transaction id that was never created fails, and
/// changes nothing.
pub proof fn unknown_transactions_cannot_be_modified(s: LedgerModel, t: Transaction)
    requires
        t.kind.modify_action() is Some,
        !s.registry.contains_key(t.tx),
    ensures
        s.outcome(t) == Err::<(), _>(
            TransactionProcessError::CommandErr(
                AccountCommandError::ExistingTxRequired { action: t.kind.modify_action().unwrap() },
            ),
        ),
        s.step(t) == s,
{
}

/// Resolving or charging back an existing transaction that is not under
/// dispute on an unfrozen account fails with a dispute-state mismatch that
/// reports it as not under dispute.
pub proof fn undisputed_transactions_cannot_be_settled(s: LedgerModel, t: Transaction)
    requires
        t.kind == TransactionKind::Resolve || t.kind == TransactionKind::Chargeback,
        s.registry.contains_key(t.tx),
        !s.account(t.client).locked,
        !s.account(t.client).disputed.contains(t.tx),
    ensures
        s.outcome(t) == Err::<(), _>(
            TransactionProcessError::AccountErr(
                AccountError::TransactionDisputeStateMismatch {
                    action: t.kind.modify_action().unwrap(),
                    under_dispute: false,
                },
            ),
        ),
{
}

/// Disputing a withdrawal fails on every unfrozen account.
pub proof fn withdrawals_cannot_be_disputed(s: LedgerModel, t: Transaction)
    requires
        s.inv(),
        t.kind == TransactionKind::Dispute,
        s.registry.contains_key(t.tx),
        s.registry[t.tx].action == CreateTransactionAction::Withdraw,
        !s.account(t.client).locked,
    ensures
        s.outcome(t) == Err::<(), _>(
            TransactionProcessError::AccountErr(AccountError::DisputeNotSupported),
        ),
{
    if s.accounts.contains_key(t.client) {
        assert(!s.accounts[t.client].disputed.contains(t.tx));
    }
}

/// On a reachable ledger, disputing a deposit that is not under dispute on an
/// unfrozen account, resolving it and disputing it again are all accepted,
/// provided the dispute keeps the balances in range. Afterwards the deposit
/// is under dispute, its amount has moved from available to held funds, and
/// the registry is unchanged.
pub proof fn dispute_can_follow_resolve(
    s: LedgerModel,
    tx: TransactionId,
    client: ClientId,
    amount: Option<Amount>,
)
    requires
        s.inv(),
        s.registry.contains_key(tx),
        s.registry[tx].action == CreateTransactionAction::Deposit,
        !s.account(client).locked,
        !s.account(client).disputed.contains(tx),
        s.account(client).applied(
            AccountEvent {
                transaction_id: tx,
                amount: s.registry[tx].amount,
                kind: AccountEventKind::Disputed,
            },
        ).wf(),
    ensures
        ({
            let dispute = Transaction { kind: TransactionKind::Dispute, client, tx, amount };
            let resolve = Transaction { kind: TransactionKind::Resolve, client, tx, amount };
            let s1 = s.step(dispute);
            let s2 = s1.step(resolve);
            let s3 = s2.step(dispute);
            let a = s.registry[tx].amount.units as int;
            &&& s.outcome(dispute) is Ok
            &&& s1.outcome(resolve) is Ok
            &&& s2.outcome(dispute) is Ok
            &&& s3.registry == s.registry
            &&& s3.account(client).disputed.contains(tx)
            &&& s3.account(client).available == s.account(client).available - a
            &&& s3.account(client).held == s.account(client).held + a
            &&& !s3.account(client).locked
        }),
{
    let dispute = Transaction { kind: TransactionKind::Dispute, client, tx, amount };
    let resolve = Transaction { kind: TransactionKind::Resolve, client, tx, amount };
    let s1 = s.step(dispute);
    let s2 = s1.step(resolve);
    lemma_touch_accounts(s, client);
    lemma_touch_accounts(s1, client);
    lemma_touch_accounts(s2, client);
    assert(s.account(client).wf()) by {
        if s.accounts.contains_key(client) {
            assert(s.accounts[client].wf());
        }
    }
    assert(s1.account(client).disputed.contains(tx));
    assert(s2.account(client).available == s.account(client).available);
    assert(s2.account(client).held == s.account(client).held);
    assert(!s2.account(client).disputed.contains(tx));
}

/// Adds the registered amount of transaction `t` to `total`.
pub open spec fn add_registered(registry: Map<TransactionId, CreateTransactionCommand>) -> spec_fn(
    int,
    TransactionId,
) -> int {
    |total: int, t: TransactionId| total + registry[t].amount.units
}

/// The sum of the registered amounts of the transactions in `ids`.
pub open spec fn registered_total(
    registry: Map<TransactionId, CreateTransactionCommand>,
    ids: Set<TransactionId>,
) -> int {
    ids.fold(0, add_registered(registry))
}

/// Every registered amount is non-negative, and every account holds exactly
/// the amounts of its disputed transactions.
pub open spec fn held_matches_disputes(s: LedgerModel) -> bool {
    &&& forall|t: TransactionId| #[trigger]
        s.registry.contains_key(t) ==> s.registry[t].amount.units >= 0
    &&& forall|c: ClientId| #[trigger]
        s.accounts.contains_key(c) ==> {
            &&& s.accounts[c].disputed.finite()
            &&& s.accounts[c].held == registered_total(s.registry, s.accounts[c].disputed)
        }
}

proof fn lemma_add_registered_commutes(registry: Map<TransactionId, CreateTransactionCommand>)
    ensures
        vstd::set::fold::is_fun_commutative(add_registered(registry)),
{
}

proof fn lemma_registered_total_insert(
    registry: Map<TransactionId, CreateTransactionCommand>,
    ids: Set<TransactionId>,
    t: TransactionId,
)
    requires
        ids.finite(),
        !ids.contains(t),
    ensures
        registered_total(registry, ids.insert(t)) == registered_total(registry, ids)
            + registry[t].amount.units,
{
    lemma_add_registered_commutes(registry);
    vstd::set::fold::lemma_fold_insert(ids, 0, add_registered(registry), t);
}

proof fn lemma_registered_total_remove(
    registry: Map<TransactionId, CreateTransactionCommand>,
    ids: Set<TransactionId>,
    t: TransactionId,
)
    requires
        ids.finite(),
        ids.contains(t),
    ensures
        registered_total(registry, ids.remove(t)) == registered_total(registry, ids)
            - registry[t].amount.units,
{
    lemma_registered_total_insert(registry, ids.remove(t), t);
    assert(ids.remove(t).insert(t) =~= ids);
}

/// The total only reads the registry at the given ids.
proof fn lemma_registered_total_agree(
    r1: Map<TransactionId, CreateTransactionCommand>,
    r2: Map<TransactionId, CreateTransactionCommand>,
    ids: Set<TransactionId>,
)
    requires
        ids.finite(),
        forall|t: TransactionId| ids.contains(t) ==> #[trigger] r1[t] == r2[t],
    ensures
        registered_total(r1, ids) == registered_total(r2, ids),
    decreases ids.len(),
{
    if ids.len() == 0 {
        assert(ids =~= Set::empty());
        vstd::set::fold::lemma_fold_empty(0, add_registered(r1));
        vstd::set::fold::lemma_fold_empty(0, add_registered(r2));
    } else {
        let t = ids.choose();
        assert(ids.contains(t)) by {
            vstd::set_lib::lemma_set_empty_equivalency_len(ids);
        }
        lemma_registered_total_agree(r1, r2, ids.remove(t));
        lemma_registered_total_remove(r1, ids, t);
        lemma_registered_total_remove(r2, ids, t);
    }
}

proof fn lemma_step_keeps_held(s: LedgerModel, t: Transaction)
    requires
        s.inv(),
        held_matches_disputes(s),
    ensures
        held_matches_disputes(s.step(t)),
{
    lemma_touch_accounts(s, t.client);
    let s1 = s.touch(t.client);
    assert(held_matches_disputes(s1)) by {
        assert forall|c: ClientId| #[trigger] s1.accounts.contains_key(c) implies {
            &&& s1.accounts[c].disputed.finite()
            &&& s1.accounts[c].held == registered_total(s1.registry, s1.accounts[c].disputed)
        } by {
            if !s.accounts.contains_key(c) {
                vstd::set::fold::lemma_fold_empty(0, add_registered(s.registry));
            }
        }
    }
    let s2 = s.step(t);
    match validation(t.tx, s.stored(t.tx), t.kind, t.amount) {
        Err(_) => {},
        Ok(cmd) => {
            let acc = s1.accounts[t.client];
            match LedgerModel::event_for(acc, cmd) {
                Err(_) => {},
                Ok(event) => {
                    assert forall|c: ClientId| #[trigger] s2.accounts.contains_key(c) implies {
                        &&& s2.accounts[c].disputed.finite()
                        &&& s2.accounts[c].held == registered_total(
                            s2.registry,
                            s2.accounts[c].disputed,
                        )
                    } by {
                        let d = s1.accounts[c].disputed;
                        assert(forall|x: TransactionId|
                            d.contains(x) ==> s1.registry.contains_key(x));
                        if cmd is CreateTx {
                            assert(!s1.registry.contains_key(t.tx));
                            assert(forall|x: TransactionId| d.contains(x) ==> #[trigger]
                                s1.registry[x] == s2.registry[x]);
                            lemma_registered_total_agree(s1.registry, s2.registry, d);
                        }
                        if c == t.client {
                            if event.kind == AccountEventKind::Disputed {
                                lemma_registered_total_insert(s1.registry, d, t.tx);
                            } else if event.kind == AccountEventKind::Resolved || event.kind
                                == AccountEventKind::Chargedback {
                                lemma_registered_total_remove(s1.registry, d, t.tx);
                            }
                        }
                    }
                },
            }
        },
    }
}

proof fn lemma_run_keeps_held(records: Seq<Transaction>)
    ensures
        run(LedgerModel::empty(), records).inv(),
        held_matches_disputes(run(LedgerModel::empty(), records)),
    decreases records.len(),
{
    if records.len() == 0 {
        assert(LedgerModel::empty().inv());
    } else {
        lemma_run_keeps_held(records.drop_last());
        lemma_step_keeps_held(run(LedgerModel::empty(), records.drop_last()), records.last());
        lemma_run_keeps_inv(LedgerModel::empty(), records);
    }
}

/// On every reachable ledger, each registered amount is non-negative and each
/// account's held funds are exactly the sum of the registered amounts of the
/// transactions under dispute on it.
pub proof fn held_is_sum_of_disputed_amounts(records: Seq<Transaction>)
    ensures
        held_matches_disputes(run(LedgerModel::empty(), records)),
{
    lemma_run_keeps_held(records);
}

/// A frozen account stays frozen.
proof fn lemma_frozen_stays(s: LedgerModel, records: Seq<Transaction>, client: u16)
    requires
        s.account(client).locked,
    ensures
        run(s, records).account(client).locked,
    decreases records.len(),
{
    if records.len() > 0 {
        lemma_frozen_stays(s, records.drop_last(), client);
        let before = run(s, records.drop_last());
        let t = records.last();
        lemma_touch_accounts(before, t.client);
        assert(before.touch(t.client).account(client) == before.account(client));
    }
}

/// After an accepted chargeback, every later record for that client that
/// passes validation fails because the account is frozen.
pub proof fn chargeback_freezes_account(
    s: LedgerModel,
    charge: Transaction,
    later: Seq<Transaction>,
    t: Transaction,
)
    requires
        charge.kind == TransactionKind::Chargeback,
        s.outcome(charge) is Ok,
        t.client == charge.client,
        validation(
            t.tx,
            run(s.step(charge), later).stored(t.tx),
            t.kind,
            t.amount,
        ) is Ok,
    ensures
        run(s.step(charge), later).outcome(t) == Err::<(), _>(
            TransactionProcessError::AccountErr(AccountError::AccountFrozen),
        ),
{
    lemma_touch_accounts(s, charge.client);
    assert(s.step(charge).account(charge.client).locked);
    lemma_frozen_stays(s.step(charge), later, charge.client);
}

} // verus!
