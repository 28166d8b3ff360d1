//! Runs a whole stream of records through a fresh processor.
use vstd::prelude::*;

use crate::processor::{
    run, AccountSnapshot, InMemoryTransactionProcessor, LedgerModel, Transaction,
    TransactionProcessError,
};

verus! {

/// The records of a stream, without their identifiers.
pub open spec fn records_of(input: Seq<(u64, Transaction)>) -> Seq<Transaction> {
    input.map_values(|p: (u64, Transaction)| p.1)
}

/// The rejected records of `input`, in order, each with its identifier and
/// the reason, when processing starts from `s`.
pub open spec fn failures(s: LedgerModel, input: Seq<(u64, Transaction)>) -> Seq<
    (u64, TransactionProcessError),
>
    decreases input.len(),
{
    if input.len() == 0 {
        Seq::empty()
    } else {
        let prev = input.drop_last();
        let before = run(s, records_of(prev));
        match before.outcome(input.last().1) {
            Err(e) => failures(s, prev).push((input.last().0, e)),
            Ok(_) => failures(s, prev),
        }
    }
}

/// A stream of records, each with an identifier of the caller's (such as
/// the line it was read from).
pub struct Service {
    pub input: Vec<(u64, Transaction)>,
}

/// What a run produces: the final balances of every client referenced, and
/// each rejected record with its identifier and the reason.
pub struct ServiceReport {
    pub accounts: Vec<AccountSnapshot>,
    pub errors: Vec<(u64, TransactionProcessError)>,
}

impl Service {
    /// Processes every record in order, collecting the rejections, and
    /// exports the final balances.
    pub fn run(self) -> (r: ServiceReport)
        ensures
            r.accounts@ == run(LedgerModel::empty(), records_of(self.input@)).snapshots(),
            r.errors@ == failures(LedgerModel::empty(), self.input@),
    {
        let mut processor = InMemoryTransactionProcessor::new();
        let mut errors: Vec<(u64, TransactionProcessError)> = Vec::new();
        let mut i: usize = 0;
        while i < self.input.len()
            invariant
                i <= self.input@.len(),
                processor.wf(),
                processor@ == run(LedgerModel::empty(), records_of(self.input@.take(i as int))),
                errors@ == failures(LedgerModel::empty(), self.input@.take(i as int)),
            decreases self.input@.len() - i,
        {
            let (line, t) = self.input[i];
            let ghost before = self.input@.take(i as int);
            let ghost after = self.input@.take(i + 1);
            assert(after.drop_last() =~= before);
            assert(records_of(after).drop_last() =~= records_of(before));
            match processor.process_transaction(t.tx, t.client, t.amount, t.kind) {
                Ok(()) => {},
                Err(e) => {
                    errors.push((line, e));
                },
            }
            i = i + 1;
        }
        assert(self.input@.take(self.input@.len() as int) =~= self.input@);
        ServiceReport { accounts: processor.snapshots(), errors }
    }
}

} // verus!
