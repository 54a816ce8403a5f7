//! Requests from end to end, on any ledger.
//!
//! A ledger is any value, and an [`Executor`] says what executing a transaction on it does.
use vstd::prelude::*;

use crate::error::ErrorView;
use crate::ledger::{FailedTransactionMetadataView, StepView, TransactionMetadataView};
use crate::rpc::{simulation_of, submission_of, SendBundleConfig, SimulateBundleConfig};
use crate::simulation::{
    result_of, BundleTransactionResultView, RpcSimulateBundleResultView, SimulationView,
};
use crate::submission::{ProgressView, SubmissionView};
use crate::transaction::DecodedTransactionView;

verus! {

/// The outcome of a transaction with the given bytes on a ledger, and the ledger after it.
pub type Executor<L> = spec_fn(L, Seq<u8>) -> (
    Result<TransactionMetadataView, FailedTransactionMetadataView>,
    L,
);

/// What a request can reach: a copy of the ledger, the ledger as it was saved, if it was, and
/// the ledger.
pub ghost struct Ledgers<L> {
    pub copy: L,
    pub saved: Option<L>,
    pub ledger: L,
}

impl<L> Ledgers<L> {
    /// A copy and the ledger, with nothing saved.
    pub open spec fn new(copy: L, ledger: L) -> Self {
        Ledgers { copy, saved: None, ledger }
    }
}

/// A ledger after the first `k` transactions, each executed on what the one before it left.
pub open spec fn ledger_after<L>(
    execute: Executor<L>,
    ledger: L,
    transactions: Seq<DecodedTransactionView>,
    k: nat,
) -> L
    decreases k,
{
    if k == 0 {
        ledger
    } else {
        execute(
            ledger_after(execute, ledger, transactions, (k - 1) as nat),
            transactions[k - 1].wire,
        ).1
    }
}

/// The outcome of the transaction at `i`, executed on what the ones before it left.
pub open spec fn outcome_at<L>(
    execute: Executor<L>,
    ledger: L,
    transactions: Seq<DecodedTransactionView>,
    i: int,
) -> Result<TransactionMetadataView, FailedTransactionMetadataView> {
    execute(ledger_after(execute, ledger, transactions, i as nat), transactions[i].wire).0
}

/// Whether the first `k` transactions succeed.
pub open spec fn succeed<L>(
    execute: Executor<L>,
    ledger: L,
    transactions: Seq<DecodedTransactionView>,
    k: int,
) -> bool {
    forall|i: int| 0 <= i < k ==> #[trigger] outcome_at(execute, ledger, transactions, i) is Ok
}

/// What a simulation reports of the first `k` transactions.
pub open spec fn results_of<L>(
    execute: Executor<L>,
    ledger: L,
    transactions: Seq<DecodedTransactionView>,
    k: nat,
) -> Seq<BundleTransactionResultView> {
    Seq::new(k, |i: int| result_of(outcome_at(execute, ledger, transactions, i)))
}

/// A step taken: the outcome, if the step executes a transaction, and what it leaves. Where
/// nothing was saved, there is nothing to put back.
pub open spec fn performed<L>(
    step: StepView,
    transactions: Seq<DecodedTransactionView>,
    on_copy: Executor<L>,
    on_ledger: Executor<L>,
    ledgers: Ledgers<L>,
) -> (Option<Result<TransactionMetadataView, FailedTransactionMetadataView>>, Ledgers<L>) {
    match step {
        StepView::DryRun(i) => {
            let (outcome, copy) = on_copy(ledgers.copy, transactions[i].wire);
            (Some(outcome), Ledgers { copy, ..ledgers })
        },
        StepView::Save => (None, Ledgers { saved: Some(ledgers.ledger), ..ledgers }),
        StepView::Commit(i) => {
            let (outcome, ledger) = on_ledger(ledgers.ledger, transactions[i].wire);
            (Some(outcome), Ledgers { ledger, ..ledgers })
        },
        StepView::Restore => match ledgers.saved {
            Some(ledger) => (None, Ledgers { ledger, ..ledgers }),
            None => (None, ledgers),
        },
    }
}

/// How many steps of a submission are left at most.
pub open spec fn steps_left(submission: SubmissionView) -> nat {
    let n = submission.transactions.len();
    match submission.progress {
        ProgressView::DryRun(i) => if 0 <= i < n {
            (2 * n + 2 - i) as nat
        } else {
            0
        },
        ProgressView::Save => n + 2,
        ProgressView::Commit(i) => if 0 <= i < n {
            (n + 1 - i) as nat
        } else {
            0
        },
        ProgressView::Restore(_) => 1,
        ProgressView::Finished(_) => 0,
    }
}

/// A submission carried through to its reply, and what it leaves: every step that it asks for is
/// taken, and taken in.
pub open spec fn carried_out<L>(
    submission: SubmissionView,
    on_copy: Executor<L>,
    on_ledger: Executor<L>,
    ledgers: Ledgers<L>,
) -> (SubmissionView, Ledgers<L>)
    decreases steps_left(submission),
{
    if steps_left(submission) == 0 {
        (submission, ledgers)
    } else {
        match submission.next_step() {
            Some(step) => {
                let (outcome, next) = performed(
                    step,
                    submission.transactions,
                    on_copy,
                    on_ledger,
                    ledgers,
                );
                match outcome {
                    Some(outcome) => carried_out(
                        submission.record(outcome),
                        on_copy,
                        on_ledger,
                        next,
                    ),
                    None => carried_out(submission.done(), on_copy, on_ledger, next),
                }
            },
            None => (submission, ledgers),
        }
    }
}

/// A simulation carried through to its reply, and what it leaves: every step that it asks for is
/// taken, and taken in. A step without an outcome would end it.
pub open spec fn tried_out<L>(
    simulation: SimulationView,
    on_copy: Executor<L>,
    on_ledger: Executor<L>,
    ledgers: Ledgers<L>,
) -> (SimulationView, Ledgers<L>)
    decreases simulation.transactions.len() - simulation.results.len(),
{
    match simulation.next_step() {
        Some(step) => {
            let (outcome, next) = performed(
                step,
                simulation.transactions,
                on_copy,
                on_ledger,
                ledgers,
            );
            match outcome {
                Some(outcome) => tried_out(simulation.record(outcome), on_copy, on_ledger, next),
                None => (simulation, next),
            }
        },
        None => (simulation, ledgers),
    }
}

/// The reply to a `sendBundle` request, and the ledger after it. `copy` is the copy that the
/// bundle is tried on.
pub open spec fn sent<L>(
    has_context: bool,
    texts: Seq<Seq<char>>,
    config: Option<SendBundleConfig>,
    on_copy: Executor<L>,
    on_ledger: Executor<L>,
    copy: L,
    ledger: L,
) -> (Result<Seq<char>, ErrorView>, L) {
    match submission_of(has_context, texts, config) {
        Ok(submission) => {
            let (end, ledgers) = carried_out(
                submission,
                on_copy,
                on_ledger,
                Ledgers::new(copy, ledger),
            );
            (end.progress->Finished_0, ledgers.ledger)
        },
        Err(error) => (Err(error), ledger),
    }
}

/// The reply to a `simulateBundle` request, and the ledger after it. `copy_of` says what a copy
/// of a ledger is that takes signatures on trust, or does not.
pub open spec fn simulated<L>(
    has_context: bool,
    texts: Seq<Seq<char>>,
    config: Option<SimulateBundleConfig>,
    on_copy: Executor<L>,
    on_ledger: Executor<L>,
    copy_of: spec_fn(L, bool) -> L,
    ledger: L,
) -> (Result<RpcSimulateBundleResultView, ErrorView>, L) {
    match simulation_of(has_context, texts, config) {
        Ok(simulation) => {
            let (end, ledgers) = tried_out(
                simulation,
                on_copy,
                on_ledger,
                Ledgers::new(copy_of(ledger, simulation.skip_sig_verify), ledger),
            );
            (Ok(end.reply()), ledgers.ledger)
        },
        Err(error) => (Err(error), ledger),
    }
}

} // verus!
