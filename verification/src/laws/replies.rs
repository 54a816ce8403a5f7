//! What requests that were taken on are answered.
use vstd::prelude::*;

use crate::bundle::first_signatures_view;
use crate::decimal::decimal;
use crate::error::{ErrorCode, ErrorDataView, ErrorView};
use crate::laws::texts::{
    is_id_of, law_bundle_id_is_over_all_signatures, law_decimal_tells_numbers_apart,
    law_first_signature_of_each_transaction,
};
use crate::laws::{
    law_accepted_bundle_is_committed, law_broken_commit_is_undone,
    law_rejected_bundle_leaves_the_ledger, law_simulation_of_successes,
    law_simulation_stops_at_failure,
};
use crate::ledger::{FailedTransactionMetadataView, StepView, TransactionMetadataView};
use crate::rpc::{simulation_of, submission_of, SendBundleConfig, SimulateBundleConfig};
use crate::run::{ledger_after, outcome_at, results_of, sent, simulated, succeed, Executor};
use crate::simulation::{
    result_of, summary_view, BundleTransactionResultView, SimulationView,
};
use crate::submission::{
    commit_failure_view, rejection_view, ProgressView, SubmissionView,
};
use crate::transaction::DecodedTransactionView;

verus! {

/// Whether an error rejects a bundle for its transaction at `i`, with the error and the logs of
/// that transaction's failure.
pub open spec fn rejects(error: ErrorView, i: int, failure: FailedTransactionMetadataView) -> bool {
    &&& error.code matches ErrorCode::ServerError(number) && number == -32000
    &&& error.message == "Bundle rejected: transaction "@ + decimal(i as nat) + " failed: "@
        + failure.err
    &&& error.data matches Some(
        ErrorDataView::TransactionFailure { transaction_index, error: reason, logs },
    ) && transaction_index == i && reason == failure.err && logs == failure.meta.logs
}

/// Whether an error says that a bundle broke off at its transaction at `i`, with the error of
/// that transaction's failure and nothing beside it.
pub open spec fn breaks_off(
    error: ErrorView,
    i: int,
    failure: FailedTransactionMetadataView,
) -> bool {
    &&& error.code matches ErrorCode::ServerError(number) && number == -32001
    &&& error.message == "Bundle commit failed unexpectedly at transaction "@ + decimal(i as nat)
        + ": "@ + failure.err
    &&& error.data is None
}

/// Whether a result holds all that is known of an outcome: the error of a failure, and the logs
/// and the compute units either way.
pub open spec fn reports(
    result: BundleTransactionResultView,
    outcome: Result<TransactionMetadataView, FailedTransactionMetadataView>,
) -> bool {
    match outcome {
        Ok(meta) => {
            &&& result.err is None
            &&& result.logs == Some(meta.logs)
            &&& result.units_consumed == Some(meta.compute_units_consumed)
        },
        Err(failure) => {
            &&& result.err == Some(failure.err)
            &&& result.logs == Some(failure.meta.logs)
            &&& result.units_consumed == Some(failure.meta.compute_units_consumed)
        },
    }
}

/// The replies to failures name the transaction and say what went wrong with it.
pub proof fn law_failures_are_named(i: int, failure: FailedTransactionMetadataView)
    ensures
        rejects(rejection_view(i, failure), i, failure),
        breaks_off(commit_failure_view(i, failure), i, failure),
{
}

/// Nothing of an outcome is lost in its report.
pub proof fn law_outcome_is_reported_whole(
    outcome: Result<TransactionMetadataView, FailedTransactionMetadataView>,
)
    ensures
        reports(result_of(outcome), outcome),
{
}

/// The summary says that all went well, or names the transaction that did not.
pub proof fn law_summary_names_the_failure(i: nat)
    ensures
        summary_view(None) == "succeeded"@,
        summary_view(Some(i as int)) == "failed: transaction "@ + decimal(i) + " failed"@,
        summary_view(Some(i as int)) != summary_view(None),
{
    reveal_strlit("succeeded");
    reveal_strlit("failed: transaction ");
    assert(summary_view(Some(i as int))[0] == 'f');
}

/// Failures of different transactions have different summaries.
pub proof fn law_summaries_of_different_failures_differ(i: nat, j: nat)
    requires
        summary_view(Some(i as int)) == summary_view(Some(j as int)),
    ensures
        i == j,
{
    let (a, b) = (decimal(i), decimal(j));
    let front = "failed: transaction "@;
    let back = " failed"@;
    let s = front + a + back;
    let t = front + b + back;
    assert(a =~= s.subrange(front.len() as int, s.len() - back.len()));
    assert(b =~= t.subrange(front.len() as int, t.len() - back.len()));
    law_decimal_tells_numbers_apart(i, j);
}

/// Each outcome that a simulation waits for adds one result, which reports it, and a failure
/// ends the simulation. Whatever was there stays, and once nothing is waited for, nothing
/// changes.
pub proof fn law_simulation_adds_a_result(
    simulation: SimulationView,
    outcome: Result<TransactionMetadataView, FailedTransactionMetadataView>,
)
    ensures
        simulation.next_step() == if simulation.stopped || simulation.results.len()
            >= simulation.transactions.len() {
            None
        } else {
            Some(StepView::DryRun(simulation.results.len() as int))
        },
        simulation.is_finished() <==> simulation.next_step() is None,
        simulation.next_step() is None ==> simulation.record(outcome) == simulation,
        simulation.next_step() is Some ==> {
            let next = simulation.record(outcome);
            let n = simulation.results.len();
            &&& next.transactions == simulation.transactions
            &&& next.skip_sig_verify == simulation.skip_sig_verify
            &&& next.results.len() == n + 1
            &&& forall|j: int| 0 <= j < n ==> #[trigger] next.results[j] == simulation.results[j]
            &&& reports(next.results[n as int], outcome)
            &&& next.stopped <==> outcome is Err
        },
        simulation.reply().transaction_results == simulation.results,
        !simulation.stopped ==> simulation.reply().summary == "succeeded"@,
        simulation.stopped && simulation.results.len() > 0 ==> simulation.reply().summary
            == "failed: transaction "@ + decimal((simulation.results.len() - 1) as nat)
            + " failed"@,
{
}

/// How a submission goes on. The transactions are tried one after the other, then the ledger is
/// saved, then they are committed one after the other. A failed trial ends the submission, a
/// failed commit has the ledger put back first. What comes out of turn changes nothing.
pub proof fn law_submission_takes_its_steps_in_order(
    submission: SubmissionView,
    outcome: Result<TransactionMetadataView, FailedTransactionMetadataView>,
)
    ensures
        ({
            let n = submission.transactions.len();
            let recorded = submission.record(outcome);
            let done = submission.done();
            &&& recorded.transactions == submission.transactions
            &&& done.transactions == submission.transactions
            &&& match submission.next_step() {
                Some(StepView::DryRun(i)) => {
                    &&& done == submission
                    &&& match outcome {
                        Ok(_) => recorded.next_step() == if i + 1 < n {
                            Some(StepView::DryRun(i + 1))
                        } else {
                            Some(StepView::Save)
                        },
                        Err(failure) => {
                            &&& recorded.next_step() is None
                            &&& recorded.progress matches ProgressView::Finished(Err(error))
                                && rejects(error, i, failure)
                        },
                    }
                },
                Some(StepView::Save) => {
                    &&& recorded == submission
                    &&& done.next_step() == Some(StepView::Commit(0))
                },
                Some(StepView::Commit(i)) => {
                    &&& done == submission
                    &&& match outcome {
                        Ok(_) => if i + 1 < n {
                            recorded.next_step() == Some(StepView::Commit(i + 1))
                        } else {
                            &&& recorded.next_step() is None
                            &&& recorded.progress matches ProgressView::Finished(Ok(id))
                                && is_id_of(
                                id,
                                Seq::new(n, |k: int| submission.transactions[k].signatures[0]),
                            )
                        },
                        Err(failure) => {
                            &&& recorded.next_step() == Some(StepView::Restore)
                            &&& recorded.done().progress matches ProgressView::Finished(Err(error))
                                && breaks_off(error, i, failure)
                        },
                    }
                },
                Some(StepView::Restore) => {
                    &&& recorded == submission
                    &&& done.next_step() is None
                    &&& done.progress matches ProgressView::Finished(Err(_))
                },
                None => recorded == submission && done == submission,
            }
        }),
{
    lemma_id(submission.transactions);
}

/// A bundle's ID is over the first signature of each of its transactions.
proof fn lemma_id(transactions: Seq<DecodedTransactionView>)
    ensures
        is_id_of(
            SubmissionView::start(transactions).id(),
            Seq::new(transactions.len(), |k: int| transactions[k].signatures[0]),
        ),
{
    let signatures = Seq::new(transactions.len(), |k: int| transactions[k].signatures[0]);
    law_first_signature_of_each_transaction(transactions);
    assert forall|k: int| 0 <= k < transactions.len() implies first_signatures_view(
        transactions,
    )[k] == signatures[k] by {
        assert(signatures[k] == transactions[k].signatures[0]);
    }
    assert(first_signatures_view(transactions) =~= signatures);
    law_bundle_id_is_over_all_signatures(signatures);
}

/// The reply to a submission that was taken on. Where all transactions succeed, on the copy and
/// then on the ledger, it is the bundle's ID, over the first signature of each transaction, and
/// the ledger ends with all of them executed in order. Where one fails, it is the error for the
/// first that does, and the ledger is what it was.
pub proof fn law_submission_is_answered<L>(
    has_context: bool,
    texts: Seq<Seq<char>>,
    config: Option<SendBundleConfig>,
    on_copy: Executor<L>,
    on_ledger: Executor<L>,
    copy: L,
    ledger: L,
    transactions: Seq<DecodedTransactionView>,
    i: int,
)
    requires
        transactions.len() > 0,
        submission_of(has_context, texts, config) == Ok::<SubmissionView, ErrorView>(
            (SubmissionView { transactions, progress: ProgressView::DryRun(0) }),
        ),
    ensures
        ({
            let (reply, after) = sent(has_context, texts, config, on_copy, on_ledger, copy, ledger);
            let n = transactions.len();
            &&& succeed(on_copy, copy, transactions, n as int) && succeed(
                on_ledger,
                ledger,
                transactions,
                n as int,
            ) ==> {
                &&& after == ledger_after(on_ledger, ledger, transactions, n)
                &&& reply matches Ok(id) && is_id_of(
                    id,
                    Seq::new(n, |k: int| transactions[k].signatures[0]),
                )
            }
            &&& 0 <= i < n && succeed(on_copy, copy, transactions, i) && outcome_at(
                on_copy,
                copy,
                transactions,
                i,
            ) is Err ==> {
                &&& after == ledger
                &&& reply matches Err(error) && rejects(
                    error,
                    i,
                    outcome_at(on_copy, copy, transactions, i)->Err_0,
                )
            }
            &&& 0 <= i < n && succeed(on_copy, copy, transactions, n as int) && succeed(
                on_ledger,
                ledger,
                transactions,
                i,
            ) && outcome_at(on_ledger, ledger, transactions, i) is Err ==> {
                &&& after == ledger
                &&& reply matches Err(error) && breaks_off(
                    error,
                    i,
                    outcome_at(on_ledger, ledger, transactions, i)->Err_0,
                )
            }
        }),
{
    let n = transactions.len() as int;
    lemma_id(transactions);
    if succeed(on_copy, copy, transactions, n) && succeed(on_ledger, ledger, transactions, n) {
        law_accepted_bundle_is_committed(transactions, on_copy, on_ledger, copy, ledger);
    }
    if 0 <= i < n {
        if succeed(on_copy, copy, transactions, i) && outcome_at(
            on_copy,
            copy,
            transactions,
            i,
        ) is Err {
            law_rejected_bundle_leaves_the_ledger(
                transactions,
                on_copy,
                on_ledger,
                copy,
                ledger,
                i,
            );
        }
        if succeed(on_copy, copy, transactions, n) && succeed(on_ledger, ledger, transactions, i)
            && outcome_at(on_ledger, ledger, transactions, i) is Err {
            law_broken_commit_is_undone(transactions, on_copy, on_ledger, copy, ledger, i);
        }
    }
}

/// The reply to a simulation that was taken on. It has a result for each transaction up to the
/// first that fails, and no others; each result reports the outcome of its transaction; and the
/// summary says that all succeeded, or names the one that failed.
pub proof fn law_simulation_is_answered<L>(
    has_context: bool,
    texts: Seq<Seq<char>>,
    config: Option<SimulateBundleConfig>,
    on_copy: Executor<L>,
    on_ledger: Executor<L>,
    copy_of: spec_fn(L, bool) -> L,
    ledger: L,
    simulation: SimulationView,
    i: int,
)
    requires
        simulation_of(has_context, texts, config) == Ok::<SimulationView, ErrorView>(simulation),
    ensures
        ({
            let (reply, _) = simulated(
                has_context,
                texts,
                config,
                on_copy,
                on_ledger,
                copy_of,
                ledger,
            );
            let transactions = simulation.transactions;
            let n = transactions.len();
            let copy = copy_of(ledger, simulation.skip_sig_verify);
            let results = reply->Ok_0.transaction_results;
            &&& reply is Ok
            &&& succeed(on_copy, copy, transactions, n as int) ==> {
                &&& reply->Ok_0.summary == "succeeded"@
                &&& results.len() == n
                &&& forall|j: int|
                    0 <= j < n ==> reports(
                        #[trigger] results[j],
                        outcome_at(on_copy, copy, transactions, j),
                    )
            }
            &&& 0 <= i < n && succeed(on_copy, copy, transactions, i) && outcome_at(
                on_copy,
                copy,
                transactions,
                i,
            ) is Err ==> {
                &&& reply->Ok_0.summary == "failed: transaction "@ + decimal(i as nat) + " failed"@
                &&& results.len() == i + 1
                &&& forall|j: int|
                    0 <= j <= i ==> reports(
                        #[trigger] results[j],
                        outcome_at(on_copy, copy, transactions, j),
                    )
            }
        }),
{
    let transactions = simulation.transactions;
    let n = transactions.len();
    let skip = simulation.skip_sig_verify;
    let copy = copy_of(ledger, skip);
    assert(simulation == SimulationView::start(transactions, skip));
    if succeed(on_copy, copy, transactions, n as int) {
        law_simulation_of_successes(transactions, skip, on_copy, on_ledger, copy, ledger);
        assert forall|j: int| 0 <= j < n implies reports(
            #[trigger] results_of(on_copy, copy, transactions, n)[j],
            outcome_at(on_copy, copy, transactions, j),
        ) by {
            law_outcome_is_reported_whole(outcome_at(on_copy, copy, transactions, j));
        }
    }
    if 0 <= i < n && succeed(on_copy, copy, transactions, i) && outcome_at(
        on_copy,
        copy,
        transactions,
        i,
    ) is Err {
        law_simulation_stops_at_failure(
            transactions,
            skip,
            on_copy,
            on_ledger,
            copy,
            ledger,
            i,
        );
        law_summary_names_the_failure(i as nat);
        assert forall|j: int| 0 <= j <= i implies reports(
            #[trigger] results_of(on_copy, copy, transactions, (i + 1) as nat)[j],
            outcome_at(on_copy, copy, transactions, j),
        ) by {
            law_outcome_is_reported_whole(outcome_at(on_copy, copy, transactions, j));
        }
    }
}

} // verus!
