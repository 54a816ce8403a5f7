//! What contracts see of values: all there is in them.
use vstd::prelude::*;

use crate::bundle::{decoding_views, verdict_view};
use crate::error::{lines, Error, ErrorData, ErrorDataView, ErrorView};
use crate::ledger::{
    is_step_among, outcome_view, step_view, FailedTransactionMetadata, LedgerStep, StepView,
    TransactionMetadata,
};
use crate::rpc::{simulation_view, submission_view};
use crate::signature::{signature_views, Signature};
use crate::simulation::{
    result_views, BundleSimulation, BundleTransactionResult, RpcSimulateBundleResult,
    SimulationView,
};
use crate::submission::{BundleSubmission, SubmissionView};
use crate::transaction::{
    decoding_view, transaction_views, DecodedTransaction, DecodedTransactionView,
};

verus! {

/// Each text of a list is seen, in order.
pub proof fn law_texts_are_seen(texts: Seq<String>)
    ensures
        lines(texts).len() == texts.len(),
        forall|i: int| 0 <= i < texts.len() ==> lines(texts)[i] == (#[trigger] texts[i])@,
{
}

/// All of an error is seen.
pub proof fn law_error_is_seen(error: Error)
    ensures
        error@.code == error.code,
        error@.message == error.message@,
        match error.data {
            None => error@.data is None,
            Some(ErrorData::NodeUnhealthy { num_slots_behind }) => error@.data matches Some(
                ErrorDataView::NodeUnhealthy { num_slots_behind: slots },
            ) && slots == num_slots_behind,
            Some(ErrorData::TransactionFailure { transaction_index, error: reason, logs }) => {
                &&& error@.data matches Some(
                    ErrorDataView::TransactionFailure {
                        transaction_index: seen_index,
                        error: seen_reason,
                        logs: seen_logs,
                    },
                )
                &&& seen_index == transaction_index
                &&& seen_reason == reason@
                &&& seen_logs == lines(logs@)
            },
        },
{
}

/// All bytes of signatures are seen, in order.
pub proof fn law_signatures_are_seen(signatures: Seq<Signature>)
    ensures
        signature_views(signatures).len() == signatures.len(),
        forall|i: int|
            0 <= i < signatures.len() ==> {
                &&& signature_views(signatures)[i] == (#[trigger] signatures[i]).bytes@
                &&& signatures[i]@ == signatures[i].bytes@
                &&& signatures[i]@.len() == 64
            },
{
}

/// The bytes and the signatures of transactions are seen, in order.
pub proof fn law_transactions_are_seen(transactions: Seq<DecodedTransaction>)
    ensures
        transaction_views(transactions).len() == transactions.len(),
        forall|i: int|
            0 <= i < transactions.len() ==> {
                &&& transaction_views(transactions)[i] == (#[trigger] transactions[i])@
                &&& transactions[i]@.wire == transactions[i].wire@
                &&& transactions[i]@.signatures.len() == transactions[i].signatures@.len()
                &&& forall|k: int|
                    0 <= k < transactions[i].signatures@.len() ==> transactions[i]@.signatures[k]
                        == (#[trigger] transactions[i].signatures@[k]).bytes@
            },
{
}

/// What comes of reading is seen.
pub proof fn law_readings_are_seen(
    decodings: Seq<Result<DecodedTransaction, Error>>,
    verdict: Result<Vec<DecodedTransaction>, Error>,
)
    ensures
        decoding_views(decodings).len() == decodings.len(),
        forall|i: int|
            0 <= i < decodings.len() ==> {
                &&& decoding_views(decodings)[i] == decoding_view(#[trigger] decodings[i])
                &&& match decodings[i] {
                    Ok(transaction) => decoding_view(decodings[i]) == Ok::<
                        DecodedTransactionView,
                        ErrorView,
                    >(transaction@),
                    Err(error) => decoding_view(decodings[i]) == Err::<
                        DecodedTransactionView,
                        ErrorView,
                    >(error@),
                }
            },
        match verdict {
            Ok(transactions) => verdict_view(verdict) == Ok::<
                Seq<DecodedTransactionView>,
                ErrorView,
            >(transaction_views(transactions@)),
            Err(error) => verdict_view(verdict) == Err::<Seq<DecodedTransactionView>, ErrorView>(
                error@,
            ),
        },
{
}

/// All that an execution reports is seen.
pub proof fn law_outcomes_are_seen(
    outcome: Result<TransactionMetadata, FailedTransactionMetadata>,
)
    ensures
        match outcome {
            Ok(meta) => {
                &&& outcome_view(outcome) matches Ok(seen)
                &&& seen == meta@
                &&& seen.logs == lines(meta.logs@)
                &&& seen.compute_units_consumed == meta.compute_units_consumed
            },
            Err(failure) => {
                &&& outcome_view(outcome) matches Err(seen)
                &&& seen == failure@
                &&& seen.err == failure.err@
                &&& seen.meta.logs == lines(failure.meta.logs@)
                &&& seen.meta.compute_units_consumed == failure.meta.compute_units_consumed
            },
        },
{
}

/// All of a simulation's reply is seen.
pub proof fn law_simulation_replies_are_seen(reply: RpcSimulateBundleResult)
    ensures
        reply@.summary == reply.summary@,
        reply@.transaction_results == result_views(reply.transaction_results@),
        result_views(reply.transaction_results@).len() == reply.transaction_results@.len(),
        forall|i: int|
            0 <= i < reply.transaction_results@.len() ==> {
                let result: BundleTransactionResult = #[trigger] reply.transaction_results@[i];
                let seen = reply@.transaction_results[i];
                &&& seen == result@
                &&& match result.err {
                    Some(err) => seen.err == Some(err@),
                    None => seen.err is None,
                }
                &&& match result.logs {
                    Some(logs) => seen.logs == Some(lines(logs@)),
                    None => seen.logs is None,
                }
                &&& seen.units_consumed == result.units_consumed
            },
{
}

/// Steps are seen as what they are, and those about a transaction are about one of the bundle.
pub proof fn law_steps_are_seen(i: usize, n: nat)
    ensures
        step_view(Some(LedgerStep::DryRun(i))) == Some(StepView::DryRun(i as int)),
        step_view(Some(LedgerStep::Save)) == Some(StepView::Save),
        step_view(Some(LedgerStep::Commit(i))) == Some(StepView::Commit(i as int)),
        step_view(Some(LedgerStep::Restore)) == Some(StepView::Restore),
        step_view(None) is None,
        is_step_among(Some(StepView::DryRun(i as int)), n) <==> i < n,
        is_step_among(Some(StepView::Commit(i as int)), n) <==> i < n,
{
}

/// Requests that were taken on, or not, are seen as what they are.
pub proof fn law_begun_requests_are_seen(
    submission: Result<BundleSubmission, Error>,
    simulation: Result<BundleSimulation, Error>,
)
    ensures
        match submission {
            Ok(begun) => submission_view(submission) == Ok::<SubmissionView, ErrorView>(begun@),
            Err(error) => submission_view(submission) == Err::<SubmissionView, ErrorView>(error@),
        },
        match simulation {
            Ok(begun) => simulation_view(simulation) == Ok::<SimulationView, ErrorView>(begun@),
            Err(error) => simulation_view(simulation) == Err::<SimulationView, ErrorView>(error@),
        },
{
}

} // verus!
