//! Carrying out a bundle: a trial of every transaction first, then the real thing.
use vstd::prelude::*;

use crate::bundle::{bundle_id, calculate_bundle_id, first_signatures, first_signatures_view};
use crate::decimal::{append_decimal, decimal};
use crate::error::{
    Error, ErrorCode, ErrorData, ErrorDataView, ErrorView, BUNDLE_REJECTED, COMMIT_FAILED,
};
use crate::ledger::{
    is_step_among, outcome_view, step_view, FailedTransactionMetadata,
    FailedTransactionMetadataView, LedgerStep, StepView, TransactionMetadata,
    TransactionMetadataView,
};
use crate::transaction::{transaction_views, DecodedTransaction, DecodedTransactionView};

verus! {

/// How far a submission has come.
enum Progress {
    DryRun(usize),
    Save,
    Commit(usize),
    Restore(Error),
    Finished(Result<String, Error>),
}

/// A bundle on its way to the ledger.
///
/// All transactions are executed in order on one copy of the ledger. Only if every one of them
/// succeeds there are they executed on the ledger. Should one of them fail there all the same,
/// the ledger is put back to what it was.
pub struct BundleSubmission {
    transactions: Vec<DecodedTransaction>,
    progress: Progress,
}

pub ghost enum ProgressView {
    DryRun(int),
    Save,
    Commit(int),
    Restore(ErrorView),
    Finished(Result<Seq<char>, ErrorView>),
}

pub ghost struct SubmissionView {
    pub transactions: Seq<DecodedTransactionView>,
    pub progress: ProgressView,
}

/// The reply to a bundle whose transaction at `i` failed on the copy of the ledger.
pub open spec fn rejection_view(i: int, failure: FailedTransactionMetadataView) -> ErrorView {
    ErrorView {
        code: ErrorCode::ServerError(BUNDLE_REJECTED),
        message: "Bundle rejected: transaction "@ + decimal(i as nat) + " failed: "@ + failure.err,
        data: Some(
            ErrorDataView::TransactionFailure {
                transaction_index: i,
                error: failure.err,
                logs: failure.meta.logs,
            },
        ),
    }
}

/// The reply to a bundle whose transaction at `i` failed on the ledger.
pub open spec fn commit_failure_view(i: int, failure: FailedTransactionMetadataView) -> ErrorView {
    ErrorView {
        code: ErrorCode::ServerError(COMMIT_FAILED),
        message: "Bundle commit failed unexpectedly at transaction "@ + decimal(i as nat) + ": "@
            + failure.err,
        data: None,
    }
}

impl SubmissionView {
    /// A bundle of which nothing has been executed yet.
    pub open spec fn start(transactions: Seq<DecodedTransactionView>) -> Self {
        SubmissionView { transactions, progress: ProgressView::DryRun(0) }
    }

    /// Whether there are transactions, all of them signed, and the next one is among them.
    pub open spec fn well_formed(self) -> bool {
        &&& self.transactions.len() > 0
        &&& forall|i: int|
            0 <= i < self.transactions.len() ==> #[trigger] self.transactions[i].signatures.len()
                > 0
        &&& match self.progress {
            ProgressView::DryRun(i) => 0 <= i < self.transactions.len(),
            ProgressView::Commit(i) => 0 <= i < self.transactions.len(),
            _ => true,
        }
    }

    /// What has to happen next.
    pub open spec fn next_step(self) -> Option<StepView> {
        match self.progress {
            ProgressView::DryRun(i) => Some(StepView::DryRun(i)),
            ProgressView::Save => Some(StepView::Save),
            ProgressView::Commit(i) => Some(StepView::Commit(i)),
            ProgressView::Restore(_) => Some(StepView::Restore),
            ProgressView::Finished(_) => None,
        }
    }

    /// What the bundle is called.
    pub open spec fn id(self) -> Seq<char> {
        bundle_id(first_signatures_view(self.transactions))
    }

    /// How far the submission has come once the transaction at hand has this outcome.
    pub open spec fn record(
        self,
        outcome: Result<TransactionMetadataView, FailedTransactionMetadataView>,
    ) -> Self {
        let n = self.transactions.len();
        let progress = match self.progress {
            ProgressView::DryRun(i) => match outcome {
                Ok(_) => if i + 1 < n {
                    ProgressView::DryRun(i + 1)
                } else {
                    ProgressView::Save
                },
                Err(failure) => ProgressView::Finished(Err(rejection_view(i, failure))),
            },
            ProgressView::Commit(i) => match outcome {
                Ok(_) => if i + 1 < n {
                    ProgressView::Commit(i + 1)
                } else {
                    ProgressView::Finished(Ok(self.id()))
                },
                Err(failure) => ProgressView::Restore(commit_failure_view(i, failure)),
            },
            other => other,
        };
        SubmissionView { transactions: self.transactions, progress }
    }

    /// How far the submission has come once the ledger is saved or put back.
    pub open spec fn done(self) -> Self {
        let progress = match self.progress {
            ProgressView::Save => ProgressView::Commit(0),
            ProgressView::Restore(error) => ProgressView::Finished(Err(error)),
            other => other,
        };
        SubmissionView { transactions: self.transactions, progress }
    }
}

spec fn progress_view(progress: Progress) -> ProgressView {
    match progress {
        Progress::DryRun(i) => ProgressView::DryRun(i as int),
        Progress::Save => ProgressView::Save,
        Progress::Commit(i) => ProgressView::Commit(i as int),
        Progress::Restore(error) => ProgressView::Restore(error@),
        Progress::Finished(Ok(id)) => ProgressView::Finished(Ok(id@)),
        Progress::Finished(Err(error)) => ProgressView::Finished(Err(error@)),
    }
}

impl View for BundleSubmission {
    type V = SubmissionView;

    closed spec fn view(&self) -> SubmissionView {
        SubmissionView {
            transactions: transaction_views(self.transactions@),
            progress: progress_view(self.progress),
        }
    }
}

/// The reply to a bundle whose transaction at `i` failed on the copy of the ledger.
pub fn rejection(i: usize, failure: FailedTransactionMetadata) -> (r: Error)
    ensures
        r@ == rejection_view(i as int, failure@),
{
    let mut message = "Bundle rejected: transaction ".to_string();
    append_decimal(&mut message, i);
    message.append(" failed: ");
    message.append(failure.err.as_str());
    Error {
        code: ErrorCode::ServerError(BUNDLE_REJECTED),
        message,
        data: Some(
            ErrorData::TransactionFailure {
                transaction_index: i,
                error: failure.err,
                logs: failure.meta.logs,
            },
        ),
    }
}

/// The reply to a bundle whose transaction at `i` failed on the ledger.
pub fn commit_failure(i: usize, failure: FailedTransactionMetadata) -> (r: Error)
    ensures
        r@ == commit_failure_view(i as int, failure@),
{
    let mut message = "Bundle commit failed unexpectedly at transaction ".to_string();
    append_decimal(&mut message, i);
    message.append(": ");
    message.append(failure.err.as_str());
    Error { code: ErrorCode::ServerError(COMMIT_FAILED), message, data: None }
}

impl BundleSubmission {
    #[verifier::type_invariant]
    spec fn inv(self) -> bool {
        self@.well_formed()
    }

    /// A bundle of which nothing has been executed yet.
    pub fn new(transactions: Vec<DecodedTransaction>) -> (r: Self)
        requires
            transactions@.len() > 0,
            forall|i: int|
                0 <= i < transactions@.len() ==> #[trigger] transactions@[i].signatures@.len() > 0,
        ensures
            r@ == SubmissionView::start(transaction_views(transactions@)),
    {
        BundleSubmission { transactions, progress: Progress::DryRun(0) }
    }

    /// The transactions of the bundle.
    pub fn transactions(&self) -> (r: &Vec<DecodedTransaction>)
        ensures
            transaction_views(r@) == self@.transactions,
    {
        &self.transactions
    }

    /// What has to happen next, or `None` once the reply is there.
    pub fn next_step(&self) -> (r: Option<LedgerStep>)
        ensures
            step_view(r) == self@.next_step(),
            is_step_among(step_view(r), self@.transactions.len()),
    {
        proof {
            use_type_invariant(self);
        }
        match &self.progress {
            Progress::DryRun(i) => Some(LedgerStep::DryRun(*i)),
            Progress::Save => Some(LedgerStep::Save),
            Progress::Commit(i) => Some(LedgerStep::Commit(*i)),
            Progress::Restore(_) => Some(LedgerStep::Restore),
            Progress::Finished(_) => None,
        }
    }

    /// Takes in the outcome of the transaction at hand. Where no transaction is, nothing changes.
    pub fn record(
        self,
        outcome: Result<TransactionMetadata, FailedTransactionMetadata>,
    ) -> (r: Self)
        ensures
            r@ == self@.record(outcome_view(outcome)),
    {
        proof {
            use_type_invariant(&self);
        }
        let BundleSubmission { transactions, progress } = self;
        let n: usize = transactions.len();
        assert(self@.transactions.len() == n);
        let next: Progress = match progress {
            Progress::DryRun(i) => match outcome {
                Ok(_) => if i + 1 < n {
                    Progress::DryRun(i + 1)
                } else {
                    Progress::Save
                },
                Err(failure) => Progress::Finished(Err(rejection(i, failure))),
            },
            Progress::Commit(i) => match outcome {
                Ok(_) => if i + 1 < n {
                    Progress::Commit(i + 1)
                } else {
                    proof {
                        assert forall|k: int| 0 <= k < transactions@.len() implies #[trigger]
                        transactions@[k].signatures@.len() > 0 by {
                            assert(self@.transactions[k].signatures.len() > 0);
                        }
                    }
                    let signatures = first_signatures(transactions.as_slice());
                    Progress::Finished(Ok(calculate_bundle_id(signatures.as_slice())))
                },
                Err(failure) => Progress::Restore(commit_failure(i, failure)),
            },
            other => other,
        };
        BundleSubmission { transactions, progress: next }
    }

    /// Takes in that the ledger is saved or put back. Where neither was asked for, nothing
    /// changes.
    pub fn done(self) -> (r: Self)
        ensures
            r@ == self@.done(),
    {
        proof {
            use_type_invariant(&self);
        }
        let BundleSubmission { transactions, progress } = self;
        let next: Progress = match progress {
            Progress::Save => Progress::Commit(0),
            Progress::Restore(error) => Progress::Finished(Err(error)),
            other => other,
        };
        BundleSubmission { transactions, progress: next }
    }

    /// The reply to the request, or `None` as long as there are steps left.
    pub fn into_reply(self) -> (r: Option<Result<String, Error>>)
        ensures
            match self@.progress {
                ProgressView::Finished(Ok(id)) => r matches Some(Ok(text)) && text@ == id,
                ProgressView::Finished(Err(error)) => r matches Some(Err(e)) && e@ == error,
                _ => r is None,
            },
    {
        match self.progress {
            Progress::Finished(reply) => Some(reply),
            _ => None,
        }
    }
}

} // verus!
