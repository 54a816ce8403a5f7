//! What is asked of a ledger, and what executing a transaction on it reports.
//!
//! The ledger itself is not part of this library: it is shared, it is locked, and it keeps
//! accounts in storage. The library says which step comes next and is told the outcome.
use vstd::prelude::*;

use crate::error::lines;

verus! {

/// What has to happen next.
#[derive(Clone, Copy, Debug, PartialEq, Eq, Structural)]
pub enum LedgerStep {
    /// Execute the transaction at this index on the copy of the ledger.
    DryRun(usize),
    /// Save the ledger as it is. Nobody else may write to it from here on, until no step is left.
    Save,
    /// Execute the transaction at this index on the ledger.
    Commit(usize),
    /// Put the ledger back to what was saved.
    Restore,
}

pub ghost enum StepView {
    DryRun(int),
    Save,
    Commit(int),
    Restore,
}

/// The step that has to happen next, if one is left.
pub open spec fn step_view(step: Option<LedgerStep>) -> Option<StepView> {
    match step {
        Some(LedgerStep::DryRun(i)) => Some(StepView::DryRun(i as int)),
        Some(LedgerStep::Save) => Some(StepView::Save),
        Some(LedgerStep::Commit(i)) => Some(StepView::Commit(i as int)),
        Some(LedgerStep::Restore) => Some(StepView::Restore),
        None => None,
    }
}

/// Whether a step is about one of `n` transactions, if it is about a transaction at all.
pub open spec fn is_step_among(step: Option<StepView>, n: nat) -> bool {
    match step {
        Some(StepView::DryRun(i)) => 0 <= i < n,
        Some(StepView::Commit(i)) => 0 <= i < n,
        _ => true,
    }
}

/// What the execution of a transaction leaves behind.
#[derive(Clone, Debug)]
pub struct TransactionMetadata {
    pub logs: Vec<String>,
    pub compute_units_consumed: u64,
}

/// What the execution of a transaction that failed leaves behind.
#[derive(Clone, Debug)]
pub struct FailedTransactionMetadata {
    pub err: String,
    pub meta: TransactionMetadata,
}

pub ghost struct TransactionMetadataView {
    pub logs: Seq<Seq<char>>,
    pub compute_units_consumed: u64,
}

pub ghost struct FailedTransactionMetadataView {
    pub err: Seq<char>,
    pub meta: TransactionMetadataView,
}

impl View for TransactionMetadata {
    type V = TransactionMetadataView;

    open spec fn view(&self) -> TransactionMetadataView {
        TransactionMetadataView {
            logs: lines(self.logs@),
            compute_units_consumed: self.compute_units_consumed,
        }
    }
}

impl View for FailedTransactionMetadata {
    type V = FailedTransactionMetadataView;

    open spec fn view(&self) -> FailedTransactionMetadataView {
        FailedTransactionMetadataView { err: self.err@, meta: self.meta@ }
    }
}

/// The outcome of an execution.
pub open spec fn outcome_view(
    outcome: Result<TransactionMetadata, FailedTransactionMetadata>,
) -> Result<TransactionMetadataView, FailedTransactionMetadataView> {
    match outcome {
        Ok(meta) => Ok(meta@),
        Err(failure) => Err(failure@),
    }
}

} // verus!
