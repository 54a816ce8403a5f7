//! Trying out a bundle without carrying it out.
use vstd::prelude::*;

use crate::decimal::{append_decimal, decimal};
use crate::error::lines;
use crate::ledger::{
    is_step_among, outcome_view, step_view, FailedTransactionMetadata,
    FailedTransactionMetadataView, LedgerStep, StepView, TransactionMetadata,
    TransactionMetadataView,
};
use crate::transaction::{transaction_views, DecodedTransaction, DecodedTransactionView};

verus! {

/// Result of simulating a single transaction within a bundle
#[derive(Clone, Debug)]
pub struct BundleTransactionResult {
    /// Error message if the transaction failed, None if succeeded
    pub err: Option<String>,
    /// Transaction logs
    pub logs: Option<Vec<String>>,
    /// Compute units consumed
    pub units_consumed: Option<u64>,
}

/// Result of simulating an entire bundle
#[derive(Clone, Debug)]
pub struct RpcSimulateBundleResult {
    /// "succeeded" or "failed: <reason>"
    pub summary: String,
    /// Per-transaction simulation results
    pub transaction_results: Vec<BundleTransactionResult>,
}

pub ghost struct BundleTransactionResultView {
    pub err: Option<Seq<char>>,
    pub logs: Option<Seq<Seq<char>>>,
    pub units_consumed: Option<u64>,
}

pub ghost struct RpcSimulateBundleResultView {
    pub summary: Seq<char>,
    pub transaction_results: Seq<BundleTransactionResultView>,
}

impl View for BundleTransactionResult {
    type V = BundleTransactionResultView;

    open spec fn view(&self) -> BundleTransactionResultView {
        BundleTransactionResultView {
            err: match self.err {
                Some(err) => Some(err@),
                None => None,
            },
            logs: match self.logs {
                Some(logs) => Some(lines(logs@)),
                None => None,
            },
            units_consumed: self.units_consumed,
        }
    }
}

/// The results of a list of transactions.
pub open spec fn result_views(results: Seq<BundleTransactionResult>) -> Seq<
    BundleTransactionResultView,
> {
    results.map_values(|result: BundleTransactionResult| result@)
}

impl View for RpcSimulateBundleResult {
    type V = RpcSimulateBundleResultView;

    open spec fn view(&self) -> RpcSimulateBundleResultView {
        RpcSimulateBundleResultView {
            summary: self.summary@,
            transaction_results: result_views(self.transaction_results@),
        }
    }
}

/// A bundle that is being tried out.
///
/// The transactions are executed in order on one copy of the ledger, up to the first that
/// fails. The ledger itself is left alone.
pub struct BundleSimulation {
    transactions: Vec<DecodedTransaction>,
    skip_sig_verify: bool,
    results: Vec<BundleTransactionResult>,
    stopped: bool,
}

pub ghost struct SimulationView {
    pub transactions: Seq<DecodedTransactionView>,
    pub skip_sig_verify: bool,
    pub results: Seq<BundleTransactionResultView>,
    pub stopped: bool,
}

/// What is reported of one transaction.
pub open spec fn result_of(
    outcome: Result<TransactionMetadataView, FailedTransactionMetadataView>,
) -> BundleTransactionResultView {
    match outcome {
        Ok(meta) => BundleTransactionResultView {
            err: None,
            logs: Some(meta.logs),
            units_consumed: Some(meta.compute_units_consumed),
        },
        Err(failure) => BundleTransactionResultView {
            err: Some(failure.err),
            logs: Some(failure.meta.logs),
            units_consumed: Some(failure.meta.compute_units_consumed),
        },
    }
}

/// The summary of a simulation in which transaction `failed` failed, or none did.
pub open spec fn summary_view(failed: Option<int>) -> Seq<char> {
    match failed {
        None => "succeeded"@,
        Some(i) => "failed: transaction "@ + decimal(i as nat) + " failed"@,
    }
}

impl SimulationView {
    /// A bundle of which nothing has been tried yet.
    pub open spec fn start(
        transactions: Seq<DecodedTransactionView>,
        skip_sig_verify: bool,
    ) -> Self {
        SimulationView { transactions, skip_sig_verify, results: seq![], stopped: false }
    }

    /// Whether no more results are there than transactions, and a failure is one of them.
    pub open spec fn well_formed(self) -> bool {
        &&& self.results.len() <= self.transactions.len()
        &&& self.stopped ==> self.results.len() > 0
    }

    /// Whether nothing is left to execute.
    pub open spec fn is_finished(self) -> bool {
        self.stopped || self.results.len() >= self.transactions.len()
    }

    /// What has to happen next.
    pub open spec fn next_step(self) -> Option<StepView> {
        if self.is_finished() {
            None
        } else {
            Some(StepView::DryRun(self.results.len() as int))
        }
    }

    /// What has been tried once the transaction at hand has this outcome.
    pub open spec fn record(
        self,
        outcome: Result<TransactionMetadataView, FailedTransactionMetadataView>,
    ) -> Self {
        if self.is_finished() {
            self
        } else {
            SimulationView {
                results: self.results.push(result_of(outcome)),
                stopped: outcome is Err,
                ..self
            }
        }
    }

    /// The reply, once nothing is left to execute.
    pub open spec fn reply(self) -> RpcSimulateBundleResultView {
        RpcSimulateBundleResultView {
            summary: summary_view(
                if self.stopped {
                    Some(self.results.len() - 1)
                } else {
                    None
                },
            ),
            transaction_results: self.results,
        }
    }
}

impl View for BundleSimulation {
    type V = SimulationView;

    closed spec fn view(&self) -> SimulationView {
        SimulationView {
            transactions: transaction_views(self.transactions@),
            skip_sig_verify: self.skip_sig_verify,
            results: result_views(self.results@),
            stopped: self.stopped,
        }
    }
}

/// What is reported of one transaction.
pub fn transaction_result(
    outcome: Result<TransactionMetadata, FailedTransactionMetadata>,
) -> (r: BundleTransactionResult)
    ensures
        r@ == result_of(outcome_view(outcome)),
{
    match outcome {
        Ok(meta) => BundleTransactionResult {
            err: None,
            logs: Some(meta.logs),
            units_consumed: Some(meta.compute_units_consumed),
        },
        Err(failure) => BundleTransactionResult {
            err: Some(failure.err),
            logs: Some(failure.meta.logs),
            units_consumed: Some(failure.meta.compute_units_consumed),
        },
    }
}

impl BundleSimulation {
    #[verifier::type_invariant]
    spec fn inv(self) -> bool {
        self@.well_formed()
    }

    /// A bundle of which nothing has been tried yet.
    pub fn new(transactions: Vec<DecodedTransaction>, skip_sig_verify: bool) -> (r: Self)
        ensures
            r@ == SimulationView::start(transaction_views(transactions@), skip_sig_verify),
    {
        let results: Vec<BundleTransactionResult> = Vec::new();
        assert(result_views(results@) =~= seq![]);
        BundleSimulation { transactions, skip_sig_verify, results, stopped: false }
    }

    /// The transactions of the bundle.
    pub fn transactions(&self) -> (r: &Vec<DecodedTransaction>)
        ensures
            transaction_views(r@) == self@.transactions,
    {
        &self.transactions
    }

    /// Whether the copy of the ledger takes signatures on trust.
    pub fn skip_sig_verify(&self) -> (r: bool)
        ensures
            r == self@.skip_sig_verify,
    {
        self.skip_sig_verify
    }

    /// What has to happen next, or `None` once nothing is left.
    pub fn next_step(&self) -> (r: Option<LedgerStep>)
        ensures
            step_view(r) == self@.next_step(),
            is_step_among(step_view(r), self@.transactions.len()),
    {
        if self.stopped || self.results.len() >= self.transactions.len() {
            None
        } else {
            Some(LedgerStep::DryRun(self.results.len()))
        }
    }

    /// Takes in the outcome of the transaction at hand.
    pub fn record(
        self,
        outcome: Result<TransactionMetadata, FailedTransactionMetadata>,
    ) -> (r: Self)
        ensures
            r@ == self@.record(outcome_view(outcome)),
    {
        if self.stopped || self.results.len() >= self.transactions.len() {
            return self;
        }
        let BundleSimulation { transactions, skip_sig_verify, results, stopped: _ } = self;
        let mut results = results;
        let failed: bool = outcome.is_err();
        let result = transaction_result(outcome);
        let ghost before = results@;
        results.push(result);
        assert(result_views(results@) =~= result_views(before).push(result@));
        BundleSimulation { transactions, skip_sig_verify, results, stopped: failed }
    }

    /// The reply to the request, or `None` as long as something is left to execute.
    pub fn into_reply(self) -> (r: Option<RpcSimulateBundleResult>)
        ensures
            r is Some <==> self@.is_finished(),
            r matches Some(reply) ==> reply@ == self@.reply(),
    {
        proof {
            use_type_invariant(&self);
        }
        if !self.stopped && self.results.len() < self.transactions.len() {
            return None;
        }
        let summary: String = if !self.stopped {
            "succeeded".to_string()
        } else {
            let mut text = "failed: transaction ".to_string();
            append_decimal(&mut text, self.results.len() - 1);
            text.append(" failed");
            text
        };
        Some(RpcSimulateBundleResult { summary, transaction_results: self.results })
    }
}

} // verus!
