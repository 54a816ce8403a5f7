//! Jito-specific requests: submission and simulation of bundles.
use vstd::prelude::*;

use crate::bundle::{
    bundle_verdict, check_bundle_size, decode_and_validate_bundle, decode_and_validate_bundle_in,
    has_unsigned_transaction, is_unsigned_bundle, law_accepted_bundle, size_error,
};
use crate::error::{invalid_params_view, lines, node_unhealthy_view, Error, ErrorView};
use crate::simulation::{BundleSimulation, SimulationView};
use crate::submission::{BundleSubmission, SubmissionView};
use crate::transaction::{
    transaction_views, DecodedTransactionView, TextFormat, TransactionBinaryEncoding,
};

verus! {

/// Options of a submission.
#[derive(Clone, Debug)]
pub struct SendBundleConfig {
    /// Transaction encoding (default: base58)
    pub encoding: Option<String>,
}

/// Options of a simulation.
#[derive(Clone, Debug)]
pub struct SimulateBundleConfig {
    /// Skip signature verification (default: true for simulation)
    pub skip_sig_verify: bool,
}

/// The value of options that are on unless a request turns them off.
pub fn default_true() -> (r: bool)
    ensures
        r,
{
    true
}

impl Default for SendBundleConfig {
    fn default() -> (r: Self)
        ensures
            r.encoding is None,
    {
        SendBundleConfig { encoding: None }
    }
}

impl Default for SimulateBundleConfig {
    fn default() -> (r: Self)
        ensures
            r.skip_sig_verify,
    {
        SimulateBundleConfig { skip_sig_verify: default_true() }
    }
}

/// The handler of bundle requests.
#[derive(Clone)]
pub struct SurfpoolJitoRpc;

/// The reply to a request that names an encoding which transactions are not read in.
pub open spec fn unsupported_encoding_view(name: Seq<char>) -> ErrorView {
    invalid_params_view(
        "unsupported encoding: "@ + name + ". Supported encodings: base58, base64"@,
    )
}

/// The encoding of this name, or the reply that refuses it.
pub open spec fn named_encoding(name: Seq<char>) -> Result<TransactionBinaryEncoding, ErrorView> {
    if name == "base58"@ {
        Ok(TransactionBinaryEncoding::Base58)
    } else if name == "base64"@ {
        Ok(TransactionBinaryEncoding::Base64)
    } else {
        Err(unsupported_encoding_view(name))
    }
}

/// The encoding that a submission with these options is read in: Base58 unless they name
/// another.
pub open spec fn encoding_of(config: Option<SendBundleConfig>) -> Result<
    TransactionBinaryEncoding,
    ErrorView,
> {
    match config {
        Some(config) => match config.encoding {
            Some(name) => named_encoding(name@),
            None => Ok(TransactionBinaryEncoding::Base58),
        },
        None => Ok(TransactionBinaryEncoding::Base58),
    }
}

/// Whether the first thing wrong with a submission is a transaction without signatures.
pub open spec fn is_unsigned_submission(
    has_context: bool,
    texts: Seq<Seq<char>>,
    config: Option<SendBundleConfig>,
) -> bool {
    &&& has_context
    &&& encoding_of(config) matches Ok(encoding)
    &&& is_unsigned_bundle(texts, TextFormat::Only(encoding))
}

/// Whether the first thing wrong with a simulation is a transaction without signatures.
pub open spec fn is_unsigned_simulation(has_context: bool, texts: Seq<Seq<char>>) -> bool {
    has_context && is_unsigned_bundle(texts, TextFormat::Base58OrBase64)
}

/// The transactions of a submission that is taken on, or the reply that refuses it. A node
/// without a context is unhealthy, whatever is asked of it. Then the size of the bundle counts,
/// then the encoding, then what the texts hold.
pub open spec fn submission_admission(
    has_context: bool,
    texts: Seq<Seq<char>>,
    config: Option<SendBundleConfig>,
) -> Result<Seq<DecodedTransactionView>, ErrorView> {
    if !has_context {
        Err(node_unhealthy_view())
    } else {
        match size_error(texts.len()) {
            Some(error) => Err(error),
            None => match encoding_of(config) {
                Ok(encoding) => bundle_verdict(texts, TextFormat::Only(encoding)),
                Err(error) => Err(error),
            },
        }
    }
}

/// The transactions of a simulation that is taken on, or the reply that refuses it. A node
/// without a context is unhealthy, whatever is asked of it.
pub open spec fn simulation_admission(has_context: bool, texts: Seq<Seq<char>>) -> Result<
    Seq<DecodedTransactionView>,
    ErrorView,
> {
    if has_context {
        bundle_verdict(texts, TextFormat::Base58OrBase64)
    } else {
        Err(node_unhealthy_view())
    }
}

/// Whether a simulation with these options takes signatures on trust.
pub open spec fn skips_sig_verify(config: Option<SimulateBundleConfig>) -> bool {
    match config {
        Some(config) => config.skip_sig_verify,
        None => true,
    }
}

/// The submission that begins with a request, or the reply that refuses it.
pub open spec fn submission_of(
    has_context: bool,
    texts: Seq<Seq<char>>,
    config: Option<SendBundleConfig>,
) -> Result<SubmissionView, ErrorView> {
    match submission_admission(has_context, texts, config) {
        Ok(transactions) => Ok(SubmissionView::start(transactions)),
        Err(error) => Err(error),
    }
}

/// The simulation that begins with a request, or the reply that refuses it.
pub open spec fn simulation_of(
    has_context: bool,
    texts: Seq<Seq<char>>,
    config: Option<SimulateBundleConfig>,
) -> Result<SimulationView, ErrorView> {
    match simulation_admission(has_context, texts) {
        Ok(transactions) => Ok(SimulationView::start(transactions, skips_sig_verify(config))),
        Err(error) => Err(error),
    }
}

/// What a submission that began, or did not, comes to.
pub open spec fn submission_view(r: Result<BundleSubmission, Error>) -> Result<
    SubmissionView,
    ErrorView,
> {
    match r {
        Ok(submission) => Ok(submission@),
        Err(error) => Err(error@),
    }
}

/// What a simulation that began, or did not, comes to.
pub open spec fn simulation_view(r: Result<BundleSimulation, Error>) -> Result<
    SimulationView,
    ErrorView,
> {
    match r {
        Ok(simulation) => Ok(simulation@),
        Err(error) => Err(error@),
    }
}

/// The encoding that a submission with these options is read in, or the reply that refuses them.
pub fn requested_encoding(config: &Option<SendBundleConfig>) -> (r: Result<
    TransactionBinaryEncoding,
    Error,
>)
    ensures
        match r {
            Ok(encoding) => encoding_of(*config) == Ok::<TransactionBinaryEncoding, ErrorView>(
                encoding,
            ),
            Err(error) => encoding_of(*config) == Err::<TransactionBinaryEncoding, ErrorView>(
                error@,
            ),
        },
{
    match config {
        None => Ok(TransactionBinaryEncoding::Base58),
        Some(config) => match &config.encoding {
            None => Ok(TransactionBinaryEncoding::Base58),
            Some(name) => {
                if *name == "base58".to_string() {
                    Ok(TransactionBinaryEncoding::Base58)
                } else if *name == "base64".to_string() {
                    Ok(TransactionBinaryEncoding::Base64)
                } else {
                    let mut message = "unsupported encoding: ".to_string();
                    message.append(name.as_str());
                    message.append(". Supported encodings: base58, base64");
                    Err(Error::invalid_params(message))
                }
            },
        },
    }
}

impl SurfpoolJitoRpc {
    /// Sends a bundle of transactions to be processed atomically.
    ///
    /// Takes on a bundle of one to five different transactions, written in the encoding that
    /// `config` names, or else in Base58. What has to be done with the ledger, and the reply in
    /// the end, are up to the [`BundleSubmission`].
    pub fn send_bundle<C>(
        &self,
        meta: &Option<C>,
        transactions: Vec<String>,
        config: Option<SendBundleConfig>,
    ) -> (r: Result<BundleSubmission, Error>)
        requires
            !is_unsigned_submission(meta is Some, lines(transactions@), config),
        ensures
            submission_view(r) == submission_of(meta is Some, lines(transactions@), config),
    {
        if meta.is_none() {
            return Err(Error::node_unhealthy());
        }
        if let Err(error) = check_bundle_size(transactions.len()) {
            return Err(error);
        }
        let format: TextFormat = match requested_encoding(&config) {
            Ok(encoding) => TextFormat::Only(encoding),
            Err(error) => {
                return Err(error);
            },
        };
        match decode_and_validate_bundle_in(transactions.as_slice(), format) {
            Ok(decoded_transactions) => {
                proof {
                    law_accepted_bundle(lines(transactions@), format);
                    assert forall|i: int| 0 <= i < decoded_transactions@.len() implies #[trigger]
                    decoded_transactions@[i].signatures@.len() > 0 by {
                        assert(transaction_views(decoded_transactions@)[i].signatures.len() > 0);
                    }
                }
                Ok(BundleSubmission::new(decoded_transactions))
            },
            Err(error) => Err(error),
        }
    }

    /// [`SurfpoolJitoRpc::send_bundle`] for any request: `None` where the first thing wrong with
    /// it is a transaction without signatures.
    pub fn checked_send_bundle<C>(
        &self,
        meta: &Option<C>,
        transactions: Vec<String>,
        config: Option<SendBundleConfig>,
    ) -> (r: Option<Result<BundleSubmission, Error>>)
        ensures
            r is None <==> is_unsigned_submission(meta is Some, lines(transactions@), config),
            r matches Some(begun) ==> submission_view(begun) == submission_of(
                meta is Some,
                lines(transactions@),
                config,
            ),
    {
        if meta.is_some() {
            if let Ok(encoding) = requested_encoding(&config) {
                if has_unsigned_transaction(transactions.as_slice(), TextFormat::Only(encoding)) {
                    return None;
                }
            }
        }
        Some(self.send_bundle(meta, transactions, config))
    }

    /// Simulates a bundle of transactions without committing any state changes.
    ///
    /// Takes on a bundle of one to five different transactions, each written in Base58 or in
    /// Base64. What has to be executed, and the reply in the end, are up to the
    /// [`BundleSimulation`].
    pub fn simulate_bundle<C>(
        &self,
        meta: &Option<C>,
        transactions: Vec<String>,
        config: Option<SimulateBundleConfig>,
    ) -> (r: Result<BundleSimulation, Error>)
        requires
            !is_unsigned_simulation(meta is Some, lines(transactions@)),
        ensures
            simulation_view(r) == simulation_of(meta is Some, lines(transactions@), config),
    {
        if meta.is_none() {
            return Err(Error::node_unhealthy());
        }
        let options: SimulateBundleConfig = match config {
            Some(config) => config,
            None => SimulateBundleConfig::default(),
        };
        match decode_and_validate_bundle(transactions.as_slice()) {
            Ok(decoded_transactions) => Ok(
                BundleSimulation::new(decoded_transactions, options.skip_sig_verify),
            ),
            Err(error) => Err(error),
        }
    }

    /// [`SurfpoolJitoRpc::simulate_bundle`] for any request: `None` where the first thing wrong
    /// with it is a transaction without signatures.
    pub fn checked_simulate_bundle<C>(
        &self,
        meta: &Option<C>,
        transactions: Vec<String>,
        config: Option<SimulateBundleConfig>,
    ) -> (r: Option<Result<BundleSimulation, Error>>)
        ensures
            r is None <==> is_unsigned_simulation(meta is Some, lines(transactions@)),
            r matches Some(begun) ==> simulation_view(begun) == simulation_of(
                meta is Some,
                lines(transactions@),
                config,
            ),
    {
        if meta.is_some() && has_unsigned_transaction(
            transactions.as_slice(),
            TextFormat::Base58OrBase64,
        ) {
            None
        } else {
            Some(self.simulate_bundle(meta, transactions, config))
        }
    }
}

} // verus!
