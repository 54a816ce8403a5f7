//! Which requests are taken on, with which transactions, and how the others are refused.
use vstd::prelude::*;

use crate::bundle::{
    bundle_verdict, decoded_all, fault_at, first_fault, is_unsigned, is_unsigned_bundle,
    lemma_first_fault, same_first_signature, size_error, validity,
};
use crate::decimal::decimal;
use crate::error::{error_line, ErrorCode, ErrorDataView, ErrorView};
use crate::laws::reading::{is_invalid_params, law_text_is_read_in_its_format, stands_for_in};
use crate::rpc::{
    encoding_of, is_unsigned_simulation, is_unsigned_submission, simulation_admission,
    simulation_of, submission_admission, submission_of, SendBundleConfig, SimulateBundleConfig,
};
use crate::simulation::SimulationView;
use crate::submission::{ProgressView, SubmissionView};
use crate::transaction::{
    decoded_in, DecodedTransactionView, TextFormat, TransactionBinaryEncoding,
};

verus! {

/// Whether every transaction has a signature, and no two have the same first one.
pub open spec fn are_told_apart(transactions: Seq<DecodedTransactionView>) -> bool {
    &&& forall|i: int|
        0 <= i < transactions.len() ==> #[trigger] transactions[i].signatures.len() > 0
    &&& forall|i: int, j: int|
        0 <= i < j < transactions.len() ==> #[trigger] transactions[i].signatures[0]
            != #[trigger] transactions[j].signatures[0]
}

/// Whether a list that was read starts with these transactions.
pub open spec fn starts_with(
    decodings: Seq<Result<DecodedTransactionView, ErrorView>>,
    transactions: Seq<DecodedTransactionView>,
) -> bool {
    &&& transactions.len() <= decodings.len()
    &&& forall|i: int|
        0 <= i < transactions.len() ==> decodings[i] == Ok::<DecodedTransactionView, ErrorView>(
            #[trigger] transactions[i],
        )
}

/// Nothing is wrong with transactions that are told apart.
proof fn lemma_no_fault(
    decodings: Seq<Result<DecodedTransactionView, ErrorView>>,
    transactions: Seq<DecodedTransactionView>,
    i: int,
)
    requires
        starts_with(decodings, transactions),
        are_told_apart(transactions),
        0 <= i < transactions.len(),
    ensures
        fault_at(decodings, i) is None,
{
    assert(decodings[i]->Ok_0 == transactions[i]);
    assert(transactions[i].signatures.len() > 0);
    assert forall|j: int| 0 <= j < i implies !same_first_signature(
        #[trigger] decodings[j],
        decodings[i],
    ) by {
        assert(decodings[j]->Ok_0 == transactions[j]);
        assert(transactions[j].signatures[0] != transactions[i].signatures[0]);
    }
}

/// The first fault after transactions that are told apart, where there is one right behind them.
proof fn lemma_fault_behind(
    decodings: Seq<Result<DecodedTransactionView, ErrorView>>,
    transactions: Seq<DecodedTransactionView>,
)
    requires
        starts_with(decodings, transactions),
        are_told_apart(transactions),
        transactions.len() < decodings.len(),
        fault_at(decodings, transactions.len() as int) is Some,
    ensures
        first_fault(decodings, 0) == Some(transactions.len() as int),
{
    let k = transactions.len() as int;
    lemma_first_fault(decodings, 0);
    if first_fault(decodings, 0) != Some(k) {
        match first_fault(decodings, 0) {
            Some(i) => {
                if i < k {
                    lemma_no_fault(decodings, transactions, i);
                } else {
                    assert(fault_at(decodings, k) is None);
                }
            },
            None => {
                assert(fault_at(decodings, k) is None);
            },
        }
    }
}

/// The transactions before the first fault.
proof fn lemma_before_fault(decodings: Seq<Result<DecodedTransactionView, ErrorView>>, k: int) -> (
    transactions: Seq<DecodedTransactionView>)
    requires
        0 <= k <= decodings.len(),
        forall|i: int| 0 <= i < k ==> #[trigger] fault_at(decodings, i) is None,
    ensures
        transactions.len() == k,
        starts_with(decodings, transactions),
        are_told_apart(transactions),
{
    let transactions = Seq::new(k as nat, |i: int| decodings[i]->Ok_0);
    assert forall|i: int| 0 <= i < k implies decodings[i] == Ok::<
        DecodedTransactionView,
        ErrorView,
    >(#[trigger] transactions[i]) && transactions[i].signatures.len() > 0 by {
        assert(fault_at(decodings, i) is None);
    }
    assert forall|i: int, j: int| 0 <= i < j < k implies #[trigger] transactions[i].signatures[0]
        != #[trigger] transactions[j].signatures[0] by {
        assert(fault_at(decodings, j) is None);
        assert(decodings[i] == Ok::<DecodedTransactionView, ErrorView>(transactions[i]));
        assert(decodings[j] == Ok::<DecodedTransactionView, ErrorView>(transactions[j]));
        assert(!same_first_signature(decodings[i], decodings[j]));
    }
    transactions
}

/// A list that was read is accepted exactly with all of its transactions, in order, and exactly
/// if they are told apart.
pub proof fn law_all_transactions_are_accepted(
    decodings: Seq<Result<DecodedTransactionView, ErrorView>>,
    transactions: Seq<DecodedTransactionView>,
)
    requires
        !is_unsigned(decodings),
    ensures
        validity(decodings) == Ok::<Seq<DecodedTransactionView>, ErrorView>(transactions) <==> {
            &&& transactions.len() == decodings.len()
            &&& starts_with(decodings, transactions)
            &&& are_told_apart(transactions)
        },
{
    lemma_first_fault(decodings, 0);
    let n = decodings.len() as int;
    if first_fault(decodings, 0) is None {
        let all = lemma_before_fault(decodings, n);
        let accepted = validity(decodings)->Ok_0;
        assert forall|i: int| 0 <= i < n implies accepted[i] == all[i] by {
            assert(decodings[i] == Ok::<DecodedTransactionView, ErrorView>(all[i]));
        }
        assert(accepted =~= all);
        if transactions.len() == decodings.len() && starts_with(decodings, transactions) {
            assert forall|i: int| 0 <= i < n implies transactions[i] == all[i] by {
                assert(decodings[i] == Ok::<DecodedTransactionView, ErrorView>(transactions[i]));
                assert(decodings[i] == Ok::<DecodedTransactionView, ErrorView>(all[i]));
            }
            assert(transactions =~= all);
        }
    } else {
        let k = first_fault(decodings, 0)->Some_0;
        assert(fault_at(decodings, k) is Some);
        if transactions.len() == decodings.len() && starts_with(decodings, transactions)
            && are_told_apart(transactions) {
            lemma_no_fault(decodings, transactions, k);
        }
    }
}

/// What comes behind transactions that are told apart decides how a list is refused: a text that
/// was not read is named with its error, a transaction that opens with the signature of an
/// earlier one is named as a duplicate, and for one without signatures there is no reply.
pub proof fn law_first_fault_is_named(
    decodings: Seq<Result<DecodedTransactionView, ErrorView>>,
    transactions: Seq<DecodedTransactionView>,
)
    requires
        starts_with(decodings, transactions),
        are_told_apart(transactions),
        transactions.len() < decodings.len(),
    ensures
        match decodings[transactions.len() as int] {
            Err(error) => {
                &&& !is_unsigned(decodings)
                &&& validity(decodings) is Err
                &&& is_invalid_params(
                    validity(decodings)->Err_0,
                    "Failed to decode transaction "@ + decimal(transactions.len()) + ": "@
                        + error_line(error),
                )
            },
            Ok(next) => {
                &&& is_unsigned(decodings) <== next.signatures.len() == 0
                &&& next.signatures.len() > 0 && (exists|j: int|
                    0 <= j < transactions.len() && #[trigger] transactions[j].signatures[0]
                        == next.signatures[0]) ==> {
                    &&& !is_unsigned(decodings)
                    &&& validity(decodings) is Err
                    &&& is_invalid_params(
                        validity(decodings)->Err_0,
                        "Bundle contains duplicate transaction at index "@ + decimal(
                            transactions.len(),
                        ),
                    )
                }
            },
        },
{
    let k = transactions.len() as int;
    match decodings[k] {
        Err(_) => {
            lemma_fault_behind(decodings, transactions);
        },
        Ok(next) => {
            if next.signatures.len() == 0 {
                lemma_fault_behind(decodings, transactions);
            } else if exists|j: int|
                0 <= j < transactions.len() && #[trigger] transactions[j].signatures[0]
                    == next.signatures[0] {
                let j = choose|j: int|
                    0 <= j < transactions.len() && #[trigger] transactions[j].signatures[0]
                        == next.signatures[0];
                assert(decodings[j] == Ok::<DecodedTransactionView, ErrorView>(transactions[j]));
                assert(transactions[j].signatures.len() > 0);
                assert(same_first_signature(decodings[j], decodings[k]));
                lemma_fault_behind(decodings, transactions);
            }
        },
    }
}

/// There is no reply to a list exactly if, behind transactions that are told apart, it has one
/// without signatures.
pub proof fn law_unsigned_transaction_has_no_reply(
    decodings: Seq<Result<DecodedTransactionView, ErrorView>>,
)
    ensures
        is_unsigned(decodings) <==> exists|transactions: Seq<DecodedTransactionView>|
            {
                &&& #[trigger] starts_with(decodings, transactions)
                &&& are_told_apart(transactions)
                &&& transactions.len() < decodings.len()
                &&& decodings[transactions.len() as int] matches Ok(next)
                &&& next.signatures.len() == 0
            },
{
    lemma_first_fault(decodings, 0);
    if is_unsigned(decodings) {
        let k = first_fault(decodings, 0)->Some_0;
        let transactions = lemma_before_fault(decodings, k);
        assert(starts_with(decodings, transactions));
    }
    if exists|transactions: Seq<DecodedTransactionView>|
        {
            &&& #[trigger] starts_with(decodings, transactions)
            &&& are_told_apart(transactions)
            &&& transactions.len() < decodings.len()
            &&& decodings[transactions.len() as int] matches Ok(next)
            &&& next.signatures.len() == 0
        } {
        let transactions = choose|transactions: Seq<DecodedTransactionView>|
            {
                &&& #[trigger] starts_with(decodings, transactions)
                &&& are_told_apart(transactions)
                &&& transactions.len() < decodings.len()
                &&& decodings[transactions.len() as int] matches Ok(next)
                &&& next.signatures.len() == 0
            };
        law_first_fault_is_named(decodings, transactions);
    }
}

/// A size is refused exactly if it is none of one to five, and the reply says why.
pub proof fn law_bundles_have_one_to_five_transactions(len: nat)
    ensures
        size_error(len) is None <==> 1 <= len <= 5,
        len == 0 ==> is_invalid_params(size_error(len)->Some_0, "Bundle cannot be empty"@),
        len > 5 ==> is_invalid_params(
            size_error(len)->Some_0,
            "Bundle cannot exceed "@ + decimal(5) + " transactions, got "@ + decimal(len),
        ),
{
}

/// Whether the transactions are those that the texts stand for, one for each and in order, as
/// far as there are transactions.
pub open spec fn stand_for(
    texts: Seq<Seq<char>>,
    format: TextFormat,
    transactions: Seq<DecodedTransactionView>,
) -> bool {
    &&& transactions.len() <= texts.len()
    &&& forall|i: int|
        0 <= i < transactions.len() ==> stands_for_in(
            texts[i],
            format,
            #[trigger] transactions[i],
        )
}

/// Whether texts stand for a bundle: one to five transactions that are told apart.
pub open spec fn is_bundle_of(
    texts: Seq<Seq<char>>,
    format: TextFormat,
    transactions: Seq<DecodedTransactionView>,
) -> bool {
    &&& transactions.len() == texts.len()
    &&& 1 <= texts.len() <= 5
    &&& stand_for(texts, format, transactions)
    &&& are_told_apart(transactions)
}

proof fn lemma_stand_for(
    texts: Seq<Seq<char>>,
    format: TextFormat,
    transactions: Seq<DecodedTransactionView>,
)
    ensures
        stand_for(texts, format, transactions) == starts_with(
            decoded_all(texts, format),
            transactions,
        ),
{
    let decodings = decoded_all(texts, format);
    if transactions.len() <= texts.len() {
        assert forall|i: int| 0 <= i < transactions.len() implies (stands_for_in(
            texts[i],
            format,
            #[trigger] transactions[i],
        ) <==> decodings[i] == Ok::<DecodedTransactionView, ErrorView>(transactions[i])) by {
            law_text_is_read_in_its_format(texts[i], format, transactions[i]);
        }
    }
}

/// A list of texts is accepted exactly with the transactions that it stands for, one for each
/// text and in order, and exactly if it stands for a bundle.
pub proof fn law_texts_are_accepted_as_what_they_stand_for(
    texts: Seq<Seq<char>>,
    format: TextFormat,
    transactions: Seq<DecodedTransactionView>,
)
    requires
        !is_unsigned_bundle(texts, format),
    ensures
        bundle_verdict(texts, format) == Ok::<Seq<DecodedTransactionView>, ErrorView>(transactions)
            <==> is_bundle_of(texts, format, transactions),
{
    lemma_stand_for(texts, format, transactions);
    law_bundles_have_one_to_five_transactions(texts.len());
    if 1 <= texts.len() <= 5 {
        law_all_transactions_are_accepted(decoded_all(texts, format), transactions);
    }
}

/// Whether the texts stand for transactions that are told apart up to the text at `k`, which
/// stands for a transaction without signatures.
pub open spec fn has_unsigned_at(texts: Seq<Seq<char>>, format: TextFormat, k: int) -> bool {
    exists|transactions: Seq<DecodedTransactionView>, next: DecodedTransactionView|
        {
            &&& transactions.len() == k < texts.len()
            &&& #[trigger] stand_for(texts, format, transactions)
            &&& are_told_apart(transactions)
            &&& #[trigger] stands_for_in(texts[k], format, next)
            &&& next.signatures.len() == 0
        }
}

/// There is no reply to a list of texts exactly if it has the size of a bundle and, behind
/// transactions that are told apart, a transaction without signatures.
pub proof fn law_texts_without_reply(texts: Seq<Seq<char>>, format: TextFormat)
    ensures
        is_unsigned_bundle(texts, format) <==> 1 <= texts.len() <= 5 && exists|k: int|
            #[trigger] has_unsigned_at(texts, format, k),
{
    let decodings = decoded_all(texts, format);
    law_unsigned_transaction_has_no_reply(decodings);
    if is_unsigned(decodings) {
        let transactions = choose|transactions: Seq<DecodedTransactionView>|
            {
                &&& #[trigger] starts_with(decodings, transactions)
                &&& are_told_apart(transactions)
                &&& transactions.len() < decodings.len()
                &&& decodings[transactions.len() as int] matches Ok(next)
                &&& next.signatures.len() == 0
            };
        let k = transactions.len() as int;
        let next = decodings[k]->Ok_0;
        lemma_stand_for(texts, format, transactions);
        law_text_is_read_in_its_format(texts[k], format, next);
        assert(stand_for(texts, format, transactions));
        assert(stands_for_in(texts[k], format, next));
        assert(has_unsigned_at(texts, format, k));
    }
    if exists|k: int| #[trigger] has_unsigned_at(texts, format, k) {
        let k = choose|k: int| #[trigger] has_unsigned_at(texts, format, k);
        let (transactions, next) = choose|
            transactions: Seq<DecodedTransactionView>,
            next: DecodedTransactionView,
        |
            {
                &&& transactions.len() == k < texts.len()
                &&& #[trigger] stand_for(texts, format, transactions)
                &&& are_told_apart(transactions)
                &&& #[trigger] stands_for_in(texts[k], format, next)
                &&& next.signatures.len() == 0
            };
        lemma_stand_for(texts, format, transactions);
        law_text_is_read_in_its_format(texts[k], format, next);
        assert(starts_with(decodings, transactions));
    }
}

/// How a list of texts is refused: for its size, or else for the first text, behind transactions
/// that are told apart, that stands for no transaction or for one that was there before.
pub proof fn law_texts_are_refused_for_the_first_fault(
    texts: Seq<Seq<char>>,
    format: TextFormat,
    transactions: Seq<DecodedTransactionView>,
    next: DecodedTransactionView,
)
    requires
        stand_for(texts, format, transactions),
        are_told_apart(transactions),
    ensures
        texts.len() == 0 || texts.len() > 5 ==> {
            &&& bundle_verdict(texts, format) is Err
            &&& is_invalid_params(
                bundle_verdict(texts, format)->Err_0,
                if texts.len() == 0 {
                    "Bundle cannot be empty"@
                } else {
                    "Bundle cannot exceed "@ + decimal(5) + " transactions, got "@ + decimal(
                        texts.len(),
                    )
                },
            )
        },
        1 <= texts.len() <= 5 && transactions.len() < texts.len() ==> {
            let k = transactions.len() as int;
            &&& (forall|other: DecodedTransactionView|
                !#[trigger] stands_for_in(texts[k], format, other)) ==> {
                &&& !is_unsigned_bundle(texts, format)
                &&& decoded_in(texts[k], format) is Err
                &&& bundle_verdict(texts, format) is Err
                &&& is_invalid_params(
                    bundle_verdict(texts, format)->Err_0,
                    "Failed to decode transaction "@ + decimal(k as nat) + ": "@ + error_line(
                        decoded_in(texts[k], format)->Err_0,
                    ),
                )
            }
            &&& stands_for_in(texts[k], format, next) && next.signatures.len() > 0 && (exists|
                j: int,
            |
                0 <= j < k && #[trigger] transactions[j].signatures[0] == next.signatures[0]) ==> {
                &&& !is_unsigned_bundle(texts, format)
                &&& bundle_verdict(texts, format) is Err
                &&& is_invalid_params(
                    bundle_verdict(texts, format)->Err_0,
                    "Bundle contains duplicate transaction at index "@ + decimal(k as nat),
                )
            }
        },
{
    let k = transactions.len() as int;
    law_bundles_have_one_to_five_transactions(texts.len());
    if 1 <= texts.len() <= 5 && k < texts.len() {
        lemma_stand_for(texts, format, transactions);
        law_first_fault_is_named(decoded_all(texts, format), transactions);
        law_text_is_read_in_its_format(texts[k], format, next);
        if forall|other: DecodedTransactionView|
            !#[trigger] stands_for_in(texts[k], format, other) {
            if let Ok(read) = decoded_in(texts[k], format) {
                law_text_is_read_in_its_format(texts[k], format, read);
                assert(stands_for_in(texts[k], format, read));
            }
        }
    }
}

/// An error in one line: what its kind is called, a colon and its message.
pub proof fn law_error_in_one_line(error: ErrorView)
    ensures
        error_line(error) == match error.code {
            ErrorCode::InvalidParams => "Invalid params"@ + ": "@ + error.message,
            ErrorCode::ServerError(_) => "Server error"@ + ": "@ + error.message,
        },
{
}

/// Whether a submission with these options is written in `encoding`: Base58 unless a name is
/// given, and else the one of that name.
pub open spec fn is_written_in(
    config: Option<SendBundleConfig>,
    encoding: TransactionBinaryEncoding,
) -> bool {
    let names_none = config is None || config->Some_0.encoding is None;
    match encoding {
        TransactionBinaryEncoding::Base58 => names_none || config->Some_0.encoding->Some_0@
            == "base58"@,
        TransactionBinaryEncoding::Base64 => !names_none && config->Some_0.encoding->Some_0@
            == "base64"@,
    }
}

/// A submission is read in the encoding that it is written in. A name of no encoding is refused.
pub proof fn law_options_name_the_encoding(
    config: Option<SendBundleConfig>,
    encoding: TransactionBinaryEncoding,
)
    ensures
        encoding_of(config) == Ok::<TransactionBinaryEncoding, ErrorView>(encoding)
            <==> is_written_in(config, encoding),
        encoding_of(config) matches Err(error) ==> {
            &&& config is Some && config->Some_0.encoding is Some
            &&& is_invalid_params(
                error,
                "unsupported encoding: "@ + config->Some_0.encoding->Some_0@
                    + ". Supported encodings: base58, base64"@,
            )
        },
{
    reveal_strlit("base58");
    reveal_strlit("base64");
    assert("base58"@[5] != "base64"@[5]);
}

/// A submission is taken on exactly where there is a context and the texts stand for a bundle in
/// the encoding that they are written in. It then has the transactions that the texts stand for,
/// one for each text and in order, and starts with the trial of the first.
pub proof fn law_submission_has_the_transactions_of_its_texts(
    has_context: bool,
    texts: Seq<Seq<char>>,
    config: Option<SendBundleConfig>,
    encoding: TransactionBinaryEncoding,
    submission: SubmissionView,
)
    requires
        !is_unsigned_submission(has_context, texts, config),
        is_written_in(config, encoding),
    ensures
        submission_of(has_context, texts, config) == Ok::<SubmissionView, ErrorView>(submission)
            <==> {
            &&& has_context
            &&& is_bundle_of(texts, TextFormat::Only(encoding), submission.transactions)
            &&& submission.progress == ProgressView::DryRun(0)
        },
        submission_admission(has_context, texts, config) == Ok::<
            Seq<DecodedTransactionView>,
            ErrorView,
        >(submission.transactions) <==> {
            &&& has_context
            &&& is_bundle_of(texts, TextFormat::Only(encoding), submission.transactions)
        },
{
    let format = TextFormat::Only(encoding);
    law_options_name_the_encoding(config, encoding);
    law_bundles_have_one_to_five_transactions(texts.len());
    if has_context {
        law_texts_are_accepted_as_what_they_stand_for(texts, format, submission.transactions);
        if let Ok(begun) = submission_of(has_context, texts, config) {
            assert(begun.progress == ProgressView::DryRun(0));
        }
    }
}

/// A simulation is taken on exactly where there is a context and the texts stand for a bundle in
/// Base58 or Base64. It then has the transactions that the texts stand for, one for each text and
/// in order, nothing has been tried yet, and it takes signatures on trust unless told otherwise.
pub proof fn law_simulation_has_the_transactions_of_its_texts(
    has_context: bool,
    texts: Seq<Seq<char>>,
    config: Option<SimulateBundleConfig>,
    simulation: SimulationView,
)
    requires
        !is_unsigned_simulation(has_context, texts),
    ensures
        simulation_of(has_context, texts, config) == Ok::<SimulationView, ErrorView>(simulation)
            <==> {
            &&& has_context
            &&& is_bundle_of(texts, TextFormat::Base58OrBase64, simulation.transactions)
            &&& simulation.results.len() == 0
            &&& !simulation.stopped
            &&& simulation.skip_sig_verify == (config matches Some(options)
                ==> options.skip_sig_verify)
        },
        simulation_admission(has_context, texts) == Ok::<Seq<DecodedTransactionView>, ErrorView>(
            simulation.transactions,
        ) <==> {
            &&& has_context
            &&& is_bundle_of(texts, TextFormat::Base58OrBase64, simulation.transactions)
        },
{
    if has_context {
        law_texts_are_accepted_as_what_they_stand_for(
            texts,
            TextFormat::Base58OrBase64,
            simulation.transactions,
        );
        if simulation.results.len() == 0 {
            assert(simulation.results =~= seq![]);
        }
    }
}

/// Requests without a reply are those with a context whose texts, in the encoding that they are
/// written in, have no reply.
pub proof fn law_requests_without_reply(
    has_context: bool,
    texts: Seq<Seq<char>>,
    config: Option<SendBundleConfig>,
)
    ensures
        is_unsigned_submission(has_context, texts, config) <==> has_context && 1 <= texts.len()
            <= 5 && exists|encoding: TransactionBinaryEncoding, k: int|
            is_written_in(config, encoding) && #[trigger] has_unsigned_at(
                texts,
                TextFormat::Only(encoding),
                k,
            ),
        is_unsigned_simulation(has_context, texts) <==> has_context && 1 <= texts.len() <= 5
            && exists|k: int| #[trigger] has_unsigned_at(texts, TextFormat::Base58OrBase64, k),
{
    law_texts_without_reply(texts, TextFormat::Base58OrBase64);
    law_texts_without_reply(texts, TextFormat::Only(TransactionBinaryEncoding::Base58));
    law_texts_without_reply(texts, TextFormat::Only(TransactionBinaryEncoding::Base64));
    law_options_name_the_encoding(config, TransactionBinaryEncoding::Base58);
    law_options_name_the_encoding(config, TransactionBinaryEncoding::Base64);
    if is_unsigned_submission(has_context, texts, config) {
        let encoding = encoding_of(config)->Ok_0;
        assert(is_written_in(config, encoding));
        let k = choose|k: int| #[trigger] has_unsigned_at(texts, TextFormat::Only(encoding), k);
        assert(has_unsigned_at(texts, TextFormat::Only(encoding), k));
    }
}

/// Whether an error is the one of a node that cannot serve requests and does not know how far it
/// is behind.
pub open spec fn is_node_unhealthy(error: ErrorView) -> bool {
    &&& error.code matches ErrorCode::ServerError(number) && number == -32005
    &&& error.message == "Node is unhealthy"@
    &&& error.data == Some(ErrorDataView::NodeUnhealthy { num_slots_behind: None })
}

/// How requests are refused. Without a context the node is unhealthy. Else a wrong size counts
/// first, for a submission then a name of no encoding, and then the texts.
pub proof fn law_requests_are_refused_in_order(
    has_context: bool,
    texts: Seq<Seq<char>>,
    send_config: Option<SendBundleConfig>,
    simulate_config: Option<SimulateBundleConfig>,
)
    ensures
        !has_context ==> {
            &&& submission_of(has_context, texts, send_config) is Err
            &&& is_node_unhealthy(submission_of(has_context, texts, send_config)->Err_0)
            &&& simulation_of(has_context, texts, simulate_config) is Err
            &&& is_node_unhealthy(simulation_of(has_context, texts, simulate_config)->Err_0)
        },
        has_context && texts.len() == 0 ==> {
            &&& submission_of(has_context, texts, send_config) is Err
            &&& is_invalid_params(
                submission_of(has_context, texts, send_config)->Err_0,
                "Bundle cannot be empty"@,
            )
            &&& simulation_of(has_context, texts, simulate_config) is Err
            &&& is_invalid_params(
                simulation_of(has_context, texts, simulate_config)->Err_0,
                "Bundle cannot be empty"@,
            )
        },
        has_context && texts.len() > 5 ==> {
            let message = "Bundle cannot exceed "@ + decimal(5) + " transactions, got "@ + decimal(
                texts.len(),
            );
            &&& submission_of(has_context, texts, send_config) is Err
            &&& is_invalid_params(submission_of(has_context, texts, send_config)->Err_0, message)
            &&& simulation_of(has_context, texts, simulate_config) is Err
            &&& is_invalid_params(
                simulation_of(has_context, texts, simulate_config)->Err_0,
                message,
            )
        },
        has_context && 1 <= texts.len() <= 5 && (forall|encoding: TransactionBinaryEncoding|
            !#[trigger] is_written_in(send_config, encoding)) ==> {
            &&& submission_of(has_context, texts, send_config) is Err
            &&& is_invalid_params(
                submission_of(has_context, texts, send_config)->Err_0,
                "unsupported encoding: "@ + send_config->Some_0.encoding->Some_0@
                    + ". Supported encodings: base58, base64"@,
            )
        },
{
    law_bundles_have_one_to_five_transactions(texts.len());
    if let Ok(encoding) = encoding_of(send_config) {
        law_options_name_the_encoding(send_config, encoding);
        assert(is_written_in(send_config, encoding));
    } else {
        law_options_name_the_encoding(send_config, TransactionBinaryEncoding::Base58);
    }
}

/// Whether the text behind these transactions, which are told apart, stands for no transaction.
pub open spec fn is_unreadable_behind(
    texts: Seq<Seq<char>>,
    format: TextFormat,
    transactions: Seq<DecodedTransactionView>,
) -> bool {
    &&& stand_for(texts, format, transactions)
    &&& are_told_apart(transactions)
    &&& transactions.len() < texts.len()
    &&& forall|other: DecodedTransactionView|
        !#[trigger] stands_for_in(texts[transactions.len() as int], format, other)
}

/// Whether the text behind these transactions, which are told apart, stands for `next`, which
/// opens with the signature of the one at `j`.
pub open spec fn is_repeated_behind(
    texts: Seq<Seq<char>>,
    format: TextFormat,
    transactions: Seq<DecodedTransactionView>,
    next: DecodedTransactionView,
    j: int,
) -> bool {
    &&& stand_for(texts, format, transactions)
    &&& are_told_apart(transactions)
    &&& transactions.len() < texts.len()
    &&& stands_for_in(texts[transactions.len() as int], format, next)
    &&& next.signatures.len() > 0
    &&& 0 <= j < transactions.len()
    &&& transactions[j].signatures[0] == next.signatures[0]
}

/// A request whose text behind transactions that are told apart stands for no transaction is
/// refused with the reason, and one where that text stands for a transaction that was there
/// before is refused as a duplicate. The reply names the place of the text.
pub proof fn law_requests_are_refused_for_the_first_fault(
    texts: Seq<Seq<char>>,
    send_config: Option<SendBundleConfig>,
    simulate_config: Option<SimulateBundleConfig>,
    encoding: TransactionBinaryEncoding,
    transactions: Seq<DecodedTransactionView>,
    next: DecodedTransactionView,
    j: int,
)
    requires
        1 <= texts.len() <= 5,
        is_written_in(send_config, encoding),
    ensures
        is_unreadable_behind(texts, TextFormat::Only(encoding), transactions) ==> {
            let k = transactions.len();
            let read = decoded_in(texts[k as int], TextFormat::Only(encoding));
            &&& submission_of(true, texts, send_config) matches Err(error)
            &&& read is Err
            &&& is_invalid_params(
                error,
                "Failed to decode transaction "@ + decimal(k) + ": "@ + error_line(read->Err_0),
            )
        },
        is_repeated_behind(texts, TextFormat::Only(encoding), transactions, next, j) ==> {
            &&& submission_of(true, texts, send_config) matches Err(error)
            &&& is_invalid_params(
                error,
                "Bundle contains duplicate transaction at index "@ + decimal(transactions.len()),
            )
        },
        is_unreadable_behind(texts, TextFormat::Base58OrBase64, transactions) ==> {
            let k = transactions.len();
            let read = decoded_in(texts[k as int], TextFormat::Base58OrBase64);
            &&& simulation_of(true, texts, simulate_config) matches Err(error)
            &&& read is Err
            &&& is_invalid_params(
                error,
                "Failed to decode transaction "@ + decimal(k) + ": "@ + error_line(read->Err_0),
            )
        },
        is_repeated_behind(texts, TextFormat::Base58OrBase64, transactions, next, j) ==> {
            &&& simulation_of(true, texts, simulate_config) matches Err(error)
            &&& is_invalid_params(
                error,
                "Bundle contains duplicate transaction at index "@ + decimal(transactions.len()),
            )
        },
{
    law_bundles_have_one_to_five_transactions(texts.len());
    law_options_name_the_encoding(send_config, encoding);
    if stand_for(texts, TextFormat::Only(encoding), transactions) && are_told_apart(transactions) {
        law_texts_are_refused_for_the_first_fault(
            texts,
            TextFormat::Only(encoding),
            transactions,
            next,
        );
    }
    if stand_for(texts, TextFormat::Base58OrBase64, transactions) && are_told_apart(
        transactions,
    ) {
        law_texts_are_refused_for_the_first_fault(
            texts,
            TextFormat::Base58OrBase64,
            transactions,
            next,
        );
    }
}

/// A text that stands for no transaction in any encoding that is allowed spoils the whole
/// request, wherever it stands in the list.
pub proof fn law_text_without_transaction_spoils_the_request(
    has_context: bool,
    texts: Seq<Seq<char>>,
    send_config: Option<SendBundleConfig>,
    simulate_config: Option<SimulateBundleConfig>,
    encoding: TransactionBinaryEncoding,
    i: int,
)
    requires
        0 <= i < texts.len(),
        is_written_in(send_config, encoding),
    ensures
        !is_unsigned_submission(has_context, texts, send_config) && (forall|
            other: DecodedTransactionView,
        |
            !#[trigger] stands_for_in(texts[i], TextFormat::Only(encoding), other))
            ==> submission_of(has_context, texts, send_config) is Err,
        !is_unsigned_simulation(has_context, texts) && (forall|other: DecodedTransactionView|
            !#[trigger] stands_for_in(texts[i], TextFormat::Base58OrBase64, other))
            ==> simulation_of(has_context, texts, simulate_config) is Err,
{
    if !is_unsigned_submission(has_context, texts, send_config) {
        if let Ok(submission) = submission_of(has_context, texts, send_config) {
            law_submission_has_the_transactions_of_its_texts(
                has_context,
                texts,
                send_config,
                encoding,
                submission,
            );
            assert(stands_for_in(
                texts[i],
                TextFormat::Only(encoding),
                submission.transactions[i],
            ));
        }
    }
    if !is_unsigned_simulation(has_context, texts) {
        if let Ok(simulation) = simulation_of(has_context, texts, simulate_config) {
            law_simulation_has_the_transactions_of_its_texts(
                has_context,
                texts,
                simulate_config,
                simulation,
            );
            assert(stands_for_in(
                texts[i],
                TextFormat::Base58OrBase64,
                simulation.transactions[i],
            ));
        }
    }
}

} // verus!
