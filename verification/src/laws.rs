//! What holds of requests from end to end.
pub mod admission;
pub mod reading;
pub mod replies;
pub mod texts;
pub mod views;

use vstd::prelude::*;
use vstd::utf8::{encode_utf8, encode_utf8_decode_utf8};

use crate::base58::{
    base58_bytes, base58_digit, byte_digits, is_base58_of, is_base58_text, lemma_base58_bytes,
    lemma_base58_bytes_exist, lemma_base58_bytes_unique, lemma_base58_text_exists, text_digits,
};
use crate::base64::{base64_text, lemma_base64_bytes};
use crate::bundle::{
    bundle_id, bundle_verdict, comma_separated, decoded_all, fault_at, first_fault,
    first_signatures_view, is_bundle_size, is_signed, is_unsigned_bundle, law_accepted_bundle, lemma_first_fault,
    same_first_signature, signature_line, signature_text, signature_texts,
};
use crate::error::{ErrorDataView, ErrorView};
use crate::hex_text::lemma_hex_text_injective;
use crate::ledger::{FailedTransactionMetadataView, TransactionMetadataView};
use crate::outside::{deserialized, sha256_digest};
use crate::rpc::{
    encoding_of, is_unsigned_simulation, is_unsigned_submission, simulation_admission,
    simulation_of, skips_sig_verify, submission_admission, submission_of, SendBundleConfig,
    SimulateBundleConfig,
};
use crate::run::{
    carried_out, ledger_after, outcome_at, results_of, sent, simulated, succeed, tried_out,
    Executor, Ledgers,
};
use crate::simulation::{
    result_of, summary_view, RpcSimulateBundleResultView, SimulationView,
};
use crate::submission::{
    commit_failure_view, rejection_view, ProgressView, SubmissionView,
};
use crate::transaction::{
    decoded, decoded_as, decoded_in, DecodedTransactionView, TextFormat,
    TransactionBinaryEncoding,
};

verus! {

/// A bundle whose transactions have had the given outcomes, one after the other, with the ledger
/// saved and put back where that was asked for.
pub open spec fn after(
    submission: SubmissionView,
    outcomes: Seq<Result<TransactionMetadataView, FailedTransactionMetadataView>>,
) -> SubmissionView
    decreases outcomes.len(),
{
    if outcomes.len() == 0 {
        submission
    } else {
        after(submission, outcomes.drop_last()).record(outcomes.last()).done()
    }
}

/// Nothing is executed on the ledger before every transaction has succeeded on the copy,
/// whatever the outcomes are. A bundle that is past the trial has had as many successes as it
/// has transactions, from the first outcome on.
pub proof fn law_commit_follows_successful_trial(
    transactions: Seq<DecodedTransactionView>,
    outcomes: Seq<Result<TransactionMetadataView, FailedTransactionMetadataView>>,
)
    requires
        transactions.len() > 0,
    ensures
        match after(SubmissionView::start(transactions), outcomes).progress {
            ProgressView::DryRun(i) => {
                &&& i == outcomes.len()
                &&& i < transactions.len()
                &&& forall|j: int| 0 <= j < i ==> #[trigger] outcomes[j] is Ok
            },
            ProgressView::Commit(i) => {
                &&& i == outcomes.len() - transactions.len()
                &&& 0 <= i < transactions.len()
                &&& forall|j: int| 0 <= j < outcomes.len() ==> #[trigger] outcomes[j] is Ok
            },
            ProgressView::Finished(Ok(id)) => {
                &&& id == SubmissionView::start(transactions).id()
                &&& outcomes.len() >= 2 * transactions.len()
                &&& forall|j: int|
                    0 <= j < 2 * transactions.len() ==> #[trigger] outcomes[j] is Ok
            },
            ProgressView::Finished(Err(error)) => exists|k: int|
                {
                    &&& 0 <= k < outcomes.len()
                    &&& k < 2 * transactions.len()
                    &&& #[trigger] outcomes[k] is Err
                    &&& forall|j: int| 0 <= j < k ==> #[trigger] outcomes[j] is Ok
                    &&& error == if k < transactions.len() {
                        rejection_view(k, outcomes[k]->Err_0)
                    } else {
                        commit_failure_view(k - transactions.len(), outcomes[k]->Err_0)
                    }
                },
            _ => false,
        },
    decreases outcomes.len(),
{
    if outcomes.len() > 0 {
        let front = outcomes.drop_last();
        let n = transactions.len() as int;
        law_commit_follows_successful_trial(transactions, front);
        assert forall|j: int| 0 <= j < front.len() implies #[trigger] outcomes[j] == front[j] by {}
        let before = after(SubmissionView::start(transactions), front);
        let now = after(SubmissionView::start(transactions), outcomes);
        lemma_after_keeps_transactions(SubmissionView::start(transactions), front);
        match before.progress {
            ProgressView::Finished(Err(error)) => {
                let k = choose|k: int|
                    {
                        &&& 0 <= k < front.len()
                        &&& k < 2 * transactions.len()
                        &&& #[trigger] front[k] is Err
                        &&& forall|j: int| 0 <= j < k ==> #[trigger] front[j] is Ok
                        &&& error == if k < transactions.len() {
                            rejection_view(k, front[k]->Err_0)
                        } else {
                            commit_failure_view(k - transactions.len(), front[k]->Err_0)
                        }
                    };
                assert(outcomes[k] is Err);
                assert(forall|j: int| 0 <= j < k ==> #[trigger] outcomes[j] is Ok);
            },
            _ => {
                let k = outcomes.len() - 1;
                assert(outcomes[k] == outcomes.last());
                if outcomes[k] is Err && !(before.progress is Finished) {
                    assert(forall|j: int| 0 <= j < k ==> #[trigger] outcomes[j] is Ok);
                }
            },
        }
    }
}

proof fn lemma_after_keeps_transactions(
    submission: SubmissionView,
    outcomes: Seq<Result<TransactionMetadataView, FailedTransactionMetadataView>>,
)
    ensures
        after(submission, outcomes).transactions == submission.transactions,
    decreases outcomes.len(),
{
    if outcomes.len() > 0 {
        lemma_after_keeps_transactions(submission, outcomes.drop_last());
    }
}

/// Carrying out a bundle whose first `k` transactions succeed on the copy.
proof fn lemma_trial<L>(
    transactions: Seq<DecodedTransactionView>,
    on_copy: Executor<L>,
    on_ledger: Executor<L>,
    ledgers: Ledgers<L>,
    k: int,
)
    requires
        0 <= k <= transactions.len(),
        transactions.len() > 0,
        succeed(on_copy, ledgers.copy, transactions, k),
    ensures
        carried_out(SubmissionView::start(transactions), on_copy, on_ledger, ledgers)
            == carried_out(
            SubmissionView {
                transactions,
                progress: if k < transactions.len() {
                    ProgressView::DryRun(k)
                } else {
                    ProgressView::Save
                },
            },
            on_copy,
            on_ledger,
            Ledgers {
                copy: ledger_after(on_copy, ledgers.copy, transactions, k as nat),
                ..ledgers
            },
        ),
    decreases k,
{
    if k > 0 {
        assert(succeed(on_copy, ledgers.copy, transactions, k - 1));
        lemma_trial(transactions, on_copy, on_ledger, ledgers, k - 1);
        assert(outcome_at(on_copy, ledgers.copy, transactions, k - 1) is Ok);
    }
}

/// Committing a bundle whose first `k` transactions succeed on the ledger.
proof fn lemma_commit<L>(
    transactions: Seq<DecodedTransactionView>,
    on_copy: Executor<L>,
    on_ledger: Executor<L>,
    ledgers: Ledgers<L>,
    k: int,
)
    requires
        0 <= k <= transactions.len(),
        transactions.len() > 0,
        succeed(on_ledger, ledgers.ledger, transactions, k),
    ensures
        carried_out(
            SubmissionView { transactions, progress: ProgressView::Commit(0) },
            on_copy,
            on_ledger,
            ledgers,
        ) == carried_out(
            SubmissionView {
                transactions,
                progress: if k < transactions.len() {
                    ProgressView::Commit(k)
                } else {
                    ProgressView::Finished(Ok(SubmissionView::start(transactions).id()))
                },
            },
            on_copy,
            on_ledger,
            Ledgers {
                ledger: ledger_after(on_ledger, ledgers.ledger, transactions, k as nat),
                ..ledgers
            },
        ),
    decreases k,
{
    if k > 0 {
        assert(succeed(on_ledger, ledgers.ledger, transactions, k - 1));
        lemma_commit(transactions, on_copy, on_ledger, ledgers, k - 1);
        assert(outcome_at(on_ledger, ledgers.ledger, transactions, k - 1) is Ok);
    }
}

/// The first transaction that fails, if one does.
proof fn lemma_first_failure<L>(
    execute: Executor<L>,
    ledger: L,
    transactions: Seq<DecodedTransactionView>,
    k: int,
) -> (i: int)
    requires
        0 <= k,
        !succeed(execute, ledger, transactions, k),
    ensures
        0 <= i < k,
        succeed(execute, ledger, transactions, i),
        outcome_at(execute, ledger, transactions, i) is Err,
    decreases k,
{
    if k > 0 && !succeed(execute, ledger, transactions, k - 1) {
        lemma_first_failure(execute, ledger, transactions, k - 1)
    } else {
        k - 1
    }
}

/// A bundle with a transaction that fails on the copy is rejected with that transaction's
/// failure, and the ledger is what it was. It does not matter whether the copy is a good one.
pub proof fn law_rejected_bundle_leaves_the_ledger<L>(
    transactions: Seq<DecodedTransactionView>,
    on_copy: Executor<L>,
    on_ledger: Executor<L>,
    copy: L,
    ledger: L,
    i: int,
)
    requires
        0 <= i < transactions.len(),
        succeed(on_copy, copy, transactions, i),
        outcome_at(on_copy, copy, transactions, i) is Err,
    ensures
        ({
            let (end, ledgers) = carried_out(
                SubmissionView::start(transactions),
                on_copy,
                on_ledger,
                Ledgers::new(copy, ledger),
            );
            &&& end.progress == ProgressView::Finished(
                Err(rejection_view(i, outcome_at(on_copy, copy, transactions, i)->Err_0)),
            )
            &&& ledgers.ledger == ledger
        }),
{
    reveal_with_fuel(carried_out, 2);
    lemma_trial(transactions, on_copy, on_ledger, Ledgers::new(copy, ledger), i);
}

/// A bundle whose transactions all succeed on the copy is executed on the ledger, in order.
/// Where they all succeed there too, the ledger ends with all of them executed and the reply is
/// the bundle's ID.
pub proof fn law_accepted_bundle_is_committed<L>(
    transactions: Seq<DecodedTransactionView>,
    on_copy: Executor<L>,
    on_ledger: Executor<L>,
    copy: L,
    ledger: L,
)
    requires
        transactions.len() > 0,
        succeed(on_copy, copy, transactions, transactions.len() as int),
        succeed(on_ledger, ledger, transactions, transactions.len() as int),
    ensures
        ({
            let (end, ledgers) = carried_out(
                SubmissionView::start(transactions),
                on_copy,
                on_ledger,
                Ledgers::new(copy, ledger),
            );
            &&& end.progress == ProgressView::Finished(
                Ok(SubmissionView::start(transactions).id()),
            )
            &&& ledgers.ledger == ledger_after(on_ledger, ledger, transactions, transactions.len())
        }),
{
    let n = transactions.len() as int;
    let tried = ledger_after(on_copy, copy, transactions, n as nat);
    lemma_trial(transactions, on_copy, on_ledger, Ledgers::new(copy, ledger), n);
    lemma_commit(
        transactions,
        on_copy,
        on_ledger,
        Ledgers { copy: tried, saved: Some(ledger), ledger },
        n,
    );
}

/// A bundle whose transactions all succeed on the copy, while one of them fails on the ledger,
/// is answered with the failure of the first that does, and the ledger is what it was.
pub proof fn law_broken_commit_is_undone<L>(
    transactions: Seq<DecodedTransactionView>,
    on_copy: Executor<L>,
    on_ledger: Executor<L>,
    copy: L,
    ledger: L,
    i: int,
)
    requires
        0 <= i < transactions.len(),
        succeed(on_copy, copy, transactions, transactions.len() as int),
        succeed(on_ledger, ledger, transactions, i),
        outcome_at(on_ledger, ledger, transactions, i) is Err,
    ensures
        ({
            let (end, ledgers) = carried_out(
                SubmissionView::start(transactions),
                on_copy,
                on_ledger,
                Ledgers::new(copy, ledger),
            );
            &&& end.progress == ProgressView::Finished(
                Err(commit_failure_view(i, outcome_at(on_ledger, ledger, transactions, i)->Err_0)),
            )
            &&& ledgers.ledger == ledger
        }),
{
    let n = transactions.len() as int;
    let tried = ledger_after(on_copy, copy, transactions, n as nat);
    lemma_trial(transactions, on_copy, on_ledger, Ledgers::new(copy, ledger), n);
    lemma_commit(
        transactions,
        on_copy,
        on_ledger,
        Ledgers { copy: tried, saved: Some(ledger), ledger },
        i,
    );
    reveal_with_fuel(carried_out, 3);
}

/// Bundles are atomic, on any ledger and with any copy of it. Either every transaction succeeds
/// on what the ones before it left, on the copy and on the ledger, the ledger ends with all of
/// them executed and the reply is the bundle's ID, or the reply is an error and the ledger is
/// what it was.
pub proof fn law_bundles_are_atomic<L>(
    transactions: Seq<DecodedTransactionView>,
    on_copy: Executor<L>,
    on_ledger: Executor<L>,
    copy: L,
    ledger: L,
)
    requires
        transactions.len() > 0,
    ensures
        ({
            let (end, ledgers) = carried_out(
                SubmissionView::start(transactions),
                on_copy,
                on_ledger,
                Ledgers::new(copy, ledger),
            );
            let n = transactions.len();
            &&& end.progress is Finished
            &&& end.progress->Finished_0 is Ok <==> succeed(on_copy, copy, transactions, n as int)
                && succeed(on_ledger, ledger, transactions, n as int)
            &&& match end.progress->Finished_0 {
                Ok(id) => {
                    &&& id == SubmissionView::start(transactions).id()
                    &&& ledgers.ledger == ledger_after(on_ledger, ledger, transactions, n)
                },
                Err(_) => ledgers.ledger == ledger,
            }
        }),
{
    let n = transactions.len() as int;
    if !succeed(on_copy, copy, transactions, n) {
        let i = lemma_first_failure(on_copy, copy, transactions, n);
        law_rejected_bundle_leaves_the_ledger(transactions, on_copy, on_ledger, copy, ledger, i);
    } else if !succeed(on_ledger, ledger, transactions, n) {
        let i = lemma_first_failure(on_ledger, ledger, transactions, n);
        law_broken_commit_is_undone(transactions, on_copy, on_ledger, copy, ledger, i);
    } else {
        law_accepted_bundle_is_committed(transactions, on_copy, on_ledger, copy, ledger);
    }
}

/// Where the copy behaves as the ledger does, the trial decides: a bundle that passes it is
/// committed, and any other is rejected with the failure of the first transaction that fails. A
/// bundle never breaks off while it is committed.
pub proof fn law_trial_decides<L>(
    transactions: Seq<DecodedTransactionView>,
    execute: Executor<L>,
    ledger: L,
)
    requires
        transactions.len() > 0,
    ensures
        ({
            let (end, ledgers) = carried_out(
                SubmissionView::start(transactions),
                execute,
                execute,
                Ledgers::new(ledger, ledger),
            );
            let n = transactions.len();
            if succeed(execute, ledger, transactions, n as int) {
                &&& end.progress == ProgressView::Finished(
                    Ok(SubmissionView::start(transactions).id()),
                )
                &&& ledgers.ledger == ledger_after(execute, ledger, transactions, n)
            } else {
                &&& ledgers.ledger == ledger
                &&& exists|i: int|
                    0 <= i < n && succeed(execute, ledger, transactions, i)
                        && #[trigger] outcome_at(execute, ledger, transactions, i) is Err
                        && end.progress == ProgressView::Finished(
                        Err(
                            rejection_view(
                                i,
                                outcome_at(execute, ledger, transactions, i)->Err_0,
                            ),
                        ),
                    )
            }
        }),
{
    let n = transactions.len() as int;
    if succeed(execute, ledger, transactions, n) {
        law_accepted_bundle_is_committed(transactions, execute, execute, ledger, ledger);
    } else {
        let i = lemma_first_failure(execute, ledger, transactions, n);
        law_rejected_bundle_leaves_the_ledger(transactions, execute, execute, ledger, ledger, i);
    }
}

/// A submission is answered with the bundle's ID exactly if it is taken on and all of its
/// transactions succeed, on the copy and on the ledger, and then the ledger ends with all of them
/// executed. A submission that is not taken on is answered with the reason.
pub proof fn law_submission_succeeds_iff<L>(
    has_context: bool,
    texts: Seq<Seq<char>>,
    config: Option<SendBundleConfig>,
    on_copy: Executor<L>,
    on_ledger: Executor<L>,
    copy: L,
    ledger: L,
)
    requires
        !is_unsigned_submission(has_context, texts, config),
    ensures
        ({
            let (reply, after) = sent(has_context, texts, config, on_copy, on_ledger, copy, ledger);
            match submission_admission(has_context, texts, config) {
                Ok(transactions) => {
                    let n = transactions.len();
                    &&& reply is Ok <==> succeed(on_copy, copy, transactions, n as int) && succeed(
                        on_ledger,
                        ledger,
                        transactions,
                        n as int,
                    )
                    &&& reply matches Ok(id) ==> {
                        &&& id == bundle_id(first_signatures_view(transactions))
                        &&& after == ledger_after(on_ledger, ledger, transactions, n)
                    }
                },
                Err(error) => reply == Err::<Seq<char>, ErrorView>(error),
            }
        }),
{
    if let Ok(transactions) = submission_admission(has_context, texts, config) {
        law_accepted_bundle(texts, TextFormat::Only(encoding_of(config)->Ok_0));
        law_bundles_are_atomic(transactions, on_copy, on_ledger, copy, ledger);
    }
}

/// A submission that is answered with an error leaves the ledger as it was, whatever went wrong
/// and wherever.
pub proof fn law_failed_submission_changes_nothing<L>(
    has_context: bool,
    texts: Seq<Seq<char>>,
    config: Option<SendBundleConfig>,
    on_copy: Executor<L>,
    on_ledger: Executor<L>,
    copy: L,
    ledger: L,
)
    requires
        !is_unsigned_submission(has_context, texts, config),
    ensures
        ({
            let (reply, after) = sent(has_context, texts, config, on_copy, on_ledger, copy, ledger);
            reply is Err ==> after == ledger
        }),
{
    if let Ok(submission) = submission_of(has_context, texts, config) {
        law_accepted_bundle(texts, TextFormat::Only(encoding_of(config)->Ok_0));
        law_bundles_are_atomic(submission.transactions, on_copy, on_ledger, copy, ledger);
    }
}

/// The encoding of a submission is the one that its options name, and Base58 where they name
/// none: a bundle with a text that is not a transaction in that encoding is refused, though the
/// text may be one in another.
pub proof fn law_other_encodings_are_refused(
    texts: Seq<Seq<char>>,
    config: Option<SendBundleConfig>,
    i: int,
)
    requires
        !is_unsigned_submission(true, texts, config),
        0 <= i < texts.len(),
        encoding_of(config) matches Ok(encoding) ==> decoded_as(texts[i], encoding) is Err,
    ensures
        submission_of(true, texts, config) is Err,
        config is None || config->Some_0.encoding is None ==> encoding_of(config) == Ok::<
            TransactionBinaryEncoding,
            ErrorView,
        >(TransactionBinaryEncoding::Base58),
{
    if let Ok(encoding) = encoding_of(config) {
        law_bundle_is_accepted_iff(texts, TextFormat::Only(encoding));
        assert(decoded_in(texts[i], TextFormat::Only(encoding)) is Err);
    }
}

/// Trying out a bundle whose first `k` transactions succeed on the copy.
proof fn lemma_tried_out<L>(
    transactions: Seq<DecodedTransactionView>,
    skip_sig_verify: bool,
    on_copy: Executor<L>,
    on_ledger: Executor<L>,
    ledgers: Ledgers<L>,
    k: int,
)
    requires
        0 <= k <= transactions.len(),
        succeed(on_copy, ledgers.copy, transactions, k),
    ensures
        tried_out(
            SimulationView::start(transactions, skip_sig_verify),
            on_copy,
            on_ledger,
            ledgers,
        ) == tried_out(
            SimulationView {
                transactions,
                skip_sig_verify,
                results: results_of(on_copy, ledgers.copy, transactions, k as nat),
                stopped: false,
            },
            on_copy,
            on_ledger,
            Ledgers {
                copy: ledger_after(on_copy, ledgers.copy, transactions, k as nat),
                ..ledgers
            },
        ),
    decreases k,
{
    let copy = ledgers.copy;
    if k > 0 {
        assert(succeed(on_copy, copy, transactions, k - 1));
        lemma_tried_out(transactions, skip_sig_verify, on_copy, on_ledger, ledgers, k - 1);
        assert(outcome_at(on_copy, copy, transactions, k - 1) is Ok);
        assert(results_of(on_copy, copy, transactions, (k - 1) as nat).push(
            result_of(outcome_at(on_copy, copy, transactions, k - 1)),
        ) =~= results_of(on_copy, copy, transactions, k as nat));
    } else {
        assert(results_of(on_copy, copy, transactions, 0) =~= seq![]);
    }
}

/// A simulation in which all transactions succeed says so, with a result for each of them.
pub proof fn law_simulation_of_successes<L>(
    transactions: Seq<DecodedTransactionView>,
    skip_sig_verify: bool,
    on_copy: Executor<L>,
    on_ledger: Executor<L>,
    copy: L,
    ledger: L,
)
    requires
        succeed(on_copy, copy, transactions, transactions.len() as int),
    ensures
        ({
            let (end, _) = tried_out(
                SimulationView::start(transactions, skip_sig_verify),
                on_copy,
                on_ledger,
                Ledgers::new(copy, ledger),
            );
            &&& end.is_finished()
            &&& !end.stopped
            &&& end.reply().summary == summary_view(None)
            &&& end.reply().transaction_results == results_of(
                on_copy,
                copy,
                transactions,
                transactions.len(),
            )
            &&& forall|i: int|
                0 <= i < transactions.len() ==> (
                #[trigger] end.reply().transaction_results[i]).err is None
        }),
{
    let n = transactions.len();
    lemma_tried_out(
        transactions,
        skip_sig_verify,
        on_copy,
        on_ledger,
        Ledgers::new(copy, ledger),
        n as int,
    );
    assert forall|i: int| 0 <= i < n implies (#[trigger] results_of(
        on_copy,
        copy,
        transactions,
        n,
    )[i]).err is None by {
        assert(outcome_at(on_copy, copy, transactions, i) is Ok);
    }
}

/// A simulation stops at the first transaction that fails. It has a result for that one and for
/// each before it, only the last of them holds an error, and the summary names it.
pub proof fn law_simulation_stops_at_failure<L>(
    transactions: Seq<DecodedTransactionView>,
    skip_sig_verify: bool,
    on_copy: Executor<L>,
    on_ledger: Executor<L>,
    copy: L,
    ledger: L,
    i: int,
)
    requires
        0 <= i < transactions.len(),
        succeed(on_copy, copy, transactions, i),
        outcome_at(on_copy, copy, transactions, i) is Err,
    ensures
        ({
            let (end, _) = tried_out(
                SimulationView::start(transactions, skip_sig_verify),
                on_copy,
                on_ledger,
                Ledgers::new(copy, ledger),
            );
            &&& end.is_finished()
            &&& end.stopped
            &&& end.reply().summary == summary_view(Some(i))
            &&& end.reply().transaction_results == results_of(
                on_copy,
                copy,
                transactions,
                (i + 1) as nat,
            )
            &&& end.reply().transaction_results[i].err == Some(
                outcome_at(on_copy, copy, transactions, i)->Err_0.err,
            )
            &&& forall|j: int|
                0 <= j < i ==> (#[trigger] end.reply().transaction_results[j]).err is None
        }),
{
    reveal_with_fuel(tried_out, 2);
    lemma_tried_out(
        transactions,
        skip_sig_verify,
        on_copy,
        on_ledger,
        Ledgers::new(copy, ledger),
        i,
    );
    assert(results_of(on_copy, copy, transactions, i as nat).push(
        result_of(outcome_at(on_copy, copy, transactions, i)),
    ) =~= results_of(on_copy, copy, transactions, (i + 1) as nat));
    assert forall|j: int| 0 <= j < i implies (#[trigger] results_of(
        on_copy,
        copy,
        transactions,
        (i + 1) as nat,
    )[j]).err is None by {
        assert(outcome_at(on_copy, copy, transactions, j) is Ok);
    }
}

/// No step of a simulation, from wherever it stands, changes the ledger or what is saved of it.
pub proof fn law_simulation_keeps_to_the_copy<L>(
    simulation: SimulationView,
    on_copy: Executor<L>,
    on_ledger: Executor<L>,
    ledgers: Ledgers<L>,
)
    ensures
        tried_out(simulation, on_copy, on_ledger, ledgers).0.is_finished(),
        tried_out(simulation, on_copy, on_ledger, ledgers).1.ledger == ledgers.ledger,
        tried_out(simulation, on_copy, on_ledger, ledgers).1.saved == ledgers.saved,
    decreases simulation.transactions.len() - simulation.results.len(),
{
    if !simulation.is_finished() {
        let (outcome, copy) = on_copy(
            ledgers.copy,
            simulation.transactions[simulation.results.len() as int].wire,
        );
        law_simulation_keeps_to_the_copy(
            simulation.record(outcome),
            on_copy,
            on_ledger,
            Ledgers { copy, ..ledgers },
        );
    }
}

/// A simulation leaves the ledger as it was, whatever is asked and whatever the reply is.
pub proof fn law_simulation_changes_nothing<L>(
    has_context: bool,
    texts: Seq<Seq<char>>,
    config: Option<SimulateBundleConfig>,
    on_copy: Executor<L>,
    on_ledger: Executor<L>,
    copy_of: spec_fn(L, bool) -> L,
    ledger: L,
)
    ensures
        simulated(has_context, texts, config, on_copy, on_ledger, copy_of, ledger).1 == ledger,
{
    if let Ok(simulation) = simulation_of(has_context, texts, config) {
        law_simulation_keeps_to_the_copy(
            simulation,
            on_copy,
            on_ledger,
            Ledgers::new(copy_of(ledger, simulation.skip_sig_verify), ledger),
        );
    }
}

/// A simulation can be repeated: on the ledger that the first one left, the same request has the
/// same reply.
pub proof fn law_simulation_can_be_repeated<L>(
    has_context: bool,
    texts: Seq<Seq<char>>,
    config: Option<SimulateBundleConfig>,
    on_copy: Executor<L>,
    on_ledger: Executor<L>,
    copy_of: spec_fn(L, bool) -> L,
    ledger: L,
)
    ensures
        ({
            let (reply, after) = simulated(
                has_context,
                texts,
                config,
                on_copy,
                on_ledger,
                copy_of,
                ledger,
            );
            simulated(has_context, texts, config, on_copy, on_ledger, copy_of, after) == (
                reply,
                after,
            )
        }),
{
    law_simulation_changes_nothing(
        has_context,
        texts,
        config,
        on_copy,
        on_ledger,
        copy_of,
        ledger,
    );
}

/// Whether the transactions have the same outcomes on two ledgers, each executed on what the
/// ones before it left.
pub open spec fn same_outcomes<L>(
    on_a: Executor<L>,
    a: L,
    on_b: Executor<L>,
    b: L,
    transactions: Seq<DecodedTransactionView>,
) -> bool {
    forall|i: int|
        0 <= i < transactions.len() ==> #[trigger] outcome_at(on_a, a, transactions, i)
            == outcome_at(on_b, b, transactions, i)
}

/// Whether a submission was rejected for the transaction at `i`, which is the first that fails
/// on `ledger`, and which is what a simulation says of it: its summary names that transaction,
/// and its last result holds the error and the logs of the rejection.
pub open spec fn is_foretold_rejection<L>(
    forecast: RpcSimulateBundleResultView,
    error: ErrorView,
    execute: Executor<L>,
    ledger: L,
    transactions: Seq<DecodedTransactionView>,
    i: int,
) -> bool {
    let outcome = outcome_at(execute, ledger, transactions, i);
    let result = forecast.transaction_results[i];
    &&& 0 <= i < transactions.len()
    &&& succeed(execute, ledger, transactions, i)
    &&& outcome is Err
    &&& forecast.summary == summary_view(Some(i))
    &&& forecast.transaction_results.len() == i + 1
    &&& error == rejection_view(i, outcome->Err_0)
    &&& result.err is Some
    &&& result.logs is Some
    &&& error.data == Some(
        ErrorDataView::TransactionFailure {
            transaction_index: i,
            error: result.err->Some_0,
            logs: result.logs->Some_0,
        },
    )
}

/// A simulation foretells the submission of the same texts, where both requests are read alike
/// and the transactions have the same outcomes on the copy for the simulation, on the copy for
/// the trial and on the ledger. What one refuses the other refuses with the same error. The
/// simulation succeeds exactly where the bundle is carried out. Where it fails, the transaction
/// that its summary names is the first that fails and the one that the bundle is rejected for,
/// with the error and the logs that the simulation reports of it.
pub proof fn law_simulation_foretells_submission<L>(
    has_context: bool,
    texts: Seq<Seq<char>>,
    send_config: Option<SendBundleConfig>,
    simulate_config: Option<SimulateBundleConfig>,
    on_copy: Executor<L>,
    on_ledger: Executor<L>,
    copy_of: spec_fn(L, bool) -> L,
    copy: L,
    ledger: L,
)
    requires
        !is_unsigned_submission(has_context, texts, send_config),
        submission_admission(has_context, texts, send_config) == simulation_admission(
            has_context,
            texts,
        ),
        simulation_admission(has_context, texts) matches Ok(transactions) ==> {
            let tried_on = copy_of(ledger, skips_sig_verify(simulate_config));
            &&& same_outcomes(on_copy, tried_on, on_copy, copy, transactions)
            &&& same_outcomes(on_copy, tried_on, on_ledger, ledger, transactions)
        },
    ensures
        ({
            let (forecast, _) = simulated(
                has_context,
                texts,
                simulate_config,
                on_copy,
                on_ledger,
                copy_of,
                ledger,
            );
            let (reply, after) = sent(
                has_context,
                texts,
                send_config,
                on_copy,
                on_ledger,
                copy,
                ledger,
            );
            match (forecast, simulation_admission(has_context, texts)) {
                (Err(error), Err(_)) => {
                    &&& reply == Err::<Seq<char>, ErrorView>(error)
                    &&& after == ledger
                },
                (Ok(forecast), Ok(transactions)) => {
                    &&& reply is Ok <==> forecast.summary == summary_view(None)
                    &&& match reply {
                        Ok(id) => {
                            &&& id == SubmissionView::start(transactions).id()
                            &&& after == ledger_after(
                                on_ledger,
                                ledger,
                                transactions,
                                transactions.len(),
                            )
                            &&& forecast.transaction_results == results_of(
                                on_ledger,
                                ledger,
                                transactions,
                                transactions.len(),
                            )
                        },
                        Err(error) => {
                            &&& after == ledger
                            &&& exists|i: int|
                                is_foretold_rejection(
                                    forecast,
                                    error,
                                    on_ledger,
                                    ledger,
                                    transactions,
                                    i,
                                )
                        },
                    }
                },
                _ => false,
            }
        }),
{
    if let Ok(transactions) = simulation_admission(has_context, texts) {
        let n = transactions.len() as int;
        let skip = skips_sig_verify(simulate_config);
        let tried_on = copy_of(ledger, skip);
        law_accepted_bundle(texts, TextFormat::Only(encoding_of(send_config)->Ok_0));
        assert forall|i: int| 0 <= i < n implies {
            &&& #[trigger] outcome_at(on_copy, copy, transactions, i) == outcome_at(
                on_copy,
                tried_on,
                transactions,
                i,
            )
            &&& outcome_at(on_ledger, ledger, transactions, i) == outcome_at(
                on_copy,
                tried_on,
                transactions,
                i,
            )
        } by {
            assert(outcome_at(on_copy, tried_on, transactions, i) == outcome_at(
                on_copy,
                copy,
                transactions,
                i,
            ));
        }
        if succeed(on_copy, tried_on, transactions, n) {
            assert forall|i: int| 0 <= i < n implies #[trigger] outcome_at(
                on_ledger,
                ledger,
                transactions,
                i,
            ) is Ok by {
                assert(outcome_at(on_copy, tried_on, transactions, i) is Ok);
            }
            law_accepted_bundle_is_committed(transactions, on_copy, on_ledger, copy, ledger);
            law_simulation_of_successes(
                transactions,
                skip,
                on_copy,
                on_ledger,
                tried_on,
                ledger,
            );
            assert(results_of(on_copy, tried_on, transactions, n as nat) =~= results_of(
                on_ledger,
                ledger,
                transactions,
                n as nat,
            )) by {
                assert forall|i: int| 0 <= i < n implies result_of(
                    outcome_at(on_copy, tried_on, transactions, i),
                ) == result_of(outcome_at(on_ledger, ledger, transactions, i)) by {}
            }
        } else {
            let i = lemma_first_failure(on_copy, tried_on, transactions, n);
            assert(outcome_at(on_copy, copy, transactions, i) is Err);
            assert forall|j: int| 0 <= j < i implies #[trigger] outcome_at(
                on_ledger,
                ledger,
                transactions,
                j,
            ) is Ok by {
                assert(outcome_at(on_copy, tried_on, transactions, j) is Ok);
            }
            law_rejected_bundle_leaves_the_ledger(
                transactions,
                on_copy,
                on_ledger,
                copy,
                ledger,
                i,
            );
            law_simulation_stops_at_failure(
                transactions,
                skip,
                on_copy,
                on_ledger,
                tried_on,
                ledger,
                i,
            );
            let forecast = simulated(
                has_context,
                texts,
                simulate_config,
                on_copy,
                on_ledger,
                copy_of,
                ledger,
            ).0->Ok_0;
            assert(forecast.transaction_results[i] == result_of(
                outcome_at(on_copy, tried_on, transactions, i),
            ));
            assert(forecast.summary != summary_view(None)) by {
                reveal_strlit("succeeded");
                reveal_strlit("failed: transaction ");
                assert(forecast.summary[0] == 'f');
            }
            let error = rejection_view(
                i,
                outcome_at(on_ledger, ledger, transactions, i)->Err_0,
            );
            assert(is_foretold_rejection(
                forecast,
                error,
                on_ledger,
                ledger,
                transactions,
                i,
            ));
        }
    }
}

/// A submission and a simulation of the same texts take on the same transactions, or refuse them
/// with the same error, where each text means the same in the encoding of the submission as it
/// does where either encoding will do.
pub proof fn law_requests_are_read_alike(
    has_context: bool,
    texts: Seq<Seq<char>>,
    config: Option<SendBundleConfig>,
)
    requires
        encoding_of(config) is Ok,
        forall|i: int|
            0 <= i < texts.len() ==> decoded_as(#[trigger] texts[i], encoding_of(config)->Ok_0)
                == decoded(texts[i]),
    ensures
        submission_admission(has_context, texts, config) == simulation_admission(
            has_context,
            texts,
        ),
        is_unsigned_submission(has_context, texts, config) == is_unsigned_simulation(
            has_context,
            texts,
        ),
{
    assert(decoded_all(texts, TextFormat::Only(encoding_of(config)->Ok_0)) =~= decoded_all(
        texts,
        TextFormat::Base58OrBase64,
    ));
}

/// A text that is a transaction in Base58 means the same where either encoding will do. So a
/// submission without options and a simulation of such texts take on the same transactions.
pub proof fn law_base58_requests_are_read_alike(has_context: bool, texts: Seq<Seq<char>>)
    requires
        forall|i: int|
            0 <= i < texts.len() ==> decoded_as(
                #[trigger] texts[i],
                TransactionBinaryEncoding::Base58,
            ) is Ok,
    ensures
        submission_admission(has_context, texts, None) == simulation_admission(
            has_context,
            texts,
        ),
{
    law_requests_are_read_alike(has_context, texts, None);
}

/// A list of one to five texts of signed transactions, no two with the same first signature, is
/// accepted, and no other list is.
pub proof fn law_bundle_is_accepted_iff(texts: Seq<Seq<char>>, format: TextFormat)
    requires
        !is_unsigned_bundle(texts, format),
    ensures
        bundle_verdict(texts, format) is Ok <==> {
            &&& is_bundle_size(texts.len())
            &&& forall|i: int| 0 <= i < texts.len() ==> is_signed(decoded_in(#[trigger] texts[i], format))
            &&& forall|i: int, j: int|
                0 <= i < j < texts.len() ==> !same_first_signature(
                    decoded_in(#[trigger] texts[i], format),
                    decoded_in(#[trigger] texts[j], format),
                )
        },
{
    let decodings = decoded_all(texts, format);
    lemma_first_fault(decodings, 0);
    if first_fault(decodings, 0) is None {
        assert forall|i: int| 0 <= i < texts.len() implies is_signed(
            decoded_in(#[trigger] texts[i], format),
        ) by {
            assert(fault_at(decodings, i) is None);
        }
        assert forall|i: int, j: int| 0 <= i < j < texts.len() implies !same_first_signature(
            decoded_in(#[trigger] texts[i], format),
            decoded_in(#[trigger] texts[j], format),
        ) by {
            assert(fault_at(decodings, j) is None);
            assert(decodings[i] == decoded_in(texts[i], format));
        }
    } else {
        let k = first_fault(decodings, 0).unwrap();
        assert(decodings[k] == decoded_in(texts[k], format));
        if is_signed(decoded_in(texts[k], format)) {
            let j = choose|j: int|
                0 <= j < k && same_first_signature(#[trigger] decodings[j], decodings[k]);
            assert(same_first_signature(decoded_in(texts[j], format), decoded_in(texts[k], format)));
        }
    }
}

/// The same transaction twice is too much: a list with two equal texts is refused.
pub proof fn law_repeated_transaction_is_refused(
    texts: Seq<Seq<char>>,
    format: TextFormat,
    i: int,
    j: int,
)
    requires
        !is_unsigned_bundle(texts, format),
        0 <= i < j < texts.len(),
        texts[i] == texts[j],
    ensures
        bundle_verdict(texts, format) is Err,
{
    law_bundle_is_accepted_iff(texts, format);
    if bundle_verdict(texts, format) is Ok {
        assert(is_signed(decoded_in(texts[i], format)));
        assert(same_first_signature(decoded_in(texts[i], format), decoded_in(texts[j], format)));
    }
}

/// A text of the Base58 alphabet stands for bytes, and for no others.
pub proof fn law_base58_text_has_one_meaning(text: Seq<char>, bytes: Seq<u8>)
    requires
        is_base58_text(text),
    ensures
        base58_bytes(text) is Some,
        is_base58_of(text, bytes) <==> base58_bytes(text) == Some(bytes),
{
    lemma_base58_bytes_exist(text);
    if is_base58_of(text, bytes) {
        lemma_base58_bytes(text, bytes);
    }
}

/// The Base58 text of a serialized transaction is read as that transaction, as Base58 and where
/// either encoding will do.
pub proof fn law_base58_round_trip(wire: Seq<u8>, text: Seq<char>)
    requires
        is_base58_of(text, wire),
        deserialized(wire) is Ok,
    ensures
        ({
            let read = Ok::<DecodedTransactionView, ErrorView>(
                DecodedTransactionView { wire, signatures: deserialized(wire)->Ok_0 },
            );
            &&& decoded_as(text, TransactionBinaryEncoding::Base58) == read
            &&& decoded(text) == read
        }),
{
    lemma_base58_bytes(text, wire);
}

/// The Base64 text of a serialized transaction is read as that transaction, as Base64 and, unless
/// it happens to be the Base58 text of another one, where either encoding will do.
pub proof fn law_base64_round_trip(wire: Seq<u8>)
    requires
        deserialized(wire) is Ok,
    ensures
        ({
            let text = base64_text(wire);
            let read = Ok::<DecodedTransactionView, ErrorView>(
                DecodedTransactionView { wire, signatures: deserialized(wire)->Ok_0 },
            );
            &&& decoded_as(text, TransactionBinaryEncoding::Base64) == read
            &&& decoded_as(text, TransactionBinaryEncoding::Base58) is Err ==> decoded(text) == read
        }),
{
    lemma_base64_bytes(wire);
}

spec fn comma_free(text: Seq<char>) -> bool {
    forall|i: int| 0 <= i < text.len() ==> #[trigger] text[i] != ','
}

/// Texts without commas can be told apart again once commas separate them.
proof fn lemma_comma_separated_injective(a: Seq<Seq<char>>, b: Seq<Seq<char>>)
    requires
        a.len() > 0,
        b.len() > 0,
        forall|i: int| 0 <= i < a.len() ==> comma_free(#[trigger] a[i]),
        forall|i: int| 0 <= i < b.len() ==> comma_free(#[trigger] b[i]),
        comma_separated(a) == comma_separated(b),
    ensures
        a == b,
    decreases a.len(),
{
    reveal_strlit(",");
    let s = comma_separated(a);
    let x = a.last();
    let y = b.last();
    assert(comma_free(x) && comma_free(y));
    let p = s.len() - x.len() - 1;
    let q = s.len() - y.len() - 1;
    if a.len() > 1 {
        assert(s[p] == ',');
        assert(comma_separated(a.drop_last()) =~= s.take(p));
        assert(forall|i: int| p < i < s.len() ==> s[i] == x[i - p - 1]);
    } else {
        assert(p == -1);
        assert(forall|i: int| p < i < s.len() ==> s[i] == x[i - p - 1]);
    }
    if b.len() > 1 {
        assert(s[q] == ',');
        assert(comma_separated(b.drop_last()) =~= s.take(q));
        assert(forall|i: int| q < i < s.len() ==> s[i] == y[i - q - 1]);
    } else {
        assert(q == -1);
        assert(forall|i: int| q < i < s.len() ==> s[i] == y[i - q - 1]);
    }
    if p < q {
        assert(s[q] == x[q - p - 1]);
    }
    if q < p {
        assert(s[p] == y[p - q - 1]);
    }
    assert(p == q);
    assert(x =~= y) by {
        assert forall|i: int| 0 <= i < x.len() implies x[i] == y[i] by {
            assert(s[i + p + 1] == x[i]);
            assert(s[i + p + 1] == y[i]);
        }
    }
    if a.len() > 1 {
        assert(b.len() > 1);
        assert forall|i: int| 0 <= i < a.drop_last().len() implies comma_free(
            #[trigger] a.drop_last()[i],
        ) by {
            assert(a.drop_last()[i] == a[i]);
        }
        assert forall|i: int| 0 <= i < b.drop_last().len() implies comma_free(
            #[trigger] b.drop_last()[i],
        ) by {
            assert(b.drop_last()[i] == b[i]);
        }
        lemma_comma_separated_injective(a.drop_last(), b.drop_last());
        assert(a =~= a.drop_last().push(x));
        assert(b =~= b.drop_last().push(y));
    } else {
        assert(b.len() == 1);
        assert(a =~= seq![x]);
        assert(b =~= seq![y]);
    }
}

/// Whether every signature has the length that signatures have.
pub open spec fn are_signatures(signatures: Seq<Seq<u8>>) -> bool {
    forall|i: int| 0 <= i < signatures.len() ==> (#[trigger] signatures[i]).len() == 64
}

/// Bundles with different signatures, or with the same ones in another order, have different
/// signature lines: what is hashed into a bundle ID tells its signatures.
pub proof fn law_signature_line_tells_the_signatures(a: Seq<Seq<u8>>, b: Seq<Seq<u8>>)
    requires
        are_signatures(a),
        are_signatures(b),
        signature_line(a) == signature_line(b),
    ensures
        a == b,
{
    let s = signature_texts(a);
    let t = signature_texts(b);
    if a.len() == 0 || b.len() == 0 {
        if a.len() > 0 {
            lemma_signature_line_nonempty(a);
        }
        if b.len() > 0 {
            lemma_signature_line_nonempty(b);
        }
        assert(a =~= b);
    } else {
        assert forall|i: int| 0 <= i < s.len() implies comma_free(#[trigger] s[i]) by {
            lemma_signature_text(a[i]);
        }
        assert forall|i: int| 0 <= i < t.len() implies comma_free(#[trigger] t[i]) by {
            lemma_signature_text(b[i]);
        }
        lemma_comma_separated_injective(s, t);
        assert(a.len() == s.len() && b.len() == t.len());
        assert forall|i: int| 0 <= i < a.len() implies a[i] == b[i] by {
            lemma_signature_text(a[i]);
            lemma_signature_text(b[i]);
            assert(s[i] == t[i]);
            lemma_base58_bytes_unique(s[i], a[i], b[i]);
        }
        assert(a =~= b);
    }
}

/// Bundles have the same ID exactly if they have the same signatures in the same order, unless
/// SHA-256 has the same digest for two different signature lines.
pub proof fn law_bundle_id_tells_the_signatures(a: Seq<Seq<u8>>, b: Seq<Seq<u8>>)
    requires
        are_signatures(a),
        are_signatures(b),
        sha256_digest(encode_utf8(signature_line(a))) == sha256_digest(
            encode_utf8(signature_line(b)),
        ) ==> encode_utf8(signature_line(a)) == encode_utf8(signature_line(b)),
    ensures
        bundle_id(a) == bundle_id(b) <==> a == b,
{
    if bundle_id(a) == bundle_id(b) {
        lemma_hex_text_injective(
            sha256_digest(encode_utf8(signature_line(a))),
            sha256_digest(encode_utf8(signature_line(b))),
        );
        encode_utf8_decode_utf8(signature_line(a));
        encode_utf8_decode_utf8(signature_line(b));
        law_signature_line_tells_the_signatures(a, b);
    }
}

/// The line of a list that is not empty is not empty.
proof fn lemma_signature_line_nonempty(signatures: Seq<Seq<u8>>)
    requires
        signatures.len() > 0,
        are_signatures(signatures),
    ensures
        signature_line(signatures).len() > 0,
{
    let texts = signature_texts(signatures);
    let last = signatures.last();
    assert(texts.last() == signature_text(last));
    lemma_signature_text(last);
    if texts.last().len() == 0 {
        let empty = Seq::<u8>::empty();
        assert(text_digits(texts.last()) =~= Seq::empty());
        assert(byte_digits(empty) =~= Seq::empty());
        assert(is_base58_of(texts.last(), empty));
        lemma_base58_bytes_unique(texts.last(), last, empty);
    }
}

proof fn lemma_signature_text(signature: Seq<u8>)
    ensures
        is_base58_of(signature_text(signature), signature),
        comma_free(signature_text(signature)),
{
    lemma_base58_text_exists(signature);
    let text = signature_text(signature);
    assert forall|i: int| 0 <= i < text.len() implies #[trigger] text[i] != ',' by {
        assert(base58_digit(text[i]) is Some);
    }
}

} // verus!
