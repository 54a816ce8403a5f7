//! Bundles: which lists of transactions are accepted as one, and what a bundle is called.
use vstd::prelude::*;
use vstd::utf8::encode_utf8;

use crate::base58::{is_base58_of, lemma_base58_text_unique};
use crate::decimal::{append_decimal, decimal};
use crate::error::{error_line, invalid_params_view, lines, Error, ErrorView};
use crate::hex_text::hex_text;
use crate::outside::{hex_encode, sha256, sha256_digest, signature_to_string};
use crate::signature::{signature_views, Signature};
use crate::transaction::{
    decode_text, decoded_in, decoding_view, transaction_views, DecodedTransaction,
    DecodedTransactionView, TextFormat,
};

verus! {

/// The largest number of transactions in a bundle.
pub const MAX_TRANSACTIONS_PER_BUNDLE: usize = 5;

/// What can be wrong with one transaction of a bundle.
pub ghost enum FaultView {
    /// Its text stands for no transaction.
    Undecodable(ErrorView),
    /// It has no signature at all, so nothing tells it from other transactions.
    Unsigned,
    /// An earlier transaction has the same first signature.
    Duplicate,
}

/// Whether there is a transaction, with at least one signature.
pub open spec fn is_signed(decoding: Result<DecodedTransactionView, ErrorView>) -> bool {
    decoding matches Ok(transaction) && transaction.signatures.len() > 0
}

/// Whether there are two transactions, with the same first signature.
pub open spec fn same_first_signature(
    a: Result<DecodedTransactionView, ErrorView>,
    b: Result<DecodedTransactionView, ErrorView>,
) -> bool {
    is_signed(a) && is_signed(b) && a->Ok_0.signatures[0] == b->Ok_0.signatures[0]
}

/// What is wrong with the transaction at `i`, if anything is.
pub open spec fn fault_at(
    decodings: Seq<Result<DecodedTransactionView, ErrorView>>,
    i: int,
) -> Option<FaultView> {
    match decodings[i] {
        Err(error) => Some(FaultView::Undecodable(error)),
        Ok(transaction) => if transaction.signatures.len() == 0 {
            Some(FaultView::Unsigned)
        } else if exists|j: int|
            0 <= j < i && same_first_signature(#[trigger] decodings[j], decodings[i]) {
            Some(FaultView::Duplicate)
        } else {
            None
        },
    }
}

/// The first transaction at or behind `from` with something wrong.
pub open spec fn first_fault(
    decodings: Seq<Result<DecodedTransactionView, ErrorView>>,
    from: int,
) -> Option<int>
    decreases decodings.len() - from,
{
    if from >= decodings.len() {
        None
    } else if fault_at(decodings, from) is Some {
        Some(from)
    } else {
        first_fault(decodings, from + 1)
    }
}

/// Whether the first thing wrong is a transaction without signatures.
pub open spec fn is_unsigned(decodings: Seq<Result<DecodedTransactionView, ErrorView>>) -> bool {
    first_fault(decodings, 0) matches Some(i) && fault_at(decodings, i) == Some(
        FaultView::Unsigned,
    )
}

/// The reply to a list whose transaction at `i` cannot be read.
pub open spec fn undecodable_view(i: int, error: ErrorView) -> ErrorView {
    invalid_params_view(
        "Failed to decode transaction "@ + decimal(i as nat) + ": "@ + error_line(error),
    )
}

/// The reply to a list whose transaction at `i` was there before.
pub open spec fn duplicate_view(i: int) -> ErrorView {
    invalid_params_view("Bundle contains duplicate transaction at index "@ + decimal(i as nat))
}

/// The transactions of a list, or the reply that refuses it. Of several things wrong the first
/// counts. There is no reply where that is a transaction without signatures.
pub open spec fn validity(decodings: Seq<Result<DecodedTransactionView, ErrorView>>) -> Result<
    Seq<DecodedTransactionView>,
    ErrorView,
>
    recommends
        !is_unsigned(decodings),
{
    match first_fault(decodings, 0) {
        None => Ok(Seq::new(decodings.len(), |i: int| decodings[i]->Ok_0)),
        Some(i) => match fault_at(decodings, i) {
            Some(FaultView::Undecodable(error)) => Err(undecodable_view(i, error)),
            Some(FaultView::Duplicate) => Err(duplicate_view(i)),
            _ => arbitrary(),
        },
    }
}

/// Whether a list has a size that a bundle may have.
pub open spec fn is_bundle_size(len: nat) -> bool {
    1 <= len <= MAX_TRANSACTIONS_PER_BUNDLE
}

/// The reply to a list of this size, if the size alone is wrong.
pub open spec fn size_error(len: nat) -> Option<ErrorView> {
    if len == 0 {
        Some(invalid_params_view("Bundle cannot be empty"@))
    } else if len > MAX_TRANSACTIONS_PER_BUNDLE {
        Some(
            invalid_params_view(
                "Bundle cannot exceed "@ + decimal(MAX_TRANSACTIONS_PER_BUNDLE as nat)
                    + " transactions, got "@ + decimal(len),
            ),
        )
    } else {
        None
    }
}

/// What comes of reading each text.
pub open spec fn decoded_all(texts: Seq<Seq<char>>, format: TextFormat) -> Seq<
    Result<DecodedTransactionView, ErrorView>,
> {
    texts.map_values(|text: Seq<char>| decoded_in(text, format))
}

/// Whether the first thing wrong with a list of texts is a transaction without signatures.
pub open spec fn is_unsigned_bundle(texts: Seq<Seq<char>>, format: TextFormat) -> bool {
    is_bundle_size(texts.len()) && is_unsigned(decoded_all(texts, format))
}

/// The transactions of a list of texts, or the reply that refuses it.
pub open spec fn bundle_verdict(texts: Seq<Seq<char>>, format: TextFormat) -> Result<
    Seq<DecodedTransactionView>,
    ErrorView,
>
    recommends
        !is_unsigned_bundle(texts, format),
{
    match size_error(texts.len()) {
        Some(error) => Err(error),
        None => validity(decoded_all(texts, format)),
    }
}

/// What comes of reading a list.
pub open spec fn decoding_views(decodings: Seq<Result<DecodedTransaction, Error>>) -> Seq<
    Result<DecodedTransactionView, ErrorView>,
> {
    decodings.map_values(|decoding: Result<DecodedTransaction, Error>| decoding_view(decoding))
}

/// The transactions of a list, or the reply that refuses it.
pub open spec fn verdict_view(verdict: Result<Vec<DecodedTransaction>, Error>) -> Result<
    Seq<DecodedTransactionView>,
    ErrorView,
> {
    match verdict {
        Ok(transactions) => Ok(transaction_views(transactions@)),
        Err(error) => Err(error@),
    }
}

/// What [`first_fault`] finds: nothing wrong before it, and something at it.
pub proof fn lemma_first_fault(
    decodings: Seq<Result<DecodedTransactionView, ErrorView>>,
    from: int,
)
    requires
        0 <= from <= decodings.len(),
    ensures
        match first_fault(decodings, from) {
            None => forall|i: int| from <= i < decodings.len() ==> fault_at(decodings, i) is None,
            Some(k) => {
                &&& from <= k < decodings.len()
                &&& fault_at(decodings, k) is Some
                &&& forall|i: int| from <= i < k ==> fault_at(decodings, i) is None
            },
        },
    decreases decodings.len() - from,
{
    if from < decodings.len() && fault_at(decodings, from) is None {
        lemma_first_fault(decodings, from + 1);
    }
}

/// An accepted bundle has one to five transactions, those that the texts stand for, in order.
/// Each has a signature, and no two have the same first one.
pub proof fn law_accepted_bundle(texts: Seq<Seq<char>>, format: TextFormat)
    requires
        !is_unsigned_bundle(texts, format),
    ensures
        bundle_verdict(texts, format) matches Ok(transactions) ==> {
            &&& is_bundle_size(transactions.len())
            &&& transactions.len() == texts.len()
            &&& forall|i: int|
                0 <= i < texts.len() ==> decoded_in(#[trigger] texts[i], format) == Ok::<
                    DecodedTransactionView,
                    ErrorView,
                >(transactions[i])
            &&& forall|i: int|
                0 <= i < transactions.len() ==> #[trigger] transactions[i].signatures.len() > 0
            &&& forall|i: int, j: int|
                0 <= i < j < transactions.len() ==> #[trigger] transactions[i].signatures[0]
                    != #[trigger] transactions[j].signatures[0]
        },
{
    let decodings = decoded_all(texts, format);
    lemma_first_fault(decodings, 0);
    if bundle_verdict(texts, format) is Ok {
        let transactions = bundle_verdict(texts, format)->Ok_0;
        assert forall|i: int| 0 <= i < texts.len() implies {
            &&& is_signed(decodings[i])
            &&& decoded_in(#[trigger] texts[i], format) == Ok::<DecodedTransactionView, ErrorView>(
                transactions[i],
            )
        } by {
            assert(fault_at(decodings, i) is None);
        }
        assert forall|i: int| 0 <= i < transactions.len() implies #[trigger] transactions[
            i
        ].signatures.len() > 0 by {
            assert(decoded_in(texts[i], format) == decodings[i]);
        }
        assert forall|i: int, j: int| 0 <= i < j < transactions.len() implies #[trigger]
        transactions[i].signatures[0] != #[trigger] transactions[j].signatures[0] by {
            assert(fault_at(decodings, j) is None);
            assert(decoded_in(texts[i], format) == decodings[i] && decoded_in(texts[j], format) == decodings[j]);
            assert(!same_first_signature(decodings[i], decodings[j]));
        }
    }
}

/// The first thing wrong with a list.
enum Fault {
    Undecodable(usize, Error),
    Unsigned,
    Duplicate(usize),
}

spec fn is_first_fault(
    decodings: Seq<Result<DecodedTransactionView, ErrorView>>,
    fault: Fault,
) -> bool {
    match fault {
        Fault::Undecodable(i, error) => {
            &&& first_fault(decodings, 0) == Some(i as int)
            &&& fault_at(decodings, i as int) == Some(FaultView::Undecodable(error@))
        },
        Fault::Unsigned => is_unsigned(decodings),
        Fault::Duplicate(i) => {
            &&& first_fault(decodings, 0) == Some(i as int)
            &&& fault_at(decodings, i as int) == Some(FaultView::Duplicate)
        },
    }
}

/// Whether a signature opens one of the transactions.
fn is_seen(transactions: &Vec<DecodedTransaction>, signature: &Signature) -> (r: bool)
    requires
        forall|j: int|
            0 <= j < transactions@.len() ==> #[trigger] transactions@[j].signatures@.len() > 0,
    ensures
        r == exists|j: int|
            0 <= j < transactions@.len() && #[trigger] transactions@[j].signatures@[0]@
                == signature@,
{
    let mut j: usize = 0;
    while j < transactions.len()
        invariant
            j <= transactions@.len(),
            forall|k: int|
                0 <= k < transactions@.len() ==> #[trigger] transactions@[k].signatures@.len() > 0,
            forall|k: int|
                0 <= k < j ==> #[trigger] transactions@[k].signatures@[0]@ != signature@,
        decreases transactions@.len() - j,
    {
        if transactions[j].signatures[0].same_as(signature) {
            assert(transactions@[j as int].signatures@[0]@ == signature@);
            return true;
        }
        j = j + 1;
    }
    false
}

/// Goes through a list in order, up to the first thing wrong.
fn screen(decodings: Vec<Result<DecodedTransaction, Error>>) -> (r: Result<
    Vec<DecodedTransaction>,
    Fault,
>)
    ensures
        match r {
            Ok(transactions) => {
                &&& first_fault(decoding_views(decodings@), 0) is None
                &&& validity(decoding_views(decodings@)) == Ok::<
                    Seq<DecodedTransactionView>,
                    ErrorView,
                >(transaction_views(transactions@))
            },
            Err(fault) => is_first_fault(decoding_views(decodings@), fault),
        },
{
    let ghost views = decoding_views(decodings@);
    let ghost all = decodings@;
    let mut rest = decodings;
    assert(all.skip(0) =~= all);
    let mut transactions: Vec<DecodedTransaction> = Vec::new();
    let n: usize = rest.len();
    let mut i: usize = 0;
    while i < n
        invariant
            all == decodings@,
            views == decoding_views(all),
            i <= n,
            n == all.len(),
            rest@ == all.skip(i as int),
            transactions@.len() == i,
            forall|j: int|
                0 <= j < i ==> views[j] == Ok::<DecodedTransactionView, ErrorView>(
                    (#[trigger] transactions@[j])@,
                ),
            forall|j: int|
                0 <= j < i ==> #[trigger] transactions@[j].signatures@.len() > 0,
            first_fault(views, 0) == first_fault(views, i as int),
        decreases n - i,
    {
        assert(rest@.remove(0) =~= all.skip(i + 1));
        match rest.remove(0) {
            Err(error) => {
                assert(views[i as int] == Err::<DecodedTransactionView, ErrorView>(error@));
                return Err(Fault::Undecodable(i, error));
            },
            Ok(transaction) => {
                assert(views[i as int] == Ok::<DecodedTransactionView, ErrorView>(transaction@));
                assert(transaction@.signatures.len() == transaction.signatures@.len());
                if transaction.signatures.len() == 0 {
                    return Err(Fault::Unsigned);
                }
                let signature: Signature = transaction.signatures[0];
                assert(transaction@.signatures[0] == signature@);
                assert forall|j: int| 0 <= j < i implies {
                    &&& is_signed(#[trigger] views[j])
                    &&& views[j]->Ok_0.signatures[0] == transactions@[j].signatures@[0]@
                } by {
                    assert(transactions@[j].signatures@.len() > 0);
                    assert(views[j]->Ok_0 == transactions@[j]@);
                }
                if is_seen(&transactions, &signature) {
                    proof {
                        let j = choose|j: int|
                            0 <= j < transactions@.len()
                                && #[trigger] transactions@[j].signatures@[0]@ == signature@;
                        assert(same_first_signature(views[j], views[i as int]));
                    }
                    return Err(Fault::Duplicate(i));
                }
                assert(fault_at(views, i as int) is None) by {
                    if exists|j: int|
                        0 <= j < i && same_first_signature(#[trigger] views[j], views[i as int]) {
                        let j = choose|j: int|
                            0 <= j < i && same_first_signature(
                                #[trigger] views[j],
                                views[i as int],
                            );
                        assert(transactions@[j].signatures@[0]@ == signature@);
                    }
                }
                transactions.push(transaction);
            },
        }
        i = i + 1;
    }
    proof {
        let accepted = Seq::new(views.len(), |j: int| views[j]->Ok_0);
        assert forall|j: int| 0 <= j < transactions@.len() implies transaction_views(
            transactions@,
        )[j] == accepted[j] by {
            assert(views[j]->Ok_0 == transactions@[j]@);
        }
        assert(transaction_views(transactions@) =~= accepted);
    }
    Ok(transactions)
}

/// The transactions of a list that was read, or the reply that refuses it: some transaction
/// failed to decode, or opens with the signature of an earlier one.
pub fn validate_decoded(decodings: Vec<Result<DecodedTransaction, Error>>) -> (r: Result<
    Vec<DecodedTransaction>,
    Error,
>)
    requires
        !is_unsigned(decoding_views(decodings@)),
    ensures
        verdict_view(r) == validity(decoding_views(decodings@)),
{
    match screen(decodings) {
        Ok(transactions) => Ok(transactions),
        Err(Fault::Undecodable(i, error)) => {
            let mut message = "Failed to decode transaction ".to_string();
            append_decimal(&mut message, i);
            message.append(": ");
            message.append(error.line().as_str());
            Err(Error::invalid_params(message))
        },
        Err(Fault::Duplicate(i)) => {
            let mut message = "Bundle contains duplicate transaction at index ".to_string();
            append_decimal(&mut message, i);
            Err(Error::invalid_params(message))
        },
        Err(Fault::Unsigned) => vstd::pervasive::unreached(),
    }
}

/// Refuses a size that no bundle has.
pub fn check_bundle_size(len: usize) -> (r: Result<(), Error>)
    ensures
        match r {
            Ok(_) => size_error(len as nat) is None,
            Err(error) => size_error(len as nat) == Some(error@),
        },
{
    if len == 0 {
        return Err(Error::invalid_params("Bundle cannot be empty".to_string()));
    }
    if len > MAX_TRANSACTIONS_PER_BUNDLE {
        let mut message = "Bundle cannot exceed ".to_string();
        append_decimal(&mut message, MAX_TRANSACTIONS_PER_BUNDLE);
        message.append(" transactions, got ");
        append_decimal(&mut message, len);
        return Err(Error::invalid_params(message));
    }
    Ok(())
}

/// Reads each text.
pub fn decode_all(texts: &[String], format: TextFormat) -> (r: Vec<
    Result<DecodedTransaction, Error>,
>)
    ensures
        decoding_views(r@) == decoded_all(lines(texts@), format),
{
    let mut decodings: Vec<Result<DecodedTransaction, Error>> = Vec::new();
    let mut i: usize = 0;
    while i < texts.len()
        invariant
            i <= texts@.len(),
            decodings@.len() == i,
            forall|j: int|
                0 <= j < i ==> decoding_view(#[trigger] decodings@[j]) == decoded_in(
                    texts@[j]@,
                    format,
                ),
        decreases texts@.len() - i,
    {
        decodings.push(decode_text(texts[i].as_str(), format));
        i = i + 1;
    }
    assert(decoding_views(decodings@) =~= decoded_all(lines(texts@), format));
    decodings
}

/// Whether the first thing wrong with a list of texts is a transaction without signatures.
pub fn has_unsigned_transaction(transactions: &[String], format: TextFormat) -> (r: bool)
    ensures
        r == is_unsigned_bundle(lines(transactions@), format),
{
    if transactions.len() == 0 || transactions.len() > MAX_TRANSACTIONS_PER_BUNDLE {
        return false;
    }
    match screen(decode_all(transactions, format)) {
        Err(Fault::Unsigned) => true,
        _ => false,
    }
}

/// Reads a list of texts in the given format as a bundle.
///
/// Refuses an empty list, one that is too long, and one in which some transaction fails to
/// decode or opens with the signature of an earlier one.
pub fn decode_and_validate_bundle_in(transactions: &[String], format: TextFormat) -> (r: Result<
    Vec<DecodedTransaction>,
    Error,
>)
    requires
        !is_unsigned_bundle(lines(transactions@), format),
    ensures
        verdict_view(r) == bundle_verdict(lines(transactions@), format),
{
    match check_bundle_size(transactions.len()) {
        Ok(_) => validate_decoded(decode_all(transactions, format)),
        Err(error) => Err(error),
    }
}

/// Decode a list of encoded transaction strings into transactions, each of them as Base58 or as
/// Base64.
///
/// Refuses an empty list, one that is too long, and one in which some transaction fails to
/// decode or opens with the signature of an earlier one.
pub fn decode_and_validate_bundle(transactions: &[String]) -> (r: Result<
    Vec<DecodedTransaction>,
    Error,
>)
    requires
        !is_unsigned_bundle(lines(transactions@), TextFormat::Base58OrBase64),
    ensures
        verdict_view(r) == bundle_verdict(lines(transactions@), TextFormat::Base58OrBase64),
{
    decode_and_validate_bundle_in(transactions, TextFormat::Base58OrBase64)
}

/// [`decode_and_validate_bundle`] for any list: `None` where the first thing wrong with it is a
/// transaction without signatures.
pub fn checked_decode_and_validate_bundle(transactions: &[String]) -> (r: Option<
    Result<Vec<DecodedTransaction>, Error>,
>)
    ensures
        r is None <==> is_unsigned_bundle(lines(transactions@), TextFormat::Base58OrBase64),
        r matches Some(verdict) ==> verdict_view(verdict) == bundle_verdict(
            lines(transactions@),
            TextFormat::Base58OrBase64,
        ),
{
    if has_unsigned_transaction(transactions, TextFormat::Base58OrBase64) {
        None
    } else {
        Some(decode_and_validate_bundle(transactions))
    }
}

/// The Base58 text of a signature.
pub open spec fn signature_text(signature: Seq<u8>) -> Seq<char> {
    choose|text: Seq<char>| is_base58_of(text, signature)
}

/// The Base58 text of each signature.
pub open spec fn signature_texts(signatures: Seq<Seq<u8>>) -> Seq<Seq<char>> {
    signatures.map_values(|signature: Seq<u8>| signature_text(signature))
}

/// Texts in one line, with a comma between each two.
pub open spec fn comma_separated(texts: Seq<Seq<char>>) -> Seq<char>
    decreases texts.len(),
{
    if texts.len() == 0 {
        seq![]
    } else if texts.len() == 1 {
        texts[0]
    } else {
        comma_separated(texts.drop_last()) + ","@ + texts.last()
    }
}

/// The signatures of a bundle in one line.
pub open spec fn signature_line(signatures: Seq<Seq<u8>>) -> Seq<char> {
    comma_separated(signature_texts(signatures))
}

/// What a bundle is called: the SHA-256 digest of its signature line, in hexadecimal.
pub open spec fn bundle_id(signatures: Seq<Seq<u8>>) -> Seq<char> {
    hex_text(sha256_digest(encode_utf8(signature_line(signatures))))
}

/// Writes each signature in Base58.
pub fn write_signatures(signatures: &[Signature]) -> (r: Vec<String>)
    ensures
        lines(r@) == signature_texts(signature_views(signatures@)),
{
    let mut texts: Vec<String> = Vec::new();
    let mut i: usize = 0;
    while i < signatures.len()
        invariant
            i <= signatures@.len(),
            texts@.len() == i,
            forall|j: int| 0 <= j < i ==> (#[trigger] texts@[j])@ == signature_text(signatures@[j]@),
        decreases signatures@.len() - i,
    {
        let text = signature_to_string(&signatures[i]);
        proof {
            let signature = signatures@[i as int]@;
            lemma_base58_text_unique(text@, signature_text(signature), signature);
        }
        texts.push(text);
        i = i + 1;
    }
    assert(lines(texts@) =~= signature_texts(signature_views(signatures@)));
    texts
}

/// Puts texts in one line, with a comma between each two.
pub fn join_with_commas(texts: &[String]) -> (r: String)
    ensures
        r@ == comma_separated(lines(texts@)),
{
    let ghost views = lines(texts@);
    let mut line = String::new();
    let mut i: usize = 0;
    assert(views.take(0) =~= seq![]);
    while i < texts.len()
        invariant
            i <= texts@.len(),
            views == lines(texts@),
            line@ == comma_separated(views.take(i as int)),
        decreases texts@.len() - i,
    {
        assert(views.take(i + 1).drop_last() =~= views.take(i as int));
        if i > 0 {
            line.append(",");
        }
        line.append(texts[i].as_str());
        i = i + 1;
        assert(line@ =~= comma_separated(views.take(i as int)));
    }
    assert(views.take(texts@.len() as int) =~= views);
    line
}

/// A digest as the name of a bundle: in hexadecimal.
pub fn digest_to_id(digest: &[u8]) -> (r: String)
    requires
        2 * digest@.len() <= isize::MAX,
    ensures
        r@ == hex_text(digest@),
{
    hex_encode(digest)
}

/// Calculate bundle ID by hashing comma-separated signatures.
pub fn calculate_bundle_id(signatures: &[Signature]) -> (r: String)
    ensures
        r@ == bundle_id(signature_views(signatures@)),
        r@.len() == 64,
{
    let texts = write_signatures(signatures);
    let line = join_with_commas(texts.as_slice());
    let digest = sha256(line.as_str().as_bytes());
    digest_to_id(digest.as_slice())
}

/// The first signature of each transaction.
pub open spec fn first_signatures_view(transactions: Seq<DecodedTransactionView>) -> Seq<Seq<u8>> {
    transactions.map_values(|transaction: DecodedTransactionView| transaction.signatures[0])
}

/// The first signature of each transaction.
pub fn first_signatures(transactions: &[DecodedTransaction]) -> (r: Vec<Signature>)
    requires
        forall|i: int|
            0 <= i < transactions@.len() ==> #[trigger] transactions@[i].signatures@.len() > 0,
    ensures
        signature_views(r@) == first_signatures_view(transaction_views(transactions@)),
{
    let mut signatures: Vec<Signature> = Vec::new();
    let mut i: usize = 0;
    while i < transactions.len()
        invariant
            i <= transactions@.len(),
            signatures@.len() == i,
            forall|j: int|
                0 <= j < transactions@.len() ==> #[trigger] transactions@[j].signatures@.len() > 0,
            forall|j: int|
                0 <= j < i ==> #[trigger] signatures@[j] == transactions@[j].signatures@[0],
        decreases transactions@.len() - i,
    {
        signatures.push(transactions[i].signatures[0]);
        i = i + 1;
    }
    assert(signature_views(signatures@) =~= first_signatures_view(
        transaction_views(transactions@),
    ));
    signatures
}

} // verus!
