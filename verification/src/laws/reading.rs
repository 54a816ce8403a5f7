//! Which texts are transactions, and which transactions they are.
use vstd::prelude::*;

use crate::base58::{
    base58_bytes, is_base58_of, is_base58_text, lemma_base58_bytes, lemma_base58_bytes_exist,
};
use crate::base64::{base64_bytes, base64_text, lemma_base64_bytes};
use crate::error::{ErrorCode, ErrorView};
use crate::outside::{base58_error, base64_error, deserialized};
use crate::transaction::{
    decoded_as, decoded_in, invalid_encoding_view, transaction_of, DecodedTransactionView,
    TextFormat, TransactionBinaryEncoding,
};

verus! {

/// Whether `text` is the text of these bytes in `encoding`.
pub open spec fn spells(
    text: Seq<char>,
    encoding: TransactionBinaryEncoding,
    bytes: Seq<u8>,
) -> bool {
    match encoding {
        TransactionBinaryEncoding::Base58 => is_base58_of(text, bytes),
        TransactionBinaryEncoding::Base64 => text == base64_text(bytes),
    }
}

/// Whether `text` is the text, in `encoding`, of bytes that deserialize as this transaction.
pub open spec fn stands_for(
    text: Seq<char>,
    encoding: TransactionBinaryEncoding,
    transaction: DecodedTransactionView,
) -> bool {
    &&& spells(text, encoding, transaction.wire)
    &&& deserialized(transaction.wire) == Ok::<Seq<Seq<u8>>, Seq<char>>(transaction.signatures)
}

/// Whether `text` stands for this transaction in an encoding that `format` allows. Where both are
/// allowed, Base64 counts only for a text that stands for no transaction in Base58.
pub open spec fn stands_for_in(
    text: Seq<char>,
    format: TextFormat,
    transaction: DecodedTransactionView,
) -> bool {
    match format {
        TextFormat::Only(encoding) => stands_for(text, encoding, transaction),
        TextFormat::Base58OrBase64 => {
            ||| stands_for(text, TransactionBinaryEncoding::Base58, transaction)
            ||| {
                &&& stands_for(text, TransactionBinaryEncoding::Base64, transaction)
                &&& forall|other: DecodedTransactionView|
                    !#[trigger] stands_for(text, TransactionBinaryEncoding::Base58, other)
            }
        },
    }
}

/// The error that blames the parameters with this message.
pub open spec fn is_invalid_params(error: ErrorView, message: Seq<char>) -> bool {
    &&& error.code == ErrorCode::InvalidParams
    &&& error.message == message
    &&& error.data is None
}

/// Bytes are a transaction exactly if they deserialize as one. The transaction has the bytes and
/// the signatures that were read, and a refusal has the complaint.
pub proof fn law_bytes_are_what_was_read(wire: Seq<u8>, read: Result<Seq<Seq<u8>>, Seq<char>>)
    ensures
        transaction_of(wire, read) is Ok <==> read is Ok,
        transaction_of(wire, read) matches Ok(transaction) ==> {
            &&& transaction.wire == wire
            &&& read == Ok::<Seq<Seq<u8>>, Seq<char>>(transaction.signatures)
        },
        transaction_of(wire, read) matches Err(error) ==> is_invalid_params(
            error,
            "failed to deserialize solana_transaction::versioned::VersionedTransaction: "@
                + read->Err_0,
        ),
{
}

/// A text is read as a transaction exactly if it is the text, in the encoding, of bytes that
/// deserialize as that transaction.
pub proof fn law_text_is_read_as_what_it_stands_for(
    text: Seq<char>,
    encoding: TransactionBinaryEncoding,
    transaction: DecodedTransactionView,
)
    ensures
        decoded_as(text, encoding) == Ok::<DecodedTransactionView, ErrorView>(transaction)
            <==> stands_for(text, encoding, transaction),
{
    lemma_read(text, encoding);
    if stands_for(text, encoding, transaction) {
        lemma_spelled(text, encoding, transaction.wire);
    }
}

/// What a text that spells some bytes is read as.
proof fn lemma_spelled(text: Seq<char>, encoding: TransactionBinaryEncoding, bytes: Seq<u8>)
    requires
        spells(text, encoding, bytes),
    ensures
        decoded_as(text, encoding) == transaction_of(bytes, deserialized(bytes)),
{
    match encoding {
        TransactionBinaryEncoding::Base58 => lemma_base58_bytes(text, bytes),
        TransactionBinaryEncoding::Base64 => lemma_base64_bytes(bytes),
    }
}

/// A text that is read spells bytes that deserialize.
proof fn lemma_read(text: Seq<char>, encoding: TransactionBinaryEncoding)
    ensures
        decoded_as(text, encoding) matches Ok(transaction) ==> stands_for(
            text,
            encoding,
            transaction,
        ),
{
    match encoding {
        TransactionBinaryEncoding::Base58 => {
            if is_base58_text(text) {
                lemma_base58_bytes_exist(text);
                assert(is_base58_of(text, base58_bytes(text)->Some_0));
            }
        },
        TransactionBinaryEncoding::Base64 => {
            if base64_bytes(text) is Some {
                assert(text == base64_text(base64_bytes(text)->Some_0));
            }
        },
    }
}

/// How a text that is not read is refused: with the complaint about the text where it spells no
/// bytes in the encoding, and with the complaint about the bytes where they do not deserialize.
pub proof fn law_unreadable_text_is_refused(
    text: Seq<char>,
    encoding: TransactionBinaryEncoding,
    bytes: Seq<u8>,
)
    ensures
        spells(text, encoding, bytes) && deserialized(bytes) is Err ==> {
            &&& decoded_as(text, encoding) is Err
            &&& is_invalid_params(
                decoded_as(text, encoding)->Err_0,
                "failed to deserialize solana_transaction::versioned::VersionedTransaction: "@
                    + deserialized(bytes)->Err_0,
            )
        },
        (forall|other: Seq<u8>| !#[trigger] spells(text, encoding, other)) ==> {
            &&& decoded_as(text, encoding) is Err
            &&& is_invalid_params(
                decoded_as(text, encoding)->Err_0,
                match encoding {
                    TransactionBinaryEncoding::Base58 => "invalid base58 encoding: "@
                        + base58_error(text),
                    TransactionBinaryEncoding::Base64 => "invalid base64 encoding: "@
                        + base64_error(text),
                },
            )
        },
{
    if spells(text, encoding, bytes) {
        lemma_spelled(text, encoding, bytes);
    }
    if forall|other: Seq<u8>| !#[trigger] spells(text, encoding, other) {
        match encoding {
            TransactionBinaryEncoding::Base58 => {
                if is_base58_text(text) {
                    lemma_base58_bytes_exist(text);
                    let other = choose|other: Seq<u8>| is_base58_of(text, other);
                    assert(spells(text, encoding, other));
                }
            },
            TransactionBinaryEncoding::Base64 => {
                if exists|other: Seq<u8>| text == #[trigger] base64_text(other) {
                    let other = choose|other: Seq<u8>| text == #[trigger] base64_text(other);
                    assert(spells(text, encoding, other));
                }
            },
        }
    }
}

/// The reply to a text that does not keep to its encoding names the encoding and holds the
/// complaint.
pub proof fn law_encoding_is_named(complaint: Seq<char>)
    ensures
        is_invalid_params(
            invalid_encoding_view(TransactionBinaryEncoding::Base58, complaint),
            "invalid base58 encoding: "@ + complaint,
        ),
        is_invalid_params(
            invalid_encoding_view(TransactionBinaryEncoding::Base64, complaint),
            "invalid base64 encoding: "@ + complaint,
        ),
{
}

/// A text is read as a transaction in a format exactly if it stands for that transaction in an
/// encoding that the format allows. Where both encodings are allowed and neither gives a
/// transaction, the refusal is the one for Base64.
pub proof fn law_text_is_read_in_its_format(
    text: Seq<char>,
    format: TextFormat,
    transaction: DecodedTransactionView,
)
    ensures
        decoded_in(text, format) == Ok::<DecodedTransactionView, ErrorView>(transaction)
            <==> stands_for_in(text, format, transaction),
        decoded_in(text, format) is Err ==> decoded_in(text, format) == decoded_as(
            text,
            match format {
                TextFormat::Only(encoding) => encoding,
                TextFormat::Base58OrBase64 => TransactionBinaryEncoding::Base64,
            },
        ),
{
    let base58 = TransactionBinaryEncoding::Base58;
    let base64 = TransactionBinaryEncoding::Base64;
    match format {
        TextFormat::Only(encoding) => {
            law_text_is_read_as_what_it_stands_for(text, encoding, transaction);
        },
        TextFormat::Base58OrBase64 => {
            law_text_is_read_as_what_it_stands_for(text, base58, transaction);
            law_text_is_read_as_what_it_stands_for(text, base64, transaction);
            match decoded_as(text, base58) {
                Ok(read) => {
                    law_text_is_read_as_what_it_stands_for(text, base58, read);
                },
                Err(_) => {
                    assert forall|other: DecodedTransactionView| !#[trigger] stands_for(
                        text,
                        base58,
                        other,
                    ) by {
                        law_text_is_read_as_what_it_stands_for(text, base58, other);
                    }
                },
            }
        },
    }
}

} // verus!
