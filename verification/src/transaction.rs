//! Transactions as clients send them: serialized, then written as text.
use vstd::prelude::*;

use crate::base58::{base58_bytes, lemma_base58_bytes};
use crate::base64::{base64_bytes, lemma_base64_bytes};
use crate::error::{invalid_params_view, Error, ErrorView};
use crate::outside::{
    base58_decode, base58_error, base64_decode, base64_error, deserialize_transaction,
    deserialized,
};
use crate::signature::{signature_views, Signature};

verus! {

/// How the bytes of a transaction are written as text.
#[derive(Clone, Copy, Debug, PartialEq, Eq, Structural)]
pub enum TransactionBinaryEncoding {
    Base58,
    Base64,
}

/// How the text of a transaction is read.
#[derive(Clone, Copy, Debug, PartialEq, Eq, Structural)]
pub enum TextFormat {
    /// In this encoding and no other.
    Only(TransactionBinaryEncoding),
    /// As Base58 if that gives a transaction, else as Base64.
    Base58OrBase64,
}

/// A transaction that was read from its text: its bytes, and the signatures in them.
#[derive(Clone, Debug)]
pub struct DecodedTransaction {
    pub wire: Vec<u8>,
    pub signatures: Vec<Signature>,
}

pub ghost struct DecodedTransactionView {
    pub wire: Seq<u8>,
    pub signatures: Seq<Seq<u8>>,
}

impl View for DecodedTransaction {
    type V = DecodedTransactionView;

    open spec fn view(&self) -> DecodedTransactionView {
        DecodedTransactionView {
            wire: self.wire@,
            signatures: signature_views(self.signatures@),
        }
    }
}

/// The transactions of a list.
pub open spec fn transaction_views(transactions: Seq<DecodedTransaction>) -> Seq<
    DecodedTransactionView,
> {
    transactions.map_values(|transaction: DecodedTransaction| transaction@)
}

/// What comes of reading a transaction.
pub open spec fn decoding_view(decoding: Result<DecodedTransaction, Error>) -> Result<
    DecodedTransactionView,
    ErrorView,
> {
    match decoding {
        Ok(transaction) => Ok(transaction@),
        Err(error) => Err(error@),
    }
}

/// The reply to a text that does not keep to its encoding.
pub open spec fn invalid_encoding_view(
    encoding: TransactionBinaryEncoding,
    complaint: Seq<char>,
) -> ErrorView {
    match encoding {
        TransactionBinaryEncoding::Base58 => invalid_params_view(
            "invalid base58 encoding: "@ + complaint,
        ),
        TransactionBinaryEncoding::Base64 => invalid_params_view(
            "invalid base64 encoding: "@ + complaint,
        ),
    }
}

/// The transaction with these bytes, given what was read out of them: its signatures, or a
/// complaint.
pub open spec fn transaction_of(
    wire: Seq<u8>,
    read: Result<Seq<Seq<u8>>, Seq<char>>,
) -> Result<DecodedTransactionView, ErrorView> {
    match read {
        Ok(signatures) => Ok(DecodedTransactionView { wire, signatures }),
        Err(complaint) => Err(
            invalid_params_view(
                "failed to deserialize solana_transaction::versioned::VersionedTransaction: "@
                    + complaint,
            ),
        ),
    }
}

/// The bytes that `text` stands for in `encoding`, or the reply that refuses it.
pub open spec fn wire_of(text: Seq<char>, encoding: TransactionBinaryEncoding) -> Result<
    Seq<u8>,
    ErrorView,
> {
    match encoding {
        TransactionBinaryEncoding::Base58 => match base58_bytes(text) {
            Some(bytes) => Ok(bytes),
            None => Err(invalid_encoding_view(encoding, base58_error(text))),
        },
        TransactionBinaryEncoding::Base64 => match base64_bytes(text) {
            Some(bytes) => Ok(bytes),
            None => Err(invalid_encoding_view(encoding, base64_error(text))),
        },
    }
}

/// The transaction that `text` stands for in `encoding`, or the reply that refuses it.
pub open spec fn decoded_as(text: Seq<char>, encoding: TransactionBinaryEncoding) -> Result<
    DecodedTransactionView,
    ErrorView,
> {
    match wire_of(text, encoding) {
        Ok(wire) => transaction_of(wire, deserialized(wire)),
        Err(error) => Err(error),
    }
}

/// The transaction that `text` stands for: read as Base58 if that gives a transaction, else as
/// Base64.
pub open spec fn decoded(text: Seq<char>) -> Result<DecodedTransactionView, ErrorView> {
    match decoded_as(text, TransactionBinaryEncoding::Base58) {
        Ok(transaction) => Ok(transaction),
        Err(_) => decoded_as(text, TransactionBinaryEncoding::Base64),
    }
}

/// The transaction that `text` stands for in `format`, or the reply that refuses it.
pub open spec fn decoded_in(text: Seq<char>, format: TextFormat) -> Result<
    DecodedTransactionView,
    ErrorView,
> {
    match format {
        TextFormat::Only(encoding) => decoded_as(text, encoding),
        TextFormat::Base58OrBase64 => decoded(text),
    }
}

/// The reply to a text that does not keep to its encoding.
pub fn invalid_encoding(encoding: TransactionBinaryEncoding, complaint: &str) -> (r: Error)
    ensures
        r@ == invalid_encoding_view(encoding, complaint@),
{
    let mut message: String = match encoding {
        TransactionBinaryEncoding::Base58 => "invalid base58 encoding: ".to_string(),
        TransactionBinaryEncoding::Base64 => "invalid base64 encoding: ".to_string(),
    };
    message.append(complaint);
    Error::invalid_params(message)
}

/// The transaction with these bytes, given what was read out of them.
pub fn transaction_from(wire: Vec<u8>, read: Result<Vec<Signature>, String>) -> (r: Result<
    DecodedTransaction,
    Error,
>)
    ensures
        decoding_view(r) == transaction_of(
            wire@,
            match read {
                Ok(signatures) => Ok(signature_views(signatures@)),
                Err(complaint) => Err(complaint@),
            },
        ),
{
    match read {
        Ok(signatures) => Ok(DecodedTransaction { wire, signatures }),
        Err(complaint) => {
            let mut message =
                "failed to deserialize solana_transaction::versioned::VersionedTransaction: ".to_string();
            message.append(complaint.as_str());
            Err(Error::invalid_params(message))
        },
    }
}

/// Reads the bytes that `encoded` stands for in `encoding`.
fn decode_wire(encoded: &str, encoding: TransactionBinaryEncoding) -> (r: Result<Vec<u8>, Error>)
    ensures
        match r {
            Ok(wire) => wire_of(encoded@, encoding) == Ok::<Seq<u8>, ErrorView>(wire@),
            Err(error) => wire_of(encoded@, encoding) == Err::<Seq<u8>, ErrorView>(error@),
        },
{
    let decoding: Result<Vec<u8>, String> = match encoding {
        TransactionBinaryEncoding::Base58 => base58_decode(encoded),
        TransactionBinaryEncoding::Base64 => base64_decode(encoded),
    };
    match decoding {
        Ok(wire) => {
            proof {
                match encoding {
                    TransactionBinaryEncoding::Base58 => lemma_base58_bytes(encoded@, wire@),
                    TransactionBinaryEncoding::Base64 => lemma_base64_bytes(wire@),
                }
            }
            Ok(wire)
        },
        Err(complaint) => Err(invalid_encoding(encoding, complaint.as_str())),
    }
}

/// Reads a transaction from its text in the given encoding.
pub fn decode_and_deserialize(encoded: &str, encoding: TransactionBinaryEncoding) -> (r: Result<
    DecodedTransaction,
    Error,
>)
    ensures
        decoding_view(r) == decoded_as(encoded@, encoding),
{
    match decode_wire(encoded, encoding) {
        Ok(wire) => {
            let read = deserialize_transaction(wire.as_slice());
            transaction_from(wire, read)
        },
        Err(error) => Err(error),
    }
}

/// Reads a transaction from its text: as Base58 first, and as Base64 where that fails.
pub fn decode_transaction(encoded: &str) -> (r: Result<DecodedTransaction, Error>)
    ensures
        decoding_view(r) == decoded(encoded@),
{
    match decode_and_deserialize(encoded, TransactionBinaryEncoding::Base58) {
        Ok(transaction) => Ok(transaction),
        Err(_) => decode_and_deserialize(encoded, TransactionBinaryEncoding::Base64),
    }
}

/// Reads a transaction from its text in the given format.
pub fn decode_text(encoded: &str, format: TextFormat) -> (r: Result<DecodedTransaction, Error>)
    ensures
        decoding_view(r) == decoded_in(encoded@, format),
{
    match format {
        TextFormat::Only(encoding) => decode_and_deserialize(encoded, encoding),
        TextFormat::Base58OrBase64 => decode_transaction(encoded),
    }
}

} // verus!
