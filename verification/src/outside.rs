//! The calls into other crates, each with what its crate says of it.
use vstd::prelude::*;

use base64::Engine;
use sha2::Digest;

use crate::base58::{is_base58_of, is_base58_text};
use crate::base64::base64_text;
use crate::hex_text::hex_text;
use crate::signature::{signature_views, Signature};

verus! {

/// How `bs58` words its complaint about a text outside the Base58 alphabet.
pub uninterp spec fn base58_error(text: Seq<char>) -> Seq<char>;

/// `bs58::decode` with the default alphabet, then `into_vec`. A text within the alphabet
/// decodes, to the bytes that it is the Base58 form of. Any other text is refused, and the
/// refusal, written with `{:?}`, depends on the text alone.
#[verifier::external_body]
pub(crate) fn base58_decode(text: &str) -> (r: Result<Vec<u8>, String>)
    ensures
        r is Ok <==> is_base58_text(text@),
        r matches Ok(bytes) ==> is_base58_of(text@, bytes@),
        r matches Err(error) ==> error@ == base58_error(text@),
{
    match bs58::decode(text).into_vec() {
        Ok(bytes) => Ok(bytes),
        Err(error) => Err(format!("{error:?}")),
    }
}

/// How `base64` words its complaint about a text that is the Base64 form of no bytes.
pub uninterp spec fn base64_error(text: Seq<char>) -> Seq<char>;

/// `Engine::decode` of `base64`'s `STANDARD` engine, which wants padding and wants the bits
/// that fill up the last group to be zero. So a text decodes exactly where some bytes have it
/// as their Base64 form, and it decodes to those bytes. The refusal of any other text, written
/// with `{:?}`, depends on the text alone.
#[verifier::external_body]
pub(crate) fn base64_decode(text: &str) -> (r: Result<Vec<u8>, String>)
    ensures
        r matches Ok(bytes) ==> text@ == base64_text(bytes@),
        r matches Err(error) ==> {
            &&& forall|bytes: Seq<u8>| text@ != #[trigger] base64_text(bytes)
            &&& error@ == base64_error(text@)
        },
{
    match base64::engine::general_purpose::STANDARD.decode(text) {
        Ok(bytes) => Ok(bytes),
        Err(error) => Err(format!("{error:?}")),
    }
}

/// What `bincode` reads out of some bytes as a transaction: the transaction's signatures, or
/// how it words its complaint.
pub uninterp spec fn deserialized(bytes: Seq<u8>) -> Result<Seq<Seq<u8>>, Seq<char>>;

/// `bincode::deserialize` to a `VersionedTransaction`, of which the list of signatures is kept.
/// Both what it reads and its error message depend on the bytes alone.
#[verifier::external_body]
pub(crate) fn deserialize_transaction(bytes: &[u8]) -> (r: Result<Vec<Signature>, String>)
    ensures
        match r {
            Ok(signatures) => deserialized(bytes@) == Ok::<Seq<Seq<u8>>, Seq<char>>(
                signature_views(signatures@),
            ),
            Err(error) => deserialized(bytes@) == Err::<Seq<Seq<u8>>, Seq<char>>(error@),
        },
{
    match bincode::deserialize::<solana_transaction::versioned::VersionedTransaction>(bytes) {
        Ok(tx) => Ok(tx.signatures.into_iter().map(|s| Signature { bytes: s.into() }).collect()),
        Err(error) => Err(error.to_string()),
    }
}

/// `to_string` of a `solana_signature::Signature`, which is its Base58 form.
#[verifier::external_body]
pub(crate) fn signature_to_string(signature: &Signature) -> (r: String)
    ensures
        is_base58_of(r@, signature@),
{
    solana_signature::Signature::from(signature.bytes).to_string()
}

/// The SHA-256 digest of some bytes.
pub uninterp spec fn sha256_digest(bytes: Seq<u8>) -> Seq<u8>;

/// `Sha256::digest` of `sha2`: the digest, which is 32 bytes long.
#[verifier::external_body]
pub(crate) fn sha256(bytes: &[u8]) -> (r: Vec<u8>)
    ensures
        r@ == sha256_digest(bytes@),
        r@.len() == 32,
{
    sha2::Sha256::digest(bytes).to_vec()
}

/// `hex::encode`: lower-case hexadecimal, two digits for each byte. A text longer than memory
/// can hold is left out.
#[verifier::external_body]
pub(crate) fn hex_encode(bytes: &[u8]) -> (r: String)
    requires
        2 * bytes@.len() <= isize::MAX,
    ensures
        r@ == hex_text(bytes@),
{
    hex::encode(bytes)
}

} // verus!
