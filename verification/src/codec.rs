//! Reading event payloads: the address a metadata document claims and the
//! size of a direct message's payload.

use crate::error::HandlerError;
use crate::event::text_of;
use base64::Engine;
use vstd::prelude::*;

verus! {

/// The error of base64 decoding.
#[verifier::external_type_specification]
#[verifier::external_body]
pub struct ExDecodeError(base64::DecodeError);

/// The error of parsing a metadata document.
#[verifier::external_type_specification]
#[verifier::external_body]
pub struct ExMetadataError(nostr_sdk::nostr::types::metadata::Error);

/// The bytes that `text` stands for in standard base64 (alphabet `A-Za-z0-9+/`,
/// canonical padding), or `None` where `text` is no such encoding.
pub uninterp spec fn base64_decoding(text: Seq<char>) -> Option<Seq<u8>>;

/// What a metadata document says of a verified address: `None` where
/// `content` is not a metadata document, `Some(None)` where the document
/// makes no claim, `Some(Some(a))` where it claims the address `a`.
pub uninterp spec fn metadata_claim(content: Seq<char>) -> Option<Option<Seq<char>>>;

/// Calls `base64::engine::general_purpose::STANDARD.decode`. The contract
/// only names the outcome: the decoded bytes on success, and an error exactly
/// where the text has no decoding.
#[verifier::external_body]
fn decode_standard(text: &str) -> (decoded: Result<Vec<u8>, base64::DecodeError>)
    ensures
        match decoded {
            Ok(bytes) => base64_decoding(text@) == Some(bytes@),
            Err(_) => base64_decoding(text@) is None,
        },
{
    base64::engine::general_purpose::STANDARD.decode(text)
}

/// Calls `nostr_sdk::Metadata::from_json` and hands out the `nip05` field of
/// the parsed document. The contract only names the outcome: the field on
/// success, and an error exactly where the content does not parse.
#[verifier::external_body]
fn parse_claim(content: &str) -> (parsed: Result<
    Option<String>,
    nostr_sdk::nostr::types::metadata::Error,
>)
    ensures
        match parsed {
            Ok(claim) => metadata_claim(content@) == Some(text_of(claim)),
            Err(_) => metadata_claim(content@) is None,
        },
{
    match nostr_sdk::Metadata::from_json(content) {
        Ok(metadata) => Ok(metadata.nip05),
        Err(e) => Err(e),
    }
}

/// The views of a parsed claim.
pub open spec fn claim_of(parsed: Option<Option<String>>) -> Option<Option<Seq<char>>> {
    match parsed {
        Some(claim) => Some(text_of(claim)),
        None => None,
    }
}

/// The views of decoded bytes.
pub open spec fn bytes_of(decoded: Option<Vec<u8>>) -> Option<Seq<u8>> {
    match decoded {
        Some(bytes) => Some(bytes@),
        None => None,
    }
}

/// The size to record for a payload, given its decoding.
pub open spec fn size_of(decoded: Option<Seq<u8>>) -> Result<i64, HandlerError> {
    match decoded {
        None => Err(HandlerError::InvalidEncoding),
        Some(bytes) => if bytes.len() <= i64::MAX {
            Ok(bytes.len() as i64)
        } else {
            Err(HandlerError::PayloadTooLarge)
        },
    }
}

/// The size to record for decoded bytes: their number, exactly.
pub fn measure(decoded: &Option<Vec<u8>>) -> (size: Result<i64, HandlerError>)
    ensures
        size == size_of(bytes_of(*decoded)),
{
    match decoded {
        None => Err(HandlerError::InvalidEncoding),
        Some(bytes) => {
            let n: u64 = bytes.len() as u64;
            if n <= 0x7fff_ffff_ffff_ffff {
                Ok(n as i64)
            } else {
                Err(HandlerError::PayloadTooLarge)
            }
        },
    }
}

/// The size of the payload that `content` encodes. The bytes are dropped.
pub fn payload_size(content: &str) -> (size: Result<i64, HandlerError>)
    ensures
        size == size_of(base64_decoding(content@)),
{
    let decoded = match decode_standard(content) {
        Ok(bytes) => Some(bytes),
        Err(_) => None,
    };
    measure(&decoded)
}

/// The verified address that a metadata document claims, or `None` where
/// `content` is no metadata document.
pub fn claimed_address(content: &str) -> (parsed: Option<Option<String>>)
    ensures
        claim_of(parsed) == metadata_claim(content@),
{
    match parse_claim(content) {
        Ok(claim) => Some(claim),
        Err(_) => None,
    }
}

} // verus!
