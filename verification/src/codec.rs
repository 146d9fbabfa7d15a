//! Base64 in the standard alphabet, with padding.

use base64::prelude::BASE64_STANDARD;
use base64::DecodeError;
use base64::Engine;
use vstd::prelude::*;
use vstd::utf8::{
    decode_utf8, encode_utf8, encode_utf8_decode_utf8, encode_utf8_valid_utf8, valid_utf8,
};

verus! {

/// Why a text is no base64.
#[derive(Clone, Copy, Debug, PartialEq, Eq, Structural)]
pub enum DecodeFailure {
    /// The byte at `offset` is no symbol of the alphabet, or is a padding
    /// sign that is not at the end.
    InvalidByte { offset: usize, byte: u8 },
    /// The number of symbols, `length`, fits no whole number of bytes.
    InvalidLength { length: usize },
    /// The last symbol, at `offset`, holds bits that would be thrown away.
    InvalidLastSymbol { offset: usize, byte: u8 },
    /// The padding is missing or wrong.
    InvalidPadding,
}

/// Why a text could not be decoded.
#[derive(Debug)]
pub enum Base64Error {
    /// The text is no base64.
    Malformed(DecodeFailure),
    /// The text is base64, but the bytes it stands for, which are kept here,
    /// are no UTF-8.
    NotUtf8(Vec<u8>),
}

/// The base64 text of `bytes`.
pub uninterp spec fn base64_text(bytes: Seq<u8>) -> Seq<char>;

/// The bytes that the base64 text `text` stands for, or why it is none.
pub uninterp spec fn base64_bytes(text: Seq<char>) -> Result<Seq<u8>, DecodeFailure>;

/// Number of base64 symbols, padding included, that `length` bytes take.
pub open spec fn encoded_length(length: nat) -> nat {
    4 * ((length + 2) / 3)
}

/// `text` is base64 for the UTF-8 form of `content`.
pub open spec fn decodes_to(text: Seq<char>, content: Seq<char>) -> bool {
    &&& base64_bytes(text) is Ok
    &&& valid_utf8(base64_bytes(text)->Ok_0)
    &&& decode_utf8(base64_bytes(text)->Ok_0) == content
}

/// Encodes with `base64::Engine::encode` of the standard engine.
///
/// The text depends on the bytes alone, has four symbols for every three
/// bytes or part of three, and decoding it gives the bytes back. The engine
/// gives up where the length of the text does not fit the machine's word.
#[verifier::external_body]
fn encode_standard(bytes: &[u8]) -> (text: String)
    requires
        encoded_length(bytes@.len()) <= usize::MAX,
    ensures
        text@ == base64_text(bytes@),
        text@.len() == encoded_length(bytes@.len()),
        base64_bytes(text@) is Ok,
        base64_bytes(text@)->Ok_0 == bytes@,
{
    BASE64_STANDARD.encode(bytes)
}

/// Decodes with `base64::Engine::decode` of the standard engine.
///
/// The outcome depends on the text alone.
#[verifier::external_body]
fn decode_standard(text: &str) -> (decoded: Result<Vec<u8>, DecodeFailure>)
    ensures
        match decoded {
            Ok(bytes) => base64_bytes(text@) is Ok && base64_bytes(text@)->Ok_0 == bytes@,
            Err(failure) => base64_bytes(text@) is Err && base64_bytes(text@)->Err_0 == failure,
        },
{
    match BASE64_STANDARD.decode(text) {
        Ok(bytes) => Ok(bytes),
        Err(DecodeError::InvalidByte(offset, byte)) => Err(
            DecodeFailure::InvalidByte { offset, byte },
        ),
        Err(DecodeError::InvalidLength(length)) => Err(DecodeFailure::InvalidLength { length }),
        Err(DecodeError::InvalidLastSymbol(offset, byte)) => Err(
            DecodeFailure::InvalidLastSymbol { offset, byte },
        ),
        Err(DecodeError::InvalidPadding) => Err(DecodeFailure::InvalidPadding),
    }
}

/// Reads bytes as text with `String::from_utf8`, which accepts them exactly
/// when they are UTF-8 and otherwise hands them back.
#[verifier::external_body]
fn text_of_bytes(bytes: Vec<u8>) -> (read: Result<String, Vec<u8>>)
    ensures
        match read {
            Ok(text) => valid_utf8(bytes@) && text@ == decode_utf8(bytes@),
            Err(rejected) => !valid_utf8(bytes@) && rejected@ == bytes@,
        },
{
    String::from_utf8(bytes).map_err(|error| error.into_bytes())
}

/// Encodes a text as base64. Decoding the result gives the text back.
pub fn base64_encode(content: String) -> (text: String)
    requires
        encoded_length(encode_utf8(content@).len()) <= usize::MAX,
    ensures
        text@ == base64_text(encode_utf8(content@)),
        text@.len() == encoded_length(encode_utf8(content@).len()),
        decodes_to(text@, content@),
{
    proof {
        encode_utf8_valid_utf8(content@);
        encode_utf8_decode_utf8(content@);
    }
    encode_standard(content.as_str().as_bytes())
}

/// Decodes a base64 text whose bytes are UTF-8.
pub fn base64_decode(content: String) -> (outcome: Result<String, Base64Error>)
    ensures
        match outcome {
            Ok(text) => decodes_to(content@, text@),
            Err(Base64Error::Malformed(failure)) => base64_bytes(content@) is Err && base64_bytes(
                content@,
            )->Err_0 == failure,
            Err(Base64Error::NotUtf8(bytes)) => base64_bytes(content@) is Ok && base64_bytes(
                content@,
            )->Ok_0 == bytes@ && !valid_utf8(bytes@),
        },
{
    match decode_standard(content.as_str()) {
        Err(failure) => Err(Base64Error::Malformed(failure)),
        Ok(bytes) => match text_of_bytes(bytes) {
            Ok(text) => Ok(text),
            Err(rejected) => Err(Base64Error::NotUtf8(rejected)),
        },
    }
}

} // verus!
