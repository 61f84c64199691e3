//! The payload codec: a release document is compressed with gzip and the
//! compressed bytes are written as base64 text. Compression and base64 are
//! the work of the `flate2` and `base64` crates. What this library relies on
//! of them is stated, and not proved, on the functions at the end of this
//! file that call them.

use crate::storage::driver::DriverError;
use std::io::Write;
use vstd::prelude::*;
use vstd::string::StringExecFns;

verus! {

#[verifier::external_type_specification]
#[verifier::external_body]
pub struct ExBase64DecodeError(base64::DecodeError);

#[verifier::external_type_specification]
#[verifier::external_body]
pub struct ExIoError(std::io::Error);

/// The gzip stream that the compressor writes for `data`, or `None` where
/// the compressor fails on it.
pub uninterp spec fn gzip_bytes(data: Seq<u8>) -> Option<Seq<u8>>;

/// What the decompressor reads out of `stream`, or `None` where it rejects
/// the stream.
pub uninterp spec fn gunzip_bytes(stream: Seq<u8>) -> Option<Seq<u8>>;

/// The base64 text of `data`.
pub uninterp spec fn base64_text(data: Seq<u8>) -> Seq<char>;

/// The bytes that `text` stands for in base64, or `None` where it is not
/// base64.
pub uninterp spec fn base64_bytes(text: Seq<char>) -> Option<Seq<u8>>;

/// What a backend hands back as the stored payload. One backend's store has
/// already undone the base64 layer and holds the compressed bytes; the
/// other's still holds the base64 text.
#[derive(Clone, Debug, PartialEq, Eq)]
pub enum RawData {
    /// The compressed bytes.
    Decoded(Vec<u8>),
    /// The base64 text of the compressed bytes.
    Encoded(String),
}

/// The longest input, in bytes, that is handed to the base64 encoder or
/// decoder: a quarter of the address space, so that neither the length of
/// the encoder's text nor the size of the decoder's buffer can overflow.
pub open spec fn max_input() -> nat {
    (usize::MAX / 4) as nat
}

/// The length of `text` in bytes, as UTF-8.
pub open spec fn byte_len(text: Seq<char>) -> nat {
    vstd::utf8::encode_utf8(text).len()
}

/// Whether `c` belongs to padded base64 in the standard alphabet.
pub open spec fn is_base64_char(c: char) -> bool {
    ||| 'A' <= c <= 'Z'
    ||| 'a' <= c <= 'z'
    ||| '0' <= c <= '9'
    ||| c == '+'
    ||| c == '/'
    ||| c == '='
}

/// The length of the padded base64 text of `n` bytes: four characters for
/// every three bytes begun.
pub open spec fn base64_len(n: nat) -> nat {
    (n + 2) / 3 * 4
}

/// Whether a text is padded base64 in form: whole groups of four
/// characters, all of the alphabet.
pub open spec fn is_base64_form(text: Seq<char>) -> bool {
    &&& text.len() % 4 == 0
    &&& forall|i: int| 0 <= i < text.len() ==> is_base64_char(#[trigger] text[i])
}

/// The payload text of a compressed stream, or `None` where the stream is
/// refused: its text would be longer than `max_input()`.
pub open spec fn stream_text(stream: Seq<u8>) -> Option<Seq<char>> {
    if base64_len(stream.len()) > max_input() {
        None
    } else {
        Some(base64_text(stream))
    }
}

/// The payload text that stands for `document`, or `None` where the
/// document is refused: the compressor fails on it, or the compressed
/// stream is refused.
pub open spec fn encoded(document: Seq<u8>) -> Option<Seq<char>> {
    match gzip_bytes(document) {
        Some(stream) => stream_text(stream),
        None => None,
    }
}

/// The document that a stored payload holds, or `None` where the payload is
/// corrupt.
pub open spec fn decoded(raw: RawData) -> Option<Seq<u8>> {
    match raw {
        RawData::Decoded(bytes) => gunzip_bytes(bytes@),
        RawData::Encoded(text) => {
            if byte_len(text@) > max_input() {
                None
            } else {
                match base64_bytes(text@) {
                    Some(bytes) => gunzip_bytes(bytes),
                    None => None,
                }
            }
        },
    }
}

/// What holds between a compressed stream and the text written for it: the
/// text is that of the stream, it is padded base64 in form, it is short
/// enough to be decoded, and decoding it gives the stream.
pub open spec fn is_text_of(text: Seq<char>, stream: Seq<u8>) -> bool {
    &&& stream_text(stream) == Some(text)
    &&& text.len() == base64_len(stream.len())
    &&& is_base64_form(text)
    &&& byte_len(text) <= max_input()
    &&& base64_bytes(text) == Some(stream)
}

/// What holds between a document and the payload text written for it: the
/// text is `encoded(document)`, it is the text of the compressed stream, and
/// the stream decompresses to the document.
pub open spec fn is_payload_of(text: Seq<char>, document: Seq<u8>) -> bool {
    &&& encoded(document) == Some(text)
    &&& gzip_bytes(document) matches Some(stream)
    &&& is_text_of(text, stream)
    &&& gunzip_bytes(stream) == Some(document)
}

/// Writes a compressed stream as payload text: `stream_text(stream)`. A
/// stream whose text would be longer than `max_input()` is refused with an
/// `EncodeError`; no other stream is.
pub fn encode_stream(stream: &Vec<u8>) -> (r: Result<String, DriverError>)
    ensures
        match stream_text(stream@) {
            Some(text) => r matches Ok(written) && written@ == text && is_text_of(text, stream@),
            None => r matches Err(e) && e is EncodeError,
        },
{
    if stream.len() > usize::MAX / 4 || (stream.len() + 2) / 3 * 4 > usize::MAX / 4 {
        return Err(
            DriverError::EncodeError { message: String::from_str("encoded release is too long") },
        );
    }
    let text = base64_encode(stream);
    proof {
        vstd::utf8::is_ascii_chars_encode_utf8(text@);
    }
    Ok(text)
}

/// Encodes a release document for storing: gzip at the default level, then
/// base64. The result is `encoded(document)`: the payload of the document,
/// or an `EncodeError` where the document is refused.
pub fn encode_release(document: &Vec<u8>) -> (r: Result<String, DriverError>)
    ensures
        match encoded(document@) {
            Some(text) => r matches Ok(written) && written@ == text && is_payload_of(
                text,
                document@,
            ),
            None => r matches Err(e) && e is EncodeError,
        },
{
    match gzip(document) {
        Ok(stream) => encode_stream(&stream),
        Err(e) => Err(DriverError::EncodeError { message: io_error_text(&e) }),
    }
}

/// Decodes a stored payload into the release document: base64 is undone
/// where the backend has not done so, then gzip. The result is
/// `decoded(raw)`; a corrupt payload gives a `DecodeError`.
pub fn decode_release(raw: RawData) -> (r: Result<Vec<u8>, DriverError>)
    ensures
        match decoded(raw) {
            Some(document) => r matches Ok(bytes) && bytes@ == document,
            None => r matches Err(e) && e is DecodeError,
        },
{
    let stream = match raw {
        RawData::Decoded(bytes) => bytes,
        RawData::Encoded(text) => {
            if text.as_str().as_bytes().len() > usize::MAX / 4 {
                return Err(
                    DriverError::DecodeError {
                        message: String::from_str("encoded release is too long"),
                    },
                );
            }
            match base64_decode(text.as_str()) {
                Ok(bytes) => bytes,
                Err(e) => {
                    return Err(DriverError::DecodeError { message: base64_error_text(&e) });
                },
            }
        },
    };
    match gunzip(&stream) {
        Ok(document) => Ok(document),
        Err(e) => Err(DriverError::DecodeError { message: io_error_text(&e) }),
    }
}

/// Decoding undoes encoding. Let `text` be the payload written for a
/// document. A store that keeps the text hands it back as it is; a store
/// that undoes the base64 layer hands back the bytes under it. From either,
/// `decode_release` reads the document.
pub proof fn lemma_decode_inverts_encode(document: Seq<u8>, text: Seq<char>, stored: RawData)
    requires
        is_payload_of(text, document),
        match stored {
            RawData::Encoded(kept) => kept@ == text,
            RawData::Decoded(bytes) => base64_bytes(text) == Some(bytes@),
        },
    ensures
        decoded(stored) == Some(document),
{
}

/// `flate2::write::GzEncoder`, fed `data` whole at the default level and
/// finished, with a `Vec` to write to. Whether it fails depends on `data`
/// alone, and so does the stream it writes: `gzip_bytes(data)` names both.
/// The decompressor reads `data` back out of the stream.
#[verifier::external_body]
fn gzip(data: &Vec<u8>) -> (r: Result<Vec<u8>, std::io::Error>)
    ensures
        match gzip_bytes(data@) {
            Some(stream) => r matches Ok(bytes) && bytes@ == stream && gunzip_bytes(stream)
                == Some(data@),
            None => r is Err,
        },
{
    let mut encoder = flate2::write::GzEncoder::new(Vec::new(), flate2::Compression::default());
    encoder.write_all(data)?;
    encoder.finish()
}

/// `flate2::write::GzDecoder`, fed `stream` whole and finished. It yields
/// `gunzip_bytes(stream)`, and fails where that is `None`.
#[verifier::external_body]
fn gunzip(stream: &Vec<u8>) -> (r: Result<Vec<u8>, std::io::Error>)
    ensures
        match gunzip_bytes(stream@) {
            Some(data) => r matches Ok(bytes) && bytes@ == data,
            None => r is Err,
        },
{
    let mut decoder = flate2::write::GzDecoder::new(Vec::new());
    decoder.write_all(stream)?;
    decoder.finish()
}

/// `base64::encode`: the standard alphabet, padded. Its text is named
/// `base64_text(data)`. The text has four characters for every three bytes
/// begun, all of the alphabet or the padding sign, and `base64::decode`
/// reads `data` back out of it. The encoder panics where it cannot size its
/// text, so inputs beyond `max_input()` are kept from it.
#[verifier::external_body]
fn base64_encode(data: &Vec<u8>) -> (text: String)
    requires
        data.len() <= max_input(),
    ensures
        text@ == base64_text(data@),
        text@.len() == base64_len(data@.len()),
        forall|i: int| 0 <= i < text@.len() ==> is_base64_char(#[trigger] text@[i]),
        base64_bytes(text@) == Some(data@),
{
    base64::encode(data)
}

/// `base64::decode`. It yields `base64_bytes(text)`, and fails where that
/// is `None`. It sizes its buffer by four times the length of the text, so
/// texts beyond `max_input()` are kept from it.
#[verifier::external_body]
fn base64_decode(text: &str) -> (r: Result<Vec<u8>, base64::DecodeError>)
    requires
        byte_len(text@) <= max_input(),
    ensures
        match base64_bytes(text@) {
            Some(data) => r matches Ok(bytes) && bytes@ == data,
            None => r is Err,
        },
{
    base64::decode(text)
}

/// The words of `std::io::Error`'s `Display`.
#[verifier::external_body]
fn io_error_text(e: &std::io::Error) -> String {
    format!("{}", e)
}

/// The words of `base64::DecodeError`'s `Display`.
#[verifier::external_body]
fn base64_error_text(e: &base64::DecodeError) -> String {
    format!("{}", e)
}

} // verus!
