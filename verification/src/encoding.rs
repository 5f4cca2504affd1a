//! Choice of the character encoding of a text record and its decoding.
//!
//! The decoders themselves belong to `encoding_rs` and to the standard
//! library. What they return is known here by name only; which decoder
//! runs on which bytes, and which of their results is kept, is decided and
//! proved here.

use crate::header::{
    mobi_text_encoding, text_encoding_of, ENCODING_UTF8, ENCODING_WINDOWS_1252,
};
use crate::text::{contains_replacement, REPLACEMENT_CHARACTER};
use vstd::prelude::*;

verus! {

/// The encodings that a text record can be decoded with.
#[derive(Debug, Clone, Copy, PartialEq, Eq, Structural)]
pub enum TextEncoding {
    Utf8,
    Utf16Be,
    Utf16Le,
    Windows1252,
}

/// What `encoding_rs::Encoding::decode` returns for an encoding and a
/// buffer: the text, and whether a malformed sequence was replaced.
pub uninterp spec fn decoded(encoding: TextEncoding, bytes: Seq<u8>) -> (Seq<char>, bool);

/// What `String::from_utf8_lossy` returns for a buffer.
pub uninterp spec fn utf8_lossy(bytes: Seq<u8>) -> Seq<char>;

/// The longest buffer that is handed to a decoder: the decoder sizes its
/// output at up to three times the input and a few bytes more, and that
/// size has to fit.
pub open spec fn fits_decoder(len: int) -> bool {
    len <= usize::MAX / 8
}

/// Largest length that `fits_decoder` admits.
pub fn decoder_limit() -> (r: usize)
    ensures
        forall|len: int| fits_decoder(len) <==> len <= r,
{
    usize::MAX / 8
}

/// Decodes a whole buffer with `encoding_rs::Encoding::decode`. The
/// encoding named is the one asked for; the call itself prefers the
/// encoding of a byte-order mark where the buffer begins with one, and
/// leaves the mark out of the text. The length bound keeps the call from
/// its documented panic, an output size that overflows.
#[verifier::external_body]
pub(crate) fn decode_with(encoding: TextEncoding, bytes: &[u8]) -> (r: (String, bool))
    requires
        fits_decoder(bytes@.len() as int),
    ensures
        (r.0@, r.1) == decoded(encoding, bytes@),
{
    let outside = match encoding {
        TextEncoding::Utf8 => encoding_rs::UTF_8,
        TextEncoding::Utf16Be => encoding_rs::UTF_16BE,
        TextEncoding::Utf16Le => encoding_rs::UTF_16LE,
        TextEncoding::Windows1252 => encoding_rs::WINDOWS_1252,
    };
    let (text, _, had_errors) = outside.decode(bytes);
    (text.into_owned(), had_errors)
}

/// Decodes a buffer as UTF-8 with `String::from_utf8_lossy`, which puts
/// U+FFFD in place of each malformed sequence and, as its documentation
/// says, returns valid UTF-8 as it is.
#[verifier::external_body]
pub(crate) fn decode_utf8_lossy(bytes: &[u8]) -> (r: String)
    ensures
        r@ == utf8_lossy(bytes@),
        vstd::utf8::valid_utf8(bytes@) ==> r@ == vstd::utf8::decode_utf8(bytes@),
{
    String::from_utf8_lossy(bytes).into_owned()
}

/// The encoding that a byte-order mark at the start of `bytes` names.
pub open spec fn bom_encoding(bytes: Seq<u8>) -> Option<TextEncoding> {
    if bytes.len() >= 3 && bytes[0] == 0xef && bytes[1] == 0xbb && bytes[2] == 0xbf {
        Some(TextEncoding::Utf8)
    } else if bytes.len() >= 2 && bytes[0] == 0xfe && bytes[1] == 0xff {
        Some(TextEncoding::Utf16Be)
    } else if bytes.len() >= 2 && bytes[0] == 0xff && bytes[1] == 0xfe {
        Some(TextEncoding::Utf16Le)
    } else {
        None
    }
}

/// Looks for a byte-order mark: `EF BB BF` for UTF-8, `FE FF` for
/// UTF-16BE, `FF FE` for UTF-16LE.
pub fn encoding_from_bom(bytes: &[u8]) -> (r: Option<TextEncoding>)
    ensures
        r == bom_encoding(bytes@),
{
    let n: usize = bytes.len();
    if n >= 3 && bytes[0] == 0xef && bytes[1] == 0xbb && bytes[2] == 0xbf {
        Some(TextEncoding::Utf8)
    } else if n >= 2 && bytes[0] == 0xfe && bytes[1] == 0xff {
        Some(TextEncoding::Utf16Be)
    } else if n >= 2 && bytes[0] == 0xff && bytes[1] == 0xfe {
        Some(TextEncoding::Utf16Le)
    } else {
        None
    }
}

/// The encoding that an encoding code of the MOBI header names, if any.
pub open spec fn encoding_of_code(code: Option<u32>) -> Option<TextEncoding> {
    if code == Some(65001u32) {
        Some(TextEncoding::Utf8)
    } else if code == Some(1252u32) {
        Some(TextEncoding::Windows1252)
    } else {
        None
    }
}

/// Tells the encoding that an encoding code of the MOBI header names.
pub fn encoding_for_code(code: Option<u32>) -> (r: Option<TextEncoding>)
    ensures
        r == encoding_of_code(code),
{
    match code {
        Some(c) => if c == ENCODING_UTF8 {
            Some(TextEncoding::Utf8)
        } else if c == ENCODING_WINDOWS_1252 {
            Some(TextEncoding::Windows1252)
        } else {
            None
        },
        None => None,
    }
}

/// The text of a record. A byte-order mark decides first, then the
/// header's encoding code. With neither, the bytes are read as UTF-8, and
/// where that gives a replacement character, as Windows-1252 instead.
pub open spec fn record_text(code: Option<u32>, bytes: Seq<u8>) -> Seq<char> {
    if bom_encoding(bytes) is Some {
        decoded(bom_encoding(bytes).unwrap(), bytes).0
    } else if encoding_of_code(code) is Some {
        decoded(encoding_of_code(code).unwrap(), bytes).0
    } else {
        guessed_text(utf8_lossy(bytes), decoded(TextEncoding::Windows1252, bytes).0)
    }
}

/// Whether a record is read by the guess alone, is valid UTF-8, and
/// encodes no replacement character.
pub open spec fn plain_utf8(code: Option<u32>, bytes: Seq<u8>) -> bool {
    &&& bom_encoding(bytes) is None
    &&& encoding_of_code(code) is None
    &&& vstd::utf8::valid_utf8(bytes)
    &&& !vstd::utf8::decode_utf8(bytes).contains(REPLACEMENT_CHARACTER)
}

/// The result of the guess: the UTF-8 reading unless it holds a
/// replacement character.
pub open spec fn guessed_text(as_utf8: Seq<char>, as_windows_1252: Seq<char>) -> Seq<char> {
    if as_utf8.contains(REPLACEMENT_CHARACTER) {
        as_windows_1252
    } else {
        as_utf8
    }
}

/// Whether the UTF-8 reading of a record has to give way to the
/// Windows-1252 reading.
pub fn needs_fallback(as_utf8: &str) -> (r: bool)
    ensures
        r == as_utf8@.contains(REPLACEMENT_CHARACTER),
{
    contains_replacement(as_utf8)
}

/// Decodes the bytes of a text record, given the encoding code of the
/// header.
pub fn decode_text(code: Option<u32>, bytes: &[u8]) -> (r: String)
    requires
        fits_decoder(bytes@.len() as int),
    ensures
        r@ == record_text(code, bytes@),
        plain_utf8(code, bytes@) ==> r@ == vstd::utf8::decode_utf8(bytes@),
{
    if let Some(encoding) = encoding_from_bom(bytes) {
        return decode_with(encoding, bytes).0;
    }
    match encoding_for_code(code) {
        Some(encoding) => decode_with(encoding, bytes).0,
        None => {
            let as_utf8 = decode_utf8_lossy(bytes);
            if needs_fallback(as_utf8.as_str()) {
                decode_with(TextEncoding::Windows1252, bytes).0
            } else {
                as_utf8
            }
        },
    }
}

/// Decodes the bytes of a text record with the encoding that record 0
/// names.
pub fn decode_mobi_text(rec0: &[u8], text_bytes: &[u8]) -> (r: String)
    requires
        fits_decoder(text_bytes@.len() as int),
    ensures
        r@ == record_text(text_encoding_of(rec0@), text_bytes@),
        plain_utf8(text_encoding_of(rec0@), text_bytes@) ==> r@ == vstd::utf8::decode_utf8(
            text_bytes@,
        ),
{
    decode_text(mobi_text_encoding(rec0), text_bytes)
}

/// A byte-order mark overrides the header's encoding code.
pub proof fn lemma_bom_is_authoritative(code1: Option<u32>, code2: Option<u32>, bytes: Seq<u8>)
    requires
        bom_encoding(bytes) is Some,
    ensures
        record_text(code1, bytes) == record_text(code2, bytes),
{
}

} // verus!
