//! Stored HTML read back: finding the encoding it declares, decoding it,
//! and deciding whether it can be served or has to be produced again.

use crate::encoding::{
    decode_utf8_lossy, decode_with, decoded, encoding_from_bom, bom_encoding, fits_decoder,
    utf8_lossy, TextEncoding,
};
use crate::error::BooksError;
use crate::mojibake::{fix_mojibake, is_mojibake, looks_like_mojibake, repaired};
use crate::text::{
    count_of, has_invalid_controls, has_many_replacements, is_invalid_control_byte, push_char,
    replacement_count, run_at, strip_invalid_controls, without_invalid_controls,
    REPLACEMENT_CHARACTER, REPLACEMENT_THRESHOLD,
};
use vstd::prelude::*;
use vstd::string::StringSliceAdditionalSpecFns;
use vstd::utf8::encode_utf8;

verus! {

/// How many leading bytes of stored HTML are searched for a declaration
/// of its encoding.
pub const DECLARATION_WINDOW: usize = 8192;

/// The first position at or after `p` where `needle` stands in `hay`.
pub open spec fn first_run_from(hay: Seq<u8>, needle: Seq<u8>, p: int) -> Option<int>
    decreases hay.len() + 1 - p,
{
    if 0 <= p && p + needle.len() <= hay.len() {
        if run_at(hay, needle, p) {
            Some(p)
        } else {
            first_run_from(hay, needle, p + 1)
        }
    } else {
        None
    }
}

/// A byte that may stand between a key and its label: white space, or a
/// single or double quote.
pub open spec fn is_separator(b: u8) -> bool {
    (0x09 <= b && b <= 0x0d) || b == 0x20 || b == 0x85 || b == 0xa0 || b == 0x22 || b == 0x27
}

/// A byte that a label is made of: an ASCII letter or digit, `-`, `_` or
/// `.`.
pub open spec fn is_label_byte(b: u8) -> bool {
    (0x30 <= b && b <= 0x39) || (0x41 <= b && b <= 0x5a) || (0x61 <= b && b <= 0x7a) || b == 0x2d
        || b == 0x5f || b == 0x2e
}

/// The first position at or after `i` that holds no separator.
pub open spec fn skip_separators(hay: Seq<u8>, i: int) -> int
    decreases hay.len() - i,
{
    if 0 <= i < hay.len() && is_separator(hay[i]) {
        skip_separators(hay, i + 1)
    } else {
        i
    }
}

/// The first position at or after `i` that holds no label byte.
pub open spec fn label_end(hay: Seq<u8>, i: int) -> int
    decreases hay.len() - i,
{
    if 0 <= i < hay.len() && is_label_byte(hay[i]) {
        label_end(hay, i + 1)
    } else {
        i
    }
}

/// The label that follows the first occurrence of `key` in `hay`: the
/// longest run of label bytes behind the key and any separators. `None`
/// where the key does not occur or no label byte follows.
pub open spec fn label_after(hay: Seq<u8>, key: Seq<u8>) -> Option<Seq<u8>> {
    match first_run_from(hay, key, 0) {
        None => None,
        Some(p) => {
            let start = skip_separators(hay, p + key.len());
            let end = label_end(hay, start);
            if end > start {
                Some(hay.subrange(start, end))
            } else {
                None
            }
        },
    }
}

/// The text whose characters are the given ASCII bytes.
pub open spec fn ascii_text(bytes: Seq<u8>) -> Seq<char> {
    Seq::new(bytes.len(), |i: int| bytes[i] as char)
}

fn bytes_match_at(hay: &[u8], needle: &[u8], p: usize) -> (r: bool)
    ensures
        r == run_at(hay@, needle@, p as int),
{
    let n: usize = hay.len();
    let m: usize = needle.len();
    if p > n || m > n - p {
        return false;
    }
    let mut j: usize = 0;
    while j < m
        invariant
            n == hay@.len(),
            m == needle@.len(),
            p + m <= n,
            j <= m,
            forall|k: int| 0 <= k < j ==> hay@[p + k] == needle@[k],
        decreases m - j,
    {
        if hay[p + j] != needle[j] {
            assert(hay@.subrange(p as int, p + m)[j as int] != needle@[j as int]);
            return false;
        }
        j += 1;
    }
    assert(hay@.subrange(p as int, p + m) =~= needle@);
    true
}

/// Finds the first occurrence of `needle` in `hay`.
pub fn find_bytes(hay: &[u8], needle: &[u8]) -> (r: Option<usize>)
    ensures
        match r {
            Some(p) => first_run_from(hay@, needle@, 0) == Some(p as int) && p + needle@.len()
                <= hay@.len(),
            None => first_run_from(hay@, needle@, 0) is None,
        },
{
    let n: usize = hay.len();
    let m: usize = needle.len();
    if m > n {
        return None;
    }
    let last: usize = n - m;
    let mut p: usize = 0;
    loop
        invariant
            n == hay@.len(),
            m == needle@.len(),
            last == n - m,
            p <= last,
            first_run_from(hay@, needle@, p as int) == first_run_from(hay@, needle@, 0),
        decreases last - p,
    {
        if bytes_match_at(hay, needle, p) {
            return Some(p);
        }
        if p == last {
            assert(first_run_from(hay@, needle@, p as int + 1) is None);
            return None;
        }
        p += 1;
    }
}

/// Extracts the label that follows `key` in `haystack`, as in
/// `charset=utf-8` or `encoding="iso-8859-1"`.
pub fn extract_label(haystack: &str, key: &str) -> (r: Option<String>)
    ensures
        match r {
            Some(label) => label_after(haystack.spec_bytes(), key.spec_bytes()) is Some
                && label@ == ascii_text(
                label_after(haystack.spec_bytes(), key.spec_bytes()).unwrap(),
            ),
            None => label_after(haystack.spec_bytes(), key.spec_bytes()) is None,
        },
{
    let hay: &[u8] = haystack.as_bytes();
    let needle: &[u8] = key.as_bytes();
    let n: usize = hay.len();
    let found: usize = match find_bytes(hay, needle) {
        Some(p) => p,
        None => {
            return None;
        },
    };
    let mut i: usize = found + needle.len();
    while i < n && is_separator_byte(hay[i])
        invariant
            n == hay@.len(),
            i <= n,
            skip_separators(hay@, i as int) == skip_separators(hay@, found + needle@.len()),
        decreases n - i,
    {
        i += 1;
    }
    let start: usize = i;
    let mut label = String::new();
    while i < n && is_label(hay[i])
        invariant
            n == hay@.len(),
            start <= i <= n,
            label_end(hay@, i as int) == label_end(hay@, start as int),
            label@ == ascii_text(hay@.subrange(start as int, i as int)),
        decreases n - i,
    {
        push_char(&mut label, hay[i] as char);
        assert(label@ =~= ascii_text(hay@.subrange(start as int, i as int + 1)));
        i += 1;
    }
    if i > start {
        Some(label)
    } else {
        None
    }
}

fn is_separator_byte(b: u8) -> (r: bool)
    ensures
        r == is_separator(b),
{
    (0x09 <= b && b <= 0x0d) || b == 0x20 || b == 0x85 || b == 0xa0 || b == 0x22 || b == 0x27
}

fn is_label(b: u8) -> (r: bool)
    ensures
        r == is_label_byte(b),
{
    (0x30 <= b && b <= 0x39) || (0x41 <= b && b <= 0x5a) || (0x61 <= b && b <= 0x7a) || b == 0x2d
        || b == 0x5f || b == 0x2e
}

/// The encoding that stored HTML declares.
#[derive(Debug, Clone)]
pub enum HtmlEncoding {
    /// Named by a byte-order mark.
    Marked(TextEncoding),
    /// Named by a label such as `utf-8` or `windows-1252`, found behind
    /// `charset=` or `encoding=`.
    Labeled(String),
}

/// The lower-case form of an ASCII capital; any other byte itself.
pub open spec fn lower_byte(b: u8) -> u8 {
    if 0x41 <= b && b <= 0x5a {
        (b + 32) as u8
    } else {
        b
    }
}

/// The leading bytes of stored HTML that are searched for a declaration,
/// in lower case.
pub open spec fn lowered_window(bytes: Seq<u8>) -> Seq<u8> {
    Seq::new(
        if bytes.len() <= 8192 {
            bytes.len()
        } else {
            8192nat
        },
        |i: int| lower_byte(bytes[i]),
    )
}

/// The label that stored HTML declares: the one behind `charset=`, or
/// where there is none, the one behind `encoding=`.
pub open spec fn declared_label(bytes: Seq<u8>) -> Option<Seq<u8>> {
    let hay = encode_utf8(utf8_lossy(lowered_window(bytes)));
    if label_after(hay, encode_utf8("charset="@)) is Some {
        label_after(hay, encode_utf8("charset="@))
    } else {
        label_after(hay, encode_utf8("encoding="@))
    }
}

/// Finds the encoding that stored HTML declares: by a byte-order mark, or
/// else by a label in its first bytes.
pub fn detect_html_encoding(bytes: &[u8]) -> (r: Option<HtmlEncoding>)
    ensures
        match r {
            Some(HtmlEncoding::Marked(e)) => bom_encoding(bytes@) == Some(e),
            Some(HtmlEncoding::Labeled(label)) => bom_encoding(bytes@) is None && declared_label(
                bytes@,
            ) is Some && label@ == ascii_text(declared_label(bytes@).unwrap()),
            None => bom_encoding(bytes@) is None && declared_label(bytes@) is None,
        },
{
    if let Some(e) = encoding_from_bom(bytes) {
        return Some(HtmlEncoding::Marked(e));
    }
    let n: usize = bytes.len();
    let window: usize = if n <= DECLARATION_WINDOW {
        n
    } else {
        DECLARATION_WINDOW
    };
    let mut lowered: Vec<u8> = Vec::with_capacity(window);
    let mut i: usize = 0;
    while i < window
        invariant
            window <= n,
            n == bytes@.len(),
            i <= window,
            lowered@.len() == i,
            forall|k: int| 0 <= k < i ==> lowered@[k] == lower_byte(bytes@[k]),
        decreases window - i,
    {
        let b: u8 = bytes[i];
        let lb: u8 = if 0x41 <= b && b <= 0x5a {
            b + 32
        } else {
            b
        };
        lowered.push(lb);
        i += 1;
    }
    assert(lowered@ =~= lowered_window(bytes@));
    let haystack = decode_utf8_lossy(lowered.as_slice());
    if let Some(label) = extract_label(haystack.as_str(), "charset=") {
        return Some(HtmlEncoding::Labeled(label));
    }
    match extract_label(haystack.as_str(), "encoding=") {
        Some(label) => Some(HtmlEncoding::Labeled(label)),
        None => None,
    }
}

/// What decoding gives for a label and a buffer: `None` where
/// `encoding_rs::Encoding::for_label` knows no encoding of that label,
/// else what `encoding_rs::Encoding::decode` returns for the encoding it
/// names.
pub uninterp spec fn decoded_by_label(label: Seq<char>, bytes: Seq<u8>) -> Option<
    (Seq<char>, bool),
>;

/// Decodes a buffer with the encoding that a label names: looks the label
/// up with `encoding_rs::Encoding::for_label` and decodes with
/// `encoding_rs::Encoding::decode`. The length bound keeps the decoder
/// from its documented panic.
#[verifier::external_body]
pub(crate) fn decode_labeled(label: &str, bytes: &[u8]) -> (r: Option<(String, bool)>)
    requires
        fits_decoder(bytes@.len() as int),
    ensures
        match r {
            Some(d) => decoded_by_label(label@, bytes@) == Some((d.0@, d.1)),
            None => decoded_by_label(label@, bytes@) is None,
        },
{
    match encoding_rs::Encoding::for_label(label.as_bytes()) {
        Some(outside) => {
            let (text, _, had_errors) = outside.decode(bytes);
            Some((text.into_owned(), had_errors))
        },
        None => None,
    }
}

/// The first reading of stored HTML: by the encoding it declares, or as
/// UTF-8 where it declares none or one that is not known.
pub open spec fn first_reading(bytes: Seq<u8>) -> (Seq<char>, bool) {
    if bom_encoding(bytes) is Some {
        decoded(bom_encoding(bytes).unwrap(), bytes)
    } else if declared_label(bytes) is Some && decoded_by_label(
        ascii_text(declared_label(bytes).unwrap()),
        bytes,
    ) is Some {
        decoded_by_label(ascii_text(declared_label(bytes).unwrap()), bytes).unwrap()
    } else {
        decoded(TextEncoding::Utf8, bytes)
    }
}

/// Decodes stored HTML by the encoding it declares.
pub fn decode_stored(bytes: &[u8]) -> (r: (String, bool))
    requires
        fits_decoder(bytes@.len() as int),
    ensures
        (r.0@, r.1) == first_reading(bytes@),
{
    match detect_html_encoding(bytes) {
        Some(HtmlEncoding::Marked(e)) => decode_with(e, bytes),
        Some(HtmlEncoding::Labeled(label)) => match decode_labeled(label.as_str(), bytes) {
            Some(d) => d,
            None => decode_with(TextEncoding::Utf8, bytes),
        },
        None => decode_with(TextEncoding::Utf8, bytes),
    }
}

/// Number of replacement characters in a text.
pub open spec fn replacements(text: Seq<char>) -> nat {
    count_of(text, REPLACEMENT_CHARACTER)
}

/// Which of two readings of stored HTML is kept: the second only where
/// the first holds more replacement characters than the threshold allows
/// and the second holds fewer than the first.
pub open spec fn kept_reading(first: Seq<char>, second: Seq<char>) -> Seq<char> {
    if replacements(first) > 16 && replacements(second) < replacements(first) {
        second
    } else {
        first
    }
}

/// The text that a kept reading is served as: an error where it holds
/// more replacement characters than the threshold allows, else the
/// reading itself, repaired where it looks like mojibake and the repair
/// is accepted.
pub open spec fn served_text(kept: Seq<char>) -> Result<Seq<char>, BooksError> {
    if replacements(kept) > 16 {
        Err(BooksError::CorruptHtml)
    } else if repaired(kept) is Some {
        Ok(repaired(kept).unwrap())
    } else {
        Ok(kept)
    }
}

/// The text that stored HTML is served as. Both readings are taken
/// without their invalid control characters; the second reading is the
/// one as Windows-1252.
pub open spec fn stored_text(bytes: Seq<u8>) -> Result<Seq<char>, BooksError> {
    served_text(
        kept_reading(
            without_invalid_controls(first_reading(bytes).0),
            without_invalid_controls(decoded(TextEncoding::Windows1252, bytes).0),
        ),
    )
}

/// Whether stored HTML has to be produced again from its container: it
/// is empty, looks like mojibake, holds more replacement characters than
/// the threshold allows, or holds an invalid control character.
pub open spec fn is_stale(html: Seq<char>) -> bool {
    html.len() == 0 || is_mojibake(html) || replacements(html) > 16 || exists|i: int|
        0 <= i < encode_utf8(html).len() && is_invalid_control_byte(#[trigger] encode_utf8(html)[i])
}

/// Tests whether stored HTML has to be produced again.
pub fn needs_regeneration(html: &str) -> (r: bool)
    ensures
        r == is_stale(html@),
{
    html.is_empty() || looks_like_mojibake(html) || has_many_replacements(html)
        || has_invalid_controls(html.as_bytes())
}

/// Decides whether a reading of stored HTML can be served, and repairs it
/// where it looks like mojibake.
pub fn serve_text(kept: String) -> (r: Result<String, BooksError>)
    ensures
        match r {
            Ok(text) => served_text(kept@) == Ok::<Seq<char>, BooksError>(text@),
            Err(e) => served_text(kept@) == Err::<Seq<char>, BooksError>(e),
        },
        r is Err <==> replacements(kept@) > 16,
{
    if replacement_count(kept.as_str()) > REPLACEMENT_THRESHOLD {
        return Err(BooksError::CorruptHtml);
    }
    match fix_mojibake(kept.as_str()) {
        Some(fixed) => Ok(fixed),
        None => Ok(kept),
    }
}

/// Reads stored HTML back. Returns the text to serve, or `CorruptHtml`
/// where even the better of its two readings holds too many replacement
/// characters.
pub fn read_html_string_from_bytes(bytes: &[u8]) -> (r: Result<String, BooksError>)
    requires
        fits_decoder(bytes@.len() as int),
    ensures
        match r {
            Ok(text) => stored_text(bytes@) == Ok::<Seq<char>, BooksError>(text@),
            Err(e) => stored_text(bytes@) == Err::<Seq<char>, BooksError>(e),
        },
{
    let (decoded_first, had_errors) = decode_stored(bytes);
    let first = strip_invalid_controls(decoded_first.as_str());
    let total: usize = replacement_count(first.as_str());
    if (had_errors || total > 0) && total > REPLACEMENT_THRESHOLD {
        let decoded_second = decode_with(TextEncoding::Windows1252, bytes).0;
        let second = strip_invalid_controls(decoded_second.as_str());
        if replacement_count(second.as_str()) < total {
            return serve_text(second);
        }
    }
    serve_text(first)
}

} // verus!
