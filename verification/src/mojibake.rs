//! Detection and repair of mojibake: UTF-8 text that was once read as
//! Windows-1252 and written out again, so that one character shows as a
//! garbled run of two or three.
//!
//! Detection goes by a fixed table of such runs. It is a best-effort
//! heuristic: a text may hold a run for other reasons.

use crate::encoding::{decode_with, decoded, decoder_limit, fits_decoder, TextEncoding};
use crate::text::{chars_contain, chars_of, contains_run};
use vstd::prelude::*;

verus! {

/// The runs that give mojibake away: the garbled forms of the curly
/// quotes, dashes and the ellipsis, of some accented letters, and of the
/// no-break space.
pub open spec fn mojibake_markers() -> Seq<Seq<char>> {
    seq![
        seq!['\u{e2}', '\u{20ac}', '\u{2122}'],
        seq!['\u{e2}', '\u{20ac}', '\u{153}'],
        seq!['\u{e2}', '\u{20ac}', '\u{fffd}'],
        seq!['\u{e2}', '\u{20ac}', '\u{201d}'],
        seq!['\u{e2}', '\u{20ac}', '\u{201c}'],
        seq!['\u{e2}', '\u{20ac}', '\u{a6}'],
        seq!['\u{e2}', '\u{20ac}', '\u{2dc}'],
        seq!['\u{c3}', '\u{a9}'],
        seq!['\u{c3}', '\u{a8}'],
        seq!['\u{c3}', '\u{aa}'],
        seq!['\u{c3}', '\u{a1}'],
        seq!['\u{c3}', '\u{b3}'],
        seq!['\u{c3}', '\u{ad}'],
        seq!['\u{c3}', '\u{fa}'],
        seq!['\u{c3}', '\u{b1}'],
        seq!['\u{c2}', ' '],
    ]
}

/// Whether a text holds one of the marker runs.
pub open spec fn is_mojibake(s: Seq<char>) -> bool {
    exists|m: int| 0 <= m < mojibake_markers().len() && contains_run(s, #[trigger] mojibake_markers()[m])
}

/// The marker table.
pub fn marker_table() -> (table: Vec<Vec<char>>)
    ensures
        table@.len() == mojibake_markers().len(),
        forall|m: int| 0 <= m < table@.len() ==> (#[trigger] table@[m])@ == mojibake_markers()[m],
{
    let table: Vec<Vec<char>> = vec![
        vec!['\u{e2}', '\u{20ac}', '\u{2122}'],
        vec!['\u{e2}', '\u{20ac}', '\u{153}'],
        vec!['\u{e2}', '\u{20ac}', '\u{fffd}'],
        vec!['\u{e2}', '\u{20ac}', '\u{201d}'],
        vec!['\u{e2}', '\u{20ac}', '\u{201c}'],
        vec!['\u{e2}', '\u{20ac}', '\u{a6}'],
        vec!['\u{e2}', '\u{20ac}', '\u{2dc}'],
        vec!['\u{c3}', '\u{a9}'],
        vec!['\u{c3}', '\u{a8}'],
        vec!['\u{c3}', '\u{aa}'],
        vec!['\u{c3}', '\u{a1}'],
        vec!['\u{c3}', '\u{b3}'],
        vec!['\u{c3}', '\u{ad}'],
        vec!['\u{c3}', '\u{fa}'],
        vec!['\u{c3}', '\u{b1}'],
        vec!['\u{c2}', ' '],
    ];
    assert(table@.len() == 16);
    assert(mojibake_markers().len() == 16);
    assert forall|m: int| 0 <= m < table@.len() implies (#[trigger] table@[m])@
        == mojibake_markers()[m] by {
        assert(table@[m]@ =~= mojibake_markers()[m]);
    }
    table
}

/// Whether a sequence of characters holds one of the marker runs.
pub fn chars_look_like_mojibake(chars: &[char]) -> (r: bool)
    ensures
        r == is_mojibake(chars@),
{
    let table = marker_table();
    let n: usize = table.len();
    let mut m: usize = 0;
    while m < n
        invariant
            n == table@.len(),
            n == mojibake_markers().len(),
            m <= n,
            forall|k: int| 0 <= k < n ==> (#[trigger] table@[k])@ == mojibake_markers()[k],
            forall|k: int| 0 <= k < m ==> !contains_run(chars@, #[trigger] mojibake_markers()[k]),
        decreases n - m,
    {
        if chars_contain(chars, table[m].as_slice()) {
            assert(contains_run(chars@, mojibake_markers()[m as int]));
            return true;
        }
        m += 1;
    }
    false
}

/// Whether a text looks like mojibake.
pub fn looks_like_mojibake(s: &str) -> (r: bool)
    ensures
        r == is_mojibake(s@),
{
    let chars = chars_of(s);
    chars_look_like_mojibake(chars.as_slice())
}

/// What `encoding_rs::Encoding::encode` returns for Windows-1252 and a
/// text: the bytes, and whether a character had no byte of its own.
pub uninterp spec fn windows_1252_encoded(text: Seq<char>) -> (Seq<u8>, bool);

/// The longest text, counted in bytes of UTF-8, that is handed to the
/// encoder, whose output buffer can take several times the input.
pub open spec fn fits_encoder(len: int) -> bool {
    len <= usize::MAX / 32
}

/// Largest length that `fits_encoder` admits.
pub fn encoder_limit() -> (r: usize)
    ensures
        forall|len: int| fits_encoder(len) <==> len <= r,
{
    usize::MAX / 32
}

/// Encodes a text as Windows-1252 with `encoding_rs::Encoding::encode`.
/// The length bound keeps the call from its documented panic, a buffer
/// size that overflows.
#[verifier::external_body]
pub(crate) fn encode_windows_1252(s: &str) -> (r: (Vec<u8>, bool))
    requires
        fits_encoder(vstd::utf8::encode_utf8(s@).len() as int),
    ensures
        (r.0@, r.1) == windows_1252_encoded(s@),
{
    let (bytes, _, had_errors) = encoding_rs::WINDOWS_1252.encode(s);
    (bytes.into_owned(), had_errors)
}

/// The repair that the bytes of a text, written back as Windows-1252,
/// give: their reading as UTF-8, unless a character could not be written
/// back or the reading still looks like mojibake.
pub open spec fn accepted_repair(encoded: Seq<u8>, had_errors: bool) -> Option<Seq<char>> {
    let fixed = decoded(TextEncoding::Utf8, encoded).0;
    if had_errors || is_mojibake(fixed) {
        None
    } else {
        Some(fixed)
    }
}

/// The repaired form of a text, where it has one. A text that does not
/// look like mojibake has none. Neither has one that is too long for the
/// encoder, or whose bytes are too long for the decoder.
pub open spec fn repaired(s: Seq<char>) -> Option<Seq<char>> {
    let encoded = windows_1252_encoded(s);
    if !is_mojibake(s) || !fits_encoder(vstd::utf8::encode_utf8(s).len() as int) || !fits_decoder(
        encoded.0.len() as int,
    ) {
        None
    } else {
        accepted_repair(encoded.0, encoded.1)
    }
}

/// A repair needs no second repair: what is accepted does not look like
/// mojibake, and so has no repaired form of its own.
pub proof fn lemma_repair_converges(s: Seq<char>)
    ensures
        !is_mojibake(s) ==> repaired(s) is None,
        repaired(s) is Some ==> !is_mojibake(repaired(s).unwrap()) && repaired(
            repaired(s).unwrap(),
        ) is None,
{
}

/// Reads the Windows-1252 bytes of a garbled text as UTF-8 and accepts
/// the result only if nothing was lost on the way and it no longer looks
/// like mojibake.
pub fn accept_repair(encoded: &[u8], had_errors: bool) -> (r: Option<String>)
    requires
        fits_decoder(encoded@.len() as int),
    ensures
        match r {
            Some(fixed) => accepted_repair(encoded@, had_errors) == Some(fixed@),
            None => accepted_repair(encoded@, had_errors) is None,
        },
        had_errors ==> r is None,
        r is Some ==> !is_mojibake(r.unwrap()@),
{
    if had_errors {
        return None;
    }
    let fixed = decode_with(TextEncoding::Utf8, encoded).0;
    if looks_like_mojibake(fixed.as_str()) {
        None
    } else {
        Some(fixed)
    }
}

/// Repairs a text that looks like mojibake. Returns `None` where the text
/// does not look like mojibake, and where the repair is not accepted.
pub fn fix_mojibake(s: &str) -> (r: Option<String>)
    ensures
        match r {
            Some(fixed) => repaired(s@) == Some(fixed@),
            None => repaired(s@) is None,
        },
        !is_mojibake(s@) ==> r is None,
        r is Some ==> !is_mojibake(r.unwrap()@),
{
    if !looks_like_mojibake(s) {
        return None;
    }
    if s.as_bytes().len() > encoder_limit() {
        return None;
    }
    let (encoded, had_errors) = encode_windows_1252(s);
    if encoded.len() > decoder_limit() {
        return None;
    }
    accept_repair(encoded.as_slice(), had_errors)
}

} // verus!
