//! The whole pipeline: from the bytes of a container to its HTML document
//! and the index of its first image.

use crate::container::{declared_records, record_bytes, record_in_bounds, RecordOffsetTable};
use crate::encoding::{bom_encoding, decode_text, encoding_of_code, plain_utf8, record_text};
use crate::error::BooksError;
use crate::header::{
    header_of, parse, parse_fault, record_count_of, Record0Header, COMPRESSION_PALMDOC,
};
use crate::html::{
    assemble_chars, document_head, document_of, document_tail, escaped, has_html_tag,
};
use crate::locator::{extract_mobi_images, first_image_index};
use crate::palmdoc::{decompressed, palmdoc_decompress};
use crate::text::{
    chars_of, strip_invalid_control_chars, without_invalid_controls, REPLACEMENT_CHARACTER,
};
use crate::trailer::{trim_trailing_record_data, trimmed_len};
use vstd::prelude::*;
use vstd::slice::{slice_subrange, slice_to_vec};

verus! {

/// The longest container that is decoded: a record can grow fivefold when
/// decompressed, and what comes out has to fit the decoder.
pub open spec fn fits_pipeline(len: int) -> bool {
    len <= usize::MAX / 64
}

/// Largest length that `fits_pipeline` admits.
pub fn pipeline_limit() -> (r: usize)
    ensures
        forall|len: int| fits_pipeline(len) <==> len <= r,
{
    usize::MAX / 64
}

/// The bytes of a text record that are text: the record without its
/// trailing entries, decompressed where the header says so.
pub open spec fn plain_bytes(header: Record0Header, rec: Seq<u8>) -> Seq<u8> {
    let body = rec.subrange(0, trimmed_len(rec, header.extra_flags));
    if header.compression == 2 {
        decompressed(body)
    } else {
        body
    }
}

/// The text that record `i` adds to the document: nothing where the
/// record is empty or out of bounds.
pub open spec fn text_of_record(bytes: Seq<u8>, i: int) -> Seq<char> {
    let header = header_of(record_bytes(bytes, 0));
    if record_in_bounds(bytes, i) {
        record_text(header.text_encoding, plain_bytes(header, record_bytes(bytes, i)))
    } else {
        Seq::empty()
    }
}

/// One past the index of the last text record: the records `1..=count`,
/// as far as the container has them.
pub open spec fn text_record_end(bytes: Seq<u8>) -> int {
    let count = record_count_of(record_bytes(bytes, 0)) as int;
    if 1 + count <= declared_records(bytes) {
        1 + count
    } else {
        declared_records(bytes)
    }
}

/// The texts of the records `1..end`, joined in index order.
pub open spec fn joined_text(bytes: Seq<u8>, end: int) -> Seq<char>
    decreases end,
{
    if end <= 1 {
        Seq::empty()
    } else {
        joined_text(bytes, end - 1) + text_of_record(bytes, end - 1)
    }
}

/// The text that record `i` holds where it is read as valid UTF-8.
pub open spec fn utf8_of_record(bytes: Seq<u8>, i: int) -> Seq<char> {
    let header = header_of(record_bytes(bytes, 0));
    if record_in_bounds(bytes, i) {
        vstd::utf8::decode_utf8(plain_bytes(header, record_bytes(bytes, i)))
    } else {
        Seq::empty()
    }
}

/// The UTF-8 texts of the records `1..end`, joined in index order.
pub open spec fn joined_utf8(bytes: Seq<u8>, end: int) -> Seq<char>
    decreases end,
{
    if end <= 1 {
        Seq::empty()
    } else {
        joined_utf8(bytes, end - 1) + utf8_of_record(bytes, end - 1)
    }
}

/// Whether every text record of a container is plain UTF-8: it has no
/// byte-order mark, the header names no encoding, and its bytes are valid
/// UTF-8 that encodes no replacement character.
pub open spec fn all_plain_utf8(bytes: Seq<u8>) -> bool {
    let header = header_of(record_bytes(bytes, 0));
    forall|i: int|
        1 <= i < text_record_end(bytes) && #[trigger] record_in_bounds(bytes, i) ==> plain_utf8(
            header.text_encoding,
            plain_bytes(header, record_bytes(bytes, i)),
        )
}

/// The text of the document: all text records joined, without invalid
/// control characters.
pub open spec fn document_text(bytes: Seq<u8>) -> Seq<char> {
    without_invalid_controls(joined_text(bytes, text_record_end(bytes)))
}

/// The HTML document of a container.
pub open spec fn html_of(bytes: Seq<u8>) -> Seq<char> {
    document_of(document_text(bytes))
}

/// A record that is stored uncompressed and without trailing entries
/// holds the text whose UTF-8 encoding it is.
pub proof fn lemma_stored_record_holds_its_text(header: Record0Header, text: Seq<char>)
    requires
        header.compression != 2,
        header.extra_flags == 0,
    ensures
        plain_bytes(header, vstd::utf8::encode_utf8(text)) == vstd::utf8::encode_utf8(text),
        vstd::utf8::decode_utf8(plain_bytes(header, vstd::utf8::encode_utf8(text))) == text,
{
    let rec = vstd::utf8::encode_utf8(text);
    assert(rec.subrange(0, rec.len() as int) =~= rec);
    vstd::utf8::encode_utf8_decode_utf8(text);
}

/// Whether a container stores its text as it is: uncompressed, without
/// trailing entries, and with no encoding named in the header.
pub open spec fn stores_plain_text(bytes: Seq<u8>) -> bool {
    let header = header_of(record_bytes(bytes, 0));
    header.compression != 2 && header.extra_flags == 0 && encoding_of_code(header.text_encoding)
        is None
}

/// Whether the text records of a container hold the given pieces of
/// ASCII text, one record for each piece, in order.
pub open spec fn holds_pieces(bytes: Seq<u8>, pieces: Seq<Seq<char>>) -> bool {
    &&& text_record_end(bytes) == pieces.len() + 1
    &&& forall|i: int|
        0 <= i < pieces.len() ==> record_in_bounds(bytes, i + 1) && record_bytes(bytes, i + 1)
            == vstd::utf8::encode_utf8(#[trigger] pieces[i]) && vstd::utf8::is_ascii_chars(
            pieces[i],
        )
}

/// The pieces of a text, joined in order.
pub open spec fn joined_pieces(pieces: Seq<Seq<char>>) -> Seq<char>
    decreases pieces.len(),
{
    if pieces.len() == 0 {
        Seq::empty()
    } else {
        joined_pieces(pieces.drop_last()) + pieces.last()
    }
}

proof fn lemma_ascii_record_is_plain(header: Record0Header, piece: Seq<char>)
    requires
        header.compression != 2,
        header.extra_flags == 0,
        encoding_of_code(header.text_encoding) is None,
        vstd::utf8::is_ascii_chars(piece),
    ensures
        plain_utf8(header.text_encoding, plain_bytes(header, vstd::utf8::encode_utf8(piece))),
        vstd::utf8::decode_utf8(plain_bytes(header, vstd::utf8::encode_utf8(piece))) == piece,
{
    let rec = vstd::utf8::encode_utf8(piece);
    lemma_stored_record_holds_its_text(header, piece);
    vstd::utf8::is_ascii_chars_encode_utf8(piece);
    vstd::utf8::encode_utf8_valid_utf8(piece);
    vstd::utf8::encode_utf8_decode_utf8(piece);
    if rec.len() > 0 {
        assert(rec[0] == piece[0] as u8);
        assert(piece[0] <= '\u{7f}');
    }
    assert(bom_encoding(rec) is None);
    if piece.contains(REPLACEMENT_CHARACTER) {
        let i = choose|i: int| 0 <= i < piece.len() && piece[i] == REPLACEMENT_CHARACTER;
        assert(piece[i] <= '\u{7f}');
    }
}

proof fn lemma_joined_pieces(bytes: Seq<u8>, pieces: Seq<Seq<char>>, k: int)
    requires
        stores_plain_text(bytes),
        holds_pieces(bytes, pieces),
        0 <= k <= pieces.len(),
    ensures
        joined_utf8(bytes, k + 1) == joined_pieces(pieces.subrange(0, k)),
    decreases k,
{
    if k > 0 {
        lemma_joined_pieces(bytes, pieces, k - 1);
        let header = header_of(record_bytes(bytes, 0));
        assert(vstd::utf8::is_ascii_chars(pieces[k - 1]));
        lemma_ascii_record_is_plain(header, pieces[k - 1]);
        assert(pieces.subrange(0, k).drop_last() =~= pieces.subrange(0, k - 1));
        assert(pieces.subrange(0, k).last() == pieces[k - 1]);
        assert(utf8_of_record(bytes, k) == pieces[k - 1]);
    } else {
        assert(pieces.subrange(0, 0) =~= Seq::<Seq<char>>::empty());
    }
}

/// A container that stores pieces of ASCII text as they are gives them
/// back: every text record is plain UTF-8, the text of the document is
/// the pieces joined, without their invalid control characters, and
/// where that holds no `<html` tag, the document is that text, escaped,
/// between the head and the tail of the page.
pub proof fn lemma_stored_text_round_trip(bytes: Seq<u8>, pieces: Seq<Seq<char>>)
    requires
        stores_plain_text(bytes),
        holds_pieces(bytes, pieces),
    ensures
        all_plain_utf8(bytes),
        joined_utf8(bytes, text_record_end(bytes)) == joined_pieces(pieces),
        !has_html_tag(without_invalid_controls(joined_pieces(pieces))) ==> document_of(
            without_invalid_controls(joined_utf8(bytes, text_record_end(bytes))),
        ) == document_head() + escaped(without_invalid_controls(joined_pieces(pieces)))
            + document_tail(),
{
    let header = header_of(record_bytes(bytes, 0));
    assert forall|i: int|
        1 <= i < text_record_end(bytes) && #[trigger] record_in_bounds(bytes, i) implies plain_utf8(
        header.text_encoding,
        plain_bytes(header, record_bytes(bytes, i)),
    ) by {
        assert(vstd::utf8::is_ascii_chars(pieces[i - 1]));
        lemma_ascii_record_is_plain(header, pieces[i - 1]);
    }
    lemma_joined_pieces(bytes, pieces, pieces.len() as int);
    assert(pieces.subrange(0, pieces.len() as int) =~= pieces);
}

fn append_chars(out: &mut Vec<char>, more: &[char])
    ensures
        final(out)@ == old(out)@ + more@,
{
    let n: usize = more.len();
    let mut i: usize = 0;
    while i < n
        invariant
            n == more@.len(),
            i <= n,
            out@ == old(out)@ + more@.subrange(0, i as int),
        decreases n - i,
    {
        out.push(more[i]);
        assert(out@ =~= old(out)@ + more@.subrange(0, i as int + 1));
        i += 1;
    }
    assert(more@.subrange(0, n as int) =~= more@);
}

/// Decodes one text record: strips its trailing entries, decompresses it
/// where the header says so, and decodes the bytes to characters.
pub fn decode_record(header: &Record0Header, rec: &[u8]) -> (text: Vec<char>)
    requires
        fits_pipeline(rec@.len() as int),
    ensures
        text@ == record_text(header.text_encoding, plain_bytes(*header, rec@)),
        plain_utf8(header.text_encoding, plain_bytes(*header, rec@)) ==> text@
            == vstd::utf8::decode_utf8(plain_bytes(*header, rec@)),
{
    let usable: usize = trim_trailing_record_data(rec, header.extra_flags);
    let body: &[u8] = slice_subrange(rec, 0, usable);
    let plain: Vec<u8> = if header.compression == COMPRESSION_PALMDOC {
        palmdoc_decompress(body)
    } else {
        slice_to_vec(body)
    };
    let text = decode_text(header.text_encoding, plain.as_slice());
    chars_of(text.as_str())
}

/// Joins the texts of the text records of a container in index order. A
/// record that is empty or reaches past the buffer adds nothing.
pub fn join_text_records(bytes: &[u8], header: &Record0Header, table: &RecordOffsetTable) -> (joined:
    Vec<char>)
    requires
        fits_pipeline(bytes@.len() as int),
        table.describes(bytes@),
        record_in_bounds(bytes@, 0),
        *header == header_of(record_bytes(bytes@, 0)),
    ensures
        joined@ == joined_text(bytes@, text_record_end(bytes@)),
        all_plain_utf8(bytes@) ==> joined@ == joined_utf8(bytes@, text_record_end(bytes@)),
{
    let num_records: usize = table.offsets.len() - 1;
    let count: usize = header.record_count as usize;
    let end: usize = if 1 + count <= num_records {
        1 + count
    } else {
        num_records
    };
    let mut joined: Vec<char> = Vec::new();
    let mut idx: usize = 1;
    while idx < end
        invariant
            fits_pipeline(bytes@.len() as int),
            table.describes(bytes@),
            record_in_bounds(bytes@, 0),
            *header == header_of(record_bytes(bytes@, 0)),
            end == text_record_end(bytes@),
            1 <= idx <= end,
            joined@ == joined_text(bytes@, idx as int),
            all_plain_utf8(bytes@) ==> joined@ == joined_utf8(bytes@, idx as int),
        decreases end - idx,
    {
        match table.record(bytes, idx) {
            Some(rec) => {
                let text = decode_record(header, rec);
                append_chars(&mut joined, text.as_slice());
            },
            None => {
                assert(joined@ + Seq::<char>::empty() =~= joined@);
            },
        }
        idx += 1;
    }
    joined
}

/// Decodes a container: returns its HTML document and the index of its
/// first image record. Where every text record is plain UTF-8, the
/// document is made of exactly the text that the records encode, without
/// its invalid control characters.
pub fn extract_mobi_to_html(bytes: &[u8]) -> (r: Result<(String, Option<i32>), BooksError>)
    requires
        fits_pipeline(bytes@.len() as int),
    ensures
        match r {
            Ok((html, first)) => parse_fault(bytes@) is None && html@ == html_of(bytes@) && first
                == first_image_index(bytes@),
            Err(e) => parse_fault(bytes@) == Some(e),
        },
        r is Ok && all_plain_utf8(bytes@) ==> r.unwrap().0@ == document_of(
            without_invalid_controls(joined_utf8(bytes@, text_record_end(bytes@))),
        ),
{
    let (header, table) = match parse(bytes) {
        Ok(parts) => parts,
        Err(e) => {
            return Err(e);
        },
    };
    let first: Option<i32> = match extract_mobi_images(bytes) {
        Ok(found) => found.1,
        Err(e) => {
            return Err(e);
        },
    };
    let joined = join_text_records(bytes, &header, &table);
    let text = strip_invalid_control_chars(joined.as_slice());
    Ok((assemble_chars(text.as_slice()), first))
}

} // verus!
