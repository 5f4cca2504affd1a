//! Record 0: the sixteen-byte PalmDOC header followed by the MOBI header.

use crate::bytes::{be_u16, be_u32, spec_be_u16, spec_be_u32};
use crate::container::{record_bytes, table_fault, RecordOffsetTable};
use crate::error::BooksError;
use vstd::prelude::*;

verus! {

/// Compression code of records stored as they are.
pub const COMPRESSION_NONE: u16 = 1;

/// Compression code of PalmDOC-compressed records.
pub const COMPRESSION_PALMDOC: u16 = 2;

/// Text encoding code of UTF-8.
pub const ENCODING_UTF8: u32 = 65001;

/// Text encoding code of Windows-1252.
pub const ENCODING_WINDOWS_1252: u32 = 1252;

/// Offset in record 0 of the extra-data flag word.
pub const EXTRA_FLAGS_OFFSET: usize = 0xf2;

/// Whether the four bytes `MOBI` stand at position `p` of `rec0`.
pub open spec fn magic_at(rec0: Seq<u8>, p: int) -> bool {
    &&& 0 <= p
    &&& p + 4 <= rec0.len()
    &&& rec0[p] == 0x4d
    &&& rec0[p + 1] == 0x4f
    &&& rec0[p + 2] == 0x42
    &&& rec0[p + 3] == 0x49
}

/// The first position at or after `p` where the magic stands.
pub open spec fn first_magic_from(rec0: Seq<u8>, p: int) -> Option<int>
    decreases rec0.len() - p,
{
    if p < 0 || p + 4 > rec0.len() {
        None
    } else if magic_at(rec0, p) {
        Some(p)
    } else {
        first_magic_from(rec0, p + 1)
    }
}

/// Where the MOBI header begins in record 0: at the first occurrence of
/// its magic.
pub open spec fn mobi_offset(rec0: Seq<u8>) -> Option<int> {
    first_magic_from(rec0, 0)
}

/// The value of a 32-bit field read as a signed number.
pub open spec fn as_signed(v: u32) -> int {
    if v >= 0x8000_0000 {
        v as int - 0x1_0000_0000
    } else {
        v as int
    }
}

/// The fields of record 0 that decoding needs.
#[derive(Debug, Clone, Copy, PartialEq, Eq, Structural)]
pub struct Record0Header {
    /// 1 for stored records, 2 for PalmDOC compression.
    pub compression: u16,
    /// Length of the whole text once decompressed, as the producer states it.
    pub text_length: u32,
    /// Number of text records, which follow record 0.
    pub record_count: u16,
    /// Where the MOBI header begins in record 0, where it holds one.
    pub mobi_offset: Option<usize>,
    /// Text encoding code of the MOBI header, where there is one.
    pub text_encoding: Option<u32>,
    /// Which trailing entries every text record carries.
    pub extra_flags: u16,
    /// Index of the first image record as the producer states it; `None`
    /// where the stored field is absent, 0 or -1, which all mean "unset".
    pub first_image_index: Option<i32>,
}

/// Compression code: the 16-bit field at offset 0, taken as "stored" where
/// record 0 is too short to hold it.
pub open spec fn compression_of(rec0: Seq<u8>) -> u16 {
    match spec_be_u16(rec0, 0) {
        Some(v) => v,
        None => 1,
    }
}

/// Text length: the 32-bit field at offset 4.
pub open spec fn text_length_of(rec0: Seq<u8>) -> u32 {
    match spec_be_u32(rec0, 4) {
        Some(v) => v,
        None => 0,
    }
}

/// Text record count: the 16-bit field at offset 8.
pub open spec fn record_count_of(rec0: Seq<u8>) -> u16 {
    match spec_be_u16(rec0, 8) {
        Some(v) => v,
        None => 0,
    }
}

/// Text encoding code: the 32-bit field twelve bytes into the MOBI header.
pub open spec fn text_encoding_of(rec0: Seq<u8>) -> Option<u32> {
    match mobi_offset(rec0) {
        Some(p) => spec_be_u32(rec0, p + 0x0c),
        None => None,
    }
}

/// Extra-data flags: the 16-bit field at offset `0xF2` of record 0,
/// wherever the MOBI header begins.
pub open spec fn extra_flags_of(rec0: Seq<u8>) -> u16 {
    match spec_be_u16(rec0, 0xf2) {
        Some(v) => v,
        None => 0,
    }
}

/// The first image field as it is stored: the signed 32-bit field `0x6C`
/// bytes into the MOBI header, which is taken to begin at offset 0 where
/// its magic is missing. `None` where record 0 is too short to hold it.
pub open spec fn stored_first_image(rec0: Seq<u8>) -> Option<i32> {
    let base = match mobi_offset(rec0) {
        Some(p) => p,
        None => 0,
    };
    match spec_be_u32(rec0, base + 0x6c) {
        Some(v) => Some(as_signed(v) as i32),
        None => None,
    }
}

/// Whether a stored first image field says nothing: it is absent, 0 or -1.
pub open spec fn index_unset(stored: Option<i32>) -> bool {
    stored is None || stored == Some(0i32) || stored == Some(-1i32)
}

/// The first image index that record 0 declares: the stored field,
/// unless that says nothing.
pub open spec fn declared_first_image(rec0: Seq<u8>) -> Option<i32> {
    if index_unset(stored_first_image(rec0)) {
        None
    } else {
        stored_first_image(rec0)
    }
}

/// The header that record 0 holds.
pub open spec fn header_of(rec0: Seq<u8>) -> Record0Header {
    Record0Header {
        compression: compression_of(rec0),
        text_length: text_length_of(rec0),
        record_count: record_count_of(rec0),
        mobi_offset: match mobi_offset(rec0) {
            Some(p) => Some(p as usize),
            None => None,
        },
        text_encoding: text_encoding_of(rec0),
        extra_flags: extra_flags_of(rec0),
        first_image_index: declared_first_image(rec0),
    }
}

/// The first position from `p` on where the magic stands is a position
/// where it stands, and it stands nowhere between `p` and there.
pub proof fn lemma_first_magic_is_first(rec0: Seq<u8>, p: int)
    requires
        0 <= p,
    ensures
        match first_magic_from(rec0, p) {
            Some(q) => p <= q && magic_at(rec0, q) && forall|k: int|
                p <= k < q ==> !magic_at(rec0, k),
            None => forall|k: int| p <= k ==> !magic_at(rec0, k),
        },
    decreases rec0.len() - p,
{
    if p + 4 <= rec0.len() && !magic_at(rec0, p) {
        lemma_first_magic_is_first(rec0, p + 1);
    }
}

/// Finds the MOBI header in record 0 by its magic.
pub fn find_mobi_header_offset(rec0: &[u8]) -> (r: Option<usize>)
    ensures
        match r {
            Some(p) => mobi_offset(rec0@) == Some(p as int) && p + 4 <= rec0@.len(),
            None => mobi_offset(rec0@) is None,
        },
{
    let n: usize = rec0.len();
    if n < 4 {
        return None;
    }
    let mut p: usize = 0;
    while p <= n - 4
        invariant
            n == rec0@.len(),
            n >= 4,
            p <= n - 3,
            first_magic_from(rec0@, p as int) == mobi_offset(rec0@),
        decreases n - p,
    {
        if rec0[p] == 0x4d && rec0[p + 1] == 0x4f && rec0[p + 2] == 0x42 && rec0[p + 3] == 0x49 {
            return Some(p);
        }
        p += 1;
    }
    None
}

/// The text encoding code of the MOBI header.
pub fn mobi_text_encoding(rec0: &[u8]) -> (r: Option<u32>)
    ensures
        r == text_encoding_of(rec0@),
{
    let n: usize = rec0.len();
    match find_mobi_header_offset(rec0) {
        Some(p) => {
            if p > n - 4 || p > usize::MAX - 0x0c {
                None
            } else {
                be_u32(rec0, p + 0x0c)
            }
        },
        None => None,
    }
}

/// The extra-data flag word of record 0; zero where record 0 is too short.
pub fn mobi_extra_data_flags(rec0: &[u8]) -> (r: u16)
    ensures
        r == extra_flags_of(rec0@),
{
    match be_u16(rec0, EXTRA_FLAGS_OFFSET) {
        Some(v) => v,
        None => 0,
    }
}

/// Reads a 32-bit field as a signed number.
pub fn signed_of(v: u32) -> (r: i32)
    ensures
        r as int == as_signed(v),
{
    if v >= 0x8000_0000 {
        let below: u32 = 0xffff_ffff - v;
        -(below as i32) - 1
    } else {
        v as i32
    }
}

/// The first image field of record 0 as it is stored, 0 and -1 included.
pub fn stored_first_image_index(rec0: &[u8]) -> (r: Option<i32>)
    ensures
        r == stored_first_image(rec0@),
{
    let base: usize = match find_mobi_header_offset(rec0) {
        Some(p) => p,
        None => 0,
    };
    if base > rec0.len() || base > usize::MAX - 0x6c {
        return None;
    }
    match be_u32(rec0, base + 0x6c) {
        Some(v) => Some(signed_of(v)),
        None => None,
    }
}

/// The first image index that record 0 declares; `None` where the stored
/// field is absent, 0 or -1.
pub fn mobi_first_image_index(rec0: &[u8]) -> (r: Option<i32>)
    ensures
        r == declared_first_image(rec0@),
        r != Some(0i32),
        r != Some(-1i32),
{
    match stored_first_image_index(rec0) {
        Some(v) => if v == 0 || v == -1 {
            None
        } else {
            Some(v)
        },
        None => None,
    }
}

impl Record0Header {
    /// Reads the header fields out of record 0.
    pub fn read(rec0: &[u8]) -> (h: Record0Header)
        ensures
            h == header_of(rec0@),
    {
        let compression: u16 = match be_u16(rec0, 0) {
            Some(v) => v,
            None => COMPRESSION_NONE,
        };
        let text_length: u32 = match be_u32(rec0, 4) {
            Some(v) => v,
            None => 0,
        };
        let record_count: u16 = match be_u16(rec0, 8) {
            Some(v) => v,
            None => 0,
        };
        Record0Header {
            compression,
            text_length,
            record_count,
            mobi_offset: find_mobi_header_offset(rec0),
            text_encoding: mobi_text_encoding(rec0),
            extra_flags: mobi_extra_data_flags(rec0),
            first_image_index: mobi_first_image_index(rec0),
        }
    }
}

/// The fault that stops the decoding of a container: a structural fault
/// of the record table, or a header that declares no text.
pub open spec fn parse_fault(bytes: Seq<u8>) -> Option<BooksError> {
    if table_fault(bytes) is Some {
        table_fault(bytes)
    } else if record_count_of(record_bytes(bytes, 0)) == 0 {
        Some(BooksError::NoTextRecords)
    } else {
        None
    }
}

/// Reads the header and the record table of a container.
pub fn parse(bytes: &[u8]) -> (r: Result<(Record0Header, RecordOffsetTable), BooksError>)
    ensures
        match r {
            Ok((header, table)) => parse_fault(bytes@) is None && header == header_of(
                record_bytes(bytes@, 0),
            ) && table.describes(bytes@),
            Err(e) => parse_fault(bytes@) == Some(e),
        },
{
    let table = match RecordOffsetTable::read(bytes) {
        Ok(t) => t,
        Err(e) => {
            return Err(e);
        },
    };
    let rec0: &[u8] = match table.record(bytes, 0) {
        Some(data) => data,
        None => {
            return Err(BooksError::InvalidRecordZero);
        },
    };
    let header = Record0Header::read(rec0);
    if header.record_count == 0 {
        return Err(BooksError::NoTextRecords);
    }
    Ok((header, table))
}

} // verus!
