//! The PDB container: its record offset table and the combined
//! PalmDOC and MOBI header held in record 0.

use crate::bytes::{be16, be32, be_u16, be_u32};
use crate::error::BooksError;
use vstd::prelude::*;
use vstd::slice::slice_subrange;

verus! {

/// Offset of the record count in the PDB header.
pub const NUM_RECORDS_OFFSET: usize = 76;

/// Offset of the first entry of the record table.
pub const RECORD_TABLE_OFFSET: usize = 78;

/// Size of one entry of the record table; its first four bytes are the
/// record's start offset.
pub const RECORD_ENTRY_SIZE: usize = 8;

/// Smallest buffer that holds a PDB header and one table entry.
pub const MIN_CONTAINER_LEN: usize = 80;

/// Number of records that the PDB header declares.
pub open spec fn declared_records(bytes: Seq<u8>) -> int
    recommends
        bytes.len() >= 78,
{
    be16(bytes[76], bytes[77])
}

/// Whether the whole record table lies inside the buffer.
pub open spec fn table_fits(bytes: Seq<u8>) -> bool {
    bytes.len() >= 78 + 8 * declared_records(bytes)
}

/// Start offset of record `i`. Past the last record stands a sentinel:
/// the length of the buffer.
pub open spec fn record_offset(bytes: Seq<u8>, i: int) -> int {
    if 0 <= i < declared_records(bytes) {
        be32(bytes[78 + 8 * i], bytes[79 + 8 * i], bytes[80 + 8 * i], bytes[81 + 8 * i])
    } else {
        bytes.len() as int
    }
}

/// Whether record `i` is non-empty and lies inside the buffer.
pub open spec fn record_in_bounds(bytes: Seq<u8>, i: int) -> bool {
    &&& 0 <= i < declared_records(bytes)
    &&& record_offset(bytes, i) < record_offset(bytes, i + 1)
    &&& record_offset(bytes, i + 1) <= bytes.len()
}

/// The bytes of record `i`.
pub open spec fn record_bytes(bytes: Seq<u8>, i: int) -> Seq<u8>
    recommends
        record_in_bounds(bytes, i),
{
    bytes.subrange(record_offset(bytes, i), record_offset(bytes, i + 1))
}

/// The structural fault of a container, if it has one.
pub open spec fn table_fault(bytes: Seq<u8>) -> Option<BooksError> {
    if bytes.len() < 80 {
        Some(BooksError::TooSmall)
    } else if !table_fits(bytes) {
        Some(BooksError::InvalidHeader)
    } else if !record_in_bounds(bytes, 0) {
        Some(BooksError::InvalidRecordZero)
    } else {
        None
    }
}

/// The start offsets of all records of a container, followed by the
/// length of the container.
#[derive(Debug, Clone, PartialEq, Eq)]
pub struct RecordOffsetTable {
    pub offsets: Vec<usize>,
}

impl RecordOffsetTable {
    /// Whether this table is the one that `bytes` holds.
    pub open spec fn describes(&self, bytes: Seq<u8>) -> bool {
        &&& bytes.len() >= 78
        &&& table_fits(bytes)
        &&& self.offsets@.len() == declared_records(bytes) + 1
        &&& forall|i: int|
            0 <= i < self.offsets@.len() ==> #[trigger] self.offsets@[i] as int == record_offset(
                bytes,
                i,
            )
    }

    /// Reads the record table of a container.
    pub fn read(bytes: &[u8]) -> (r: Result<RecordOffsetTable, BooksError>)
        ensures
            match r {
                Ok(table) => bytes@.len() >= 80 && table_fits(bytes@) && table.describes(bytes@),
                Err(e) => (bytes@.len() < 80 && e == BooksError::TooSmall) || (bytes@.len() >= 80
                    && !table_fits(bytes@) && e == BooksError::InvalidHeader),
            },
    {
        let len: usize = bytes.len();
        if len < MIN_CONTAINER_LEN {
            return Err(BooksError::TooSmall);
        }
        let count: usize = match be_u16(bytes, NUM_RECORDS_OFFSET) {
            Some(n) => n as usize,
            None => {
                return Err(BooksError::InvalidHeader);
            },
        };
        if len < RECORD_TABLE_OFFSET + count * RECORD_ENTRY_SIZE {
            return Err(BooksError::InvalidHeader);
        }
        let mut offsets: Vec<usize> = Vec::with_capacity(count + 1);
        let mut i: usize = 0;
        while i < count
            invariant
                i <= count,
                count == declared_records(bytes@),
                len == bytes@.len(),
                len >= 78 + 8 * count,
                offsets@.len() == i,
                forall|k: int|
                    0 <= k < i ==> #[trigger] offsets@[k] as int == record_offset(bytes@, k),
            decreases count - i,
        {
            let at: usize = RECORD_TABLE_OFFSET + i * RECORD_ENTRY_SIZE;
            let start: usize = match be_u32(bytes, at) {
                Some(o) => o as usize,
                None => {
                    return Err(BooksError::InvalidHeader);
                },
            };
            offsets.push(start);
            i += 1;
        }
        offsets.push(len);
        Ok(RecordOffsetTable { offsets })
    }

    /// The bytes of record `i`, or `None` where the table has no such
    /// record or the record is empty or reaches past the buffer.
    pub fn record<'a>(&self, bytes: &'a [u8], i: usize) -> (r: Option<&'a [u8]>)
        requires
            self.describes(bytes@),
        ensures
            match r {
                Some(data) => record_in_bounds(bytes@, i as int) && data@ == record_bytes(
                    bytes@,
                    i as int,
                ),
                None => !record_in_bounds(bytes@, i as int),
            },
    {
        let n: usize = self.offsets.len();
        if i >= n - 1 {
            return None;
        }
        let start: usize = self.offsets[i];
        let end: usize = self.offsets[i + 1];
        if end <= start || end > bytes.len() {
            return None;
        }
        Some(slice_subrange(bytes, start, end))
    }
}

} // verus!
