//! Errors of the decoding pipeline.

use vstd::prelude::*;
use vstd::string::StringExecFns;

verus! {

/// Why a container could not be decoded, or why stored HTML is not usable.
#[derive(Debug, Clone, Copy, PartialEq, Eq, Structural)]
pub enum BooksError {
    /// The buffer is shorter than a PDB header with one table entry.
    TooSmall,
    /// The record table announced by the header does not fit in the buffer.
    InvalidHeader,
    /// There is no record 0, or it is empty or reaches past the buffer.
    InvalidRecordZero,
    /// Record 0 declares no text records.
    NoTextRecords,
    /// Stored HTML holds too many replacement characters to be served; it
    /// has to be produced again from the container.
    CorruptHtml,
}

impl BooksError {
    /// A sentence for the user.
    pub fn message(&self) -> (s: String)
        ensures
            s@ == (match *self {
                BooksError::TooSmall => "MOBI extraction error: MOBI file too small"@,
                BooksError::InvalidHeader => "MOBI extraction error: Invalid record list"@,
                BooksError::InvalidRecordZero => "MOBI extraction error: Invalid record 0 bounds"@,
                BooksError::NoTextRecords => "MOBI extraction error: MOBI has no text records"@,
                BooksError::CorruptHtml =>
                    "Cached HTML contains encoding errors, please reload the book"@,
            }),
    {
        match self {
            BooksError::TooSmall => String::from_str("MOBI extraction error: MOBI file too small"),
            BooksError::InvalidHeader => String::from_str(
                "MOBI extraction error: Invalid record list",
            ),
            BooksError::InvalidRecordZero => String::from_str(
                "MOBI extraction error: Invalid record 0 bounds",
            ),
            BooksError::NoTextRecords => String::from_str(
                "MOBI extraction error: MOBI has no text records",
            ),
            BooksError::CorruptHtml => String::from_str(
                "Cached HTML contains encoding errors, please reload the book",
            ),
        }
    }
}

} // verus!
