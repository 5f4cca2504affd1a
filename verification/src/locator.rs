//! Discovery of the image records that follow the text records.

use crate::container::{
    declared_records, record_bytes, record_in_bounds, table_fault, RecordOffsetTable,
};
use crate::error::BooksError;
use crate::header::{
    declared_first_image, index_unset, record_count_of, stored_first_image, Record0Header,
};
use crate::image::{image_format, image_format_of, starts_with3};
use std::collections::HashMap;
use vstd::prelude::*;
use vstd::slice::slice_to_vec;

verus! {

broadcast use vstd::std_specs::hash::group_hash_axioms;

/// Number of text records that record 0 declares.
pub open spec fn text_records(bytes: Seq<u8>) -> int {
    record_count_of(record_bytes(bytes, 0)) as int
}

/// Whether record `i` lies behind the text records, is in bounds and
/// begins with the signature of a known image format.
pub open spec fn is_image_record(bytes: Seq<u8>, i: int) -> bool {
    &&& text_records(bytes) < i < declared_records(bytes)
    &&& record_in_bounds(bytes, i)
    &&& image_format(record_bytes(bytes, i)) is Some
}

/// The lowest index of an image record at or after `i`.
pub open spec fn first_image_from(bytes: Seq<u8>, i: int) -> Option<int>
    decreases declared_records(bytes) - i,
{
    if i >= declared_records(bytes) {
        None
    } else if is_image_record(bytes, i) {
        Some(i)
    } else {
        first_image_from(bytes, i + 1)
    }
}

/// The first image index of a container: the one that the header
/// declares. Where the header says nothing (its field is absent, 0 or
/// -1), the lowest index of an image record that the scan has found, and
/// `None` where it has found none.
pub open spec fn first_image_index(bytes: Seq<u8>) -> Option<i32> {
    match declared_first_image(record_bytes(bytes, 0)) {
        Some(declared) => Some(declared),
        None => match first_image_from(bytes, 0) {
            Some(found) => Some(found as i32),
            None => None,
        },
    }
}

/// The lowest image index from `i` on is the index of an image record, and
/// no record between `i` and it is one.
pub proof fn lemma_first_image_is_first(bytes: Seq<u8>, i: int)
    ensures
        match first_image_from(bytes, i) {
            Some(f) => i <= f && is_image_record(bytes, f) && forall|k: int|
                i <= k < f ==> !#[trigger] is_image_record(bytes, k),
            None => forall|k: int| i <= k ==> !#[trigger] is_image_record(bytes, k),
        },
    decreases declared_records(bytes) - i,
{
    if i < declared_records(bytes) && !is_image_record(bytes, i) {
        lemma_first_image_is_first(bytes, i + 1);
    }
}

/// Finds the image records of a container. The map holds the bytes of
/// every image record under its index.
pub fn extract_mobi_images(bytes: &[u8]) -> (r: Result<
    (HashMap<usize, Vec<u8>>, Option<i32>),
    BooksError,
>)
    ensures
        match r {
            Ok((images, first)) => {
                &&& table_fault(bytes@) is None
                &&& forall|k: usize| #[trigger]
                    images@.contains_key(k) ==> is_image_record(bytes@, k as int)
                &&& forall|k: usize| #[trigger]
                    is_image_record(bytes@, k as int) ==> images@.contains_key(k) && images@[k]@
                        == record_bytes(bytes@, k as int)
                &&& first == first_image_index(bytes@)
            },
            Err(e) => table_fault(bytes@) == Some(e),
        },
{
    let table = match RecordOffsetTable::read(bytes) {
        Ok(t) => t,
        Err(e) => {
            return Err(e);
        },
    };
    let rec0: &[u8] = match table.record(bytes, 0) {
        Some(data) => data,
        None => {
            return Err(BooksError::InvalidRecordZero);
        },
    };
    let header = Record0Header::read(rec0);
    let record_count: usize = header.record_count as usize;
    let declared: Option<i32> = header.first_image_index;
    let num_records: usize = table.offsets.len() - 1;

    let mut images: HashMap<usize, Vec<u8>> = HashMap::new();
    let mut first_found: Option<i32> = None;
    let mut i: usize = record_count + 1;
    while i < num_records
        invariant
            table.describes(bytes@),
            num_records == declared_records(bytes@),
            record_count == text_records(bytes@),
            record_count < i,
            num_records <= 65535,
            forall|k: usize| #[trigger]
                images@.contains_key(k) ==> k < i && is_image_record(bytes@, k as int),
            forall|k: usize|
                k < i && #[trigger] is_image_record(bytes@, k as int) ==> images@.contains_key(k)
                    && images@[k]@ == record_bytes(bytes@, k as int),
            match first_found {
                Some(f) => f < i && is_image_record(bytes@, f as int) && forall|k: int|
                    0 <= k < f ==> !#[trigger] is_image_record(bytes@, k),
                None => forall|k: int| 0 <= k < i ==> !#[trigger] is_image_record(bytes@, k),
            },
        decreases num_records - i,
    {
        match table.record(bytes, i) {
            Some(data) => {
                if image_format_of(data).is_some() {
                    if first_found.is_none() {
                        first_found = Some(i as i32);
                    }
                    images.insert(i, slice_to_vec(data));
                }
            },
            None => {},
        }
        i += 1;
    }
    proof {
        lemma_first_image_is_first(bytes@, 0);
    }
    let first: Option<i32> = match declared {
        Some(v) => Some(v),
        None => first_found,
    };
    Ok((images, first))
}

/// The first image index is never one of the values that mean "unset":
/// it is the index that the header declares, or that of an image record,
/// which lies behind record 0, or there is none.
pub proof fn lemma_first_image_index_is_set(bytes: Seq<u8>)
    ensures
        first_image_index(bytes) != Some(0i32),
        first_image_index(bytes) != Some(-1i32),
        declared_first_image(record_bytes(bytes, 0)) is None && (forall|k: int|
            !#[trigger] is_image_record(bytes, k)) ==> first_image_index(bytes) is None,
{
    lemma_first_image_is_first(bytes, 0);
    match first_image_from(bytes, 0) {
        Some(found) => {
            assert(is_image_record(bytes, found));
            assert(0 < found < 65536);
        },
        None => {},
    }
}

/// A record behind the text records that is in bounds and begins with
/// `FF D8 FF` is in the image map; and where the header's first image
/// index is unset and no image record precedes it, it is the first image
/// index.
pub proof fn lemma_jpeg_record_is_located(bytes: Seq<u8>, k: int)
    requires
        table_fault(bytes) is None,
        text_records(bytes) < k < declared_records(bytes),
        record_in_bounds(bytes, k),
        starts_with3(record_bytes(bytes, k), 0xff, 0xd8, 0xff),
    ensures
        is_image_record(bytes, k),
        index_unset(stored_first_image(record_bytes(bytes, 0))) && (forall|j: int|
            0 <= j < k ==> !#[trigger] is_image_record(bytes, j)) ==> first_image_index(bytes) == Some(
            k as i32,
        ),
{
    lemma_first_image_is_first(bytes, 0);
    assert(is_image_record(bytes, k));
    if forall|j: int| 0 <= j < k ==> !#[trigger] is_image_record(bytes, j) {
        match first_image_from(bytes, 0) {
            Some(f) => {
                if f < k {
                    assert(!is_image_record(bytes, f));
                }
                if k < f {
                    assert(!is_image_record(bytes, k));
                }
                assert(f == k);
            },
            None => {
                assert(!is_image_record(bytes, k));
            },
        }
    }
}

} // verus!
