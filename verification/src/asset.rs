//! Image records as assets: under which name each is stored, which record
//! a reference in the document means, and how an image is handed to the
//! page.

use crate::image::{extension_of, image_format, image_format_of};
use crate::types::same_text;
use vstd::prelude::*;
use vstd::string::StringExecFns;

verus! {

/// The extension under which a record is stored: that of its image
/// format, or `bin` where it has none.
pub open spec fn asset_extension_of(data: Seq<u8>) -> Seq<char> {
    match image_format(data) {
        Some(format) => extension_of(format),
        None => "bin"@,
    }
}

/// Tells the extension under which a record is stored.
pub fn asset_extension(data: &[u8]) -> (r: &'static str)
    ensures
        r@ == asset_extension_of(data@),
{
    match image_format_of(data) {
        Some(format) => format.extension(),
        None => "bin",
    }
}

/// The extensions under which an asset is looked for, in this order.
pub fn asset_extensions() -> (r: Vec<&'static str>)
    ensures
        r@.len() == 4,
        r@[0]@ == "jpg"@,
        r@[1]@ == "png"@,
        r@[2]@ == "gif"@,
        r@[3]@ == "bin"@,
{
    vec!["jpg", "png", "gif", "bin"]
}

/// The record that the `relative`-th image of a document is, counted
/// from one, where the first image is record `first`. `None` where that
/// is no record index.
pub open spec fn record_of_image(first: i32, relative: i32) -> Option<int> {
    let index = first as int + relative as int - 1;
    if 0 <= index <= i32::MAX {
        Some(index)
    } else {
        None
    }
}

/// Maps the number of an image in the document to its record index.
pub fn absolute_image_index(first_image_index: i32, relative_index: i32) -> (r: Option<usize>)
    ensures
        match r {
            Some(index) => record_of_image(first_image_index, relative_index) == Some(index as int),
            None => record_of_image(first_image_index, relative_index) is None,
        },
{
    let index: i64 = first_image_index as i64 + relative_index as i64 - 1;
    if 0 <= index && index <= i32::MAX as i64 {
        Some(index as usize)
    } else {
        None
    }
}

/// The media type of an asset, by its extension; JPEG where the
/// extension is not known.
pub open spec fn mime_type_of(extension: Seq<char>) -> Seq<char> {
    if extension == "png"@ {
        "image/png"@
    } else if extension == "gif"@ {
        "image/gif"@
    } else {
        "image/jpeg"@
    }
}

/// Tells the media type of an asset from its extension.
pub fn mime_type(extension: &str) -> (r: &'static str)
    ensures
        r@ == mime_type_of(extension@),
{
    if same_text(extension, "png") {
        "image/png"
    } else if same_text(extension, "gif") {
        "image/gif"
    } else {
        "image/jpeg"
    }
}

/// The longest buffer that is handed to the Base64 encoder.
pub open spec fn fits_base64(len: int) -> bool {
    len <= usize::MAX / 512
}

/// Largest length that `fits_base64` admits.
pub fn base64_limit() -> (r: usize)
    ensures
        forall|len: int| fits_base64(len) <==> len <= r,
{
    usize::MAX / 512
}

/// What `data_encoding::BASE64.encode` returns for a buffer.
pub uninterp spec fn base64_text(bytes: Seq<u8>) -> Seq<char>;

/// Encodes a buffer with `data_encoding::BASE64.encode`, which asserts
/// that the input is no longer than `usize::MAX / 512`.
#[verifier::external_body]
pub(crate) fn base64_encode(bytes: &[u8]) -> (r: String)
    requires
        fits_base64(bytes@.len() as int),
    ensures
        r@ == base64_text(bytes@),
{
    data_encoding::BASE64.encode(bytes)
}

/// The `data:` address of an asset.
pub open spec fn data_url_of(extension: Seq<char>, bytes: Seq<u8>) -> Seq<char> {
    "data:"@ + mime_type_of(extension) + ";base64,"@ + base64_text(bytes)
}

/// Makes the `data:` address that hands an asset to the page.
pub fn image_data_url(extension: &str, bytes: &[u8]) -> (r: String)
    requires
        fits_base64(bytes@.len() as int),
    ensures
        r@ == data_url_of(extension@, bytes@),
{
    let mut url = String::from_str("data:");
    url.append(mime_type(extension));
    url.append(";base64,");
    let encoded = base64_encode(bytes);
    url.append(encoded.as_str());
    url
}

} // verus!
