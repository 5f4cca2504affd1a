//! Recognition of embedded raster images by their leading bytes.

use vstd::prelude::*;

verus! {

/// The raster formats that a record may hold.
#[derive(Debug, Clone, Copy, PartialEq, Eq, Structural)]
pub enum ImageFormat {
    Jpeg,
    Png,
    Gif,
}

/// Whether `data` begins with the three bytes `a`, `b`, `c`.
pub open spec fn starts_with3(data: Seq<u8>, a: u8, b: u8, c: u8) -> bool {
    data.len() >= 3 && data[0] == a && data[1] == b && data[2] == c
}

/// Whether `data` begins with the four bytes `a`, `b`, `c`, `d`.
pub open spec fn starts_with4(data: Seq<u8>, a: u8, b: u8, c: u8, d: u8) -> bool {
    data.len() >= 4 && data[0] == a && data[1] == b && data[2] == c && data[3] == d
}

/// The format that the leading bytes of `data` announce: `FF D8 FF` for
/// JPEG, `89 50 4E 47` for PNG, `47 49 46 38` for GIF.
pub open spec fn image_format(data: Seq<u8>) -> Option<ImageFormat> {
    if starts_with3(data, 0xff, 0xd8, 0xff) {
        Some(ImageFormat::Jpeg)
    } else if starts_with4(data, 0x89, 0x50, 0x4e, 0x47) {
        Some(ImageFormat::Png)
    } else if starts_with4(data, 0x47, 0x49, 0x46, 0x38) {
        Some(ImageFormat::Gif)
    } else {
        None
    }
}

/// File extension of a format.
pub open spec fn extension_of(format: ImageFormat) -> Seq<char> {
    match format {
        ImageFormat::Jpeg => "jpg"@,
        ImageFormat::Png => "png"@,
        ImageFormat::Gif => "gif"@,
    }
}

impl ImageFormat {
    /// The file extension under which an image of this format is stored.
    pub fn extension(self) -> (s: &'static str)
        ensures
            s@ == extension_of(self),
    {
        match self {
            ImageFormat::Jpeg => "jpg",
            ImageFormat::Png => "png",
            ImageFormat::Gif => "gif",
        }
    }
}

/// Tells the image format of a record from its signature.
pub fn image_format_of(data: &[u8]) -> (r: Option<ImageFormat>)
    ensures
        r == image_format(data@),
{
    let n: usize = data.len();
    if n >= 3 && data[0] == 0xff && data[1] == 0xd8 && data[2] == 0xff {
        Some(ImageFormat::Jpeg)
    } else if n >= 4 && data[0] == 0x89 && data[1] == 0x50 && data[2] == 0x4e && data[3] == 0x47 {
        Some(ImageFormat::Png)
    } else if n >= 4 && data[0] == 0x47 && data[1] == 0x49 && data[2] == 0x46 && data[3] == 0x38 {
        Some(ImageFormat::Gif)
    } else {
        None
    }
}

/// The file extension (`jpg`, `png` or `gif`) of the image that `data`
/// holds, or `None` where it holds no known image.
pub fn detect_image_format(data: &[u8]) -> (r: Option<&'static str>)
    ensures
        match r {
            Some(ext) => image_format(data@) is Some && ext@ == extension_of(
                image_format(data@).unwrap(),
            ),
            None => image_format(data@) is None,
        },
{
    match image_format_of(data) {
        Some(format) => Some(format.extension()),
        None => None,
    }
}

/// A record that begins with `FF D8 FF` is a JPEG image.
pub proof fn lemma_jpeg_signature(data: Seq<u8>)
    requires
        starts_with3(data, 0xff, 0xd8, 0xff),
    ensures
        image_format(data) == Some(ImageFormat::Jpeg),
{
}

} // verus!
