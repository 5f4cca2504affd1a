//! The book functions under one roof: everything that turns the bytes of
//! a container, or of stored HTML, into text to show.

pub use crate::asset::{asset_extension, image_data_url};
pub use crate::bytes::{be_u16, be_u32};
pub use crate::cached::{
    detect_html_encoding, extract_label, needs_regeneration, read_html_string_from_bytes,
};
pub use crate::encoding::{decode_mobi_text, encoding_from_bom};
pub use crate::error::BooksError;
pub use crate::extract::extract_mobi_to_html;
pub use crate::header::{find_mobi_header_offset, mobi_extra_data_flags, mobi_text_encoding};
pub use crate::html::escape_html;
pub use crate::image::detect_image_format;
pub use crate::locator::extract_mobi_images;
pub use crate::mojibake::{fix_mojibake, looks_like_mojibake};
pub use crate::palmdoc::palmdoc_decompress;
pub use crate::text::{
    contains_replacement, has_invalid_controls, has_many_replacements, replacement_count,
    strip_invalid_controls,
};
pub use crate::trailer::trim_trailing_record_data;
