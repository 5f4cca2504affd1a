//! Decoder for MOBI/PalmDOC e-book containers: record table parsing,
//! PalmDOC decompression, trailer stripping, text decoding and repair,
//! image record discovery and HTML assembly.

pub mod asset;
pub mod books;
pub mod bytes;
pub mod cached;
pub mod citations;
pub mod container;
pub mod db;
pub mod download;
pub mod encoding;
pub mod error;
pub mod extract;
pub mod gutendex;
pub mod header;
pub mod html;
pub mod image;
pub mod locator;
pub mod mojibake;
pub mod openai;
pub mod palmdoc;
pub mod sidecar;
pub mod text;
pub mod trailer;
pub mod types;
