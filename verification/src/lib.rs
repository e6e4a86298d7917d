//! Decoding and encoding of Base64, hexadecimal, Base32, URL percent-encoding
//! and Ascii85 text, with detection of the encoding in use, resolution of
//! nested encodings and scanning of JSON and XML documents for encoded values.

pub mod decoder;
pub mod encoding;
pub mod error;
pub mod input;
pub mod interactive;
pub mod metadata;
pub mod output;
pub mod text;

pub use error::DecodeckError;
