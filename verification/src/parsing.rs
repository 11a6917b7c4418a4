//! Decoding of the is2 container formats.

pub mod protobuf;
pub mod zip_format;
