//! The ZIP-based is2 format: an archive of protobuf, JSON and raw files.

pub mod decode;
pub mod files;
pub mod format;

pub use decode::{SerendipZip, ThermalData, decode_zip_format};
