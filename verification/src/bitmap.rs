//! Decoding of bitmap resources: the firmware-dependent header shapes and
//! the raw pixel encodings they carry.

pub mod format;
pub mod image;
pub mod pixels;
