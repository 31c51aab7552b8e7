//! A reader, writer and image decoder for the SilverDB resource-database
//! format found in embedded media-player firmware.
//!
//! The container codec ([`format`], [`database`]) parses and regenerates
//! the offset-addressed binary layout: a fixed header, a section header
//! table, per-section resource tables, and raw payloads, with section
//! metadata addressed from the file start and payloads addressed from the
//! end of the header region. The bitmap modules ([`bitmap`]) parse the
//! firmware-dependent bitmap header shapes and decode the historical raw
//! pixel encodings into a canonical raster, re-encoded as a PNG.
//!
//! Reading back a written database reproduces its sections, signatures,
//! flags, resource identifiers and contents; the proof lives in
//! [`roundtrip`] and [`database`].

pub mod bitmap;
pub mod database;
pub mod format;
pub mod little_helper;
pub mod roundtrip;
pub mod section_content;
pub mod section_types;
pub mod silver_error;
pub mod text;
