//! Verified core of a reader for marker-delimited thermal-image container
//! streams.
//!
//! The container holds a sequence of embedded frames, each opened by a fixed
//! six-byte marker.  This crate verifies the parts of the reader that are
//! easy to get subtly wrong: locating markers in a block of bytes
//! ([`marker`]), splitting an unbounded stream into frames while carrying
//! bytes across block boundaries ([`splitter`]), and parsing per-frame
//! calibration metadata from key/value string pairs ([`exif`]).  The
//! numerical radiometric conversion and all I/O live outside the verified
//! library.

pub mod bytes;
pub mod exif;
pub mod marker;
pub mod splitter;
pub mod stream;
pub mod token;
