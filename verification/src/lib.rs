//! Repair of MPEG audio frame streams extracted from FSB5 sound banks.
//!
//! Some FSB5 encoders insert inter-frame alignment padding and zero runs
//! that are not valid MPEG stream content. The scanner in [`mpeg_fix`]
//! walks a raw byte buffer, keeps every valid frame verbatim, and drops
//! everything between frames, so that downstream decoders see a contiguous
//! elementary stream. The error types in [`mpeg`] belong to the thin I/O
//! boundary around the scanner.

pub mod laws;
pub mod mpeg;
pub mod mpeg_fix;
