//! Decoder for a legacy spreadsheet binary container — a flat stream of
//! tagged, length-prefixed records — together with a dual-indexed sparse
//! spreadsheet that can be queried by row or by column.
//!
//! The pipeline is: bytes → framer (`(tag, len, payload)` triples) →
//! decoder (typed [`records::Record`] values) → consumer folds cell
//! records into a [`sheet::Sheet`].

pub mod bytes;
pub mod decoder;
pub mod framer;
pub mod records;
pub mod sheet;
