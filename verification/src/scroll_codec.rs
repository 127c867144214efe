//! The framing of the rollup's data-availability chunks.

pub mod batch_header;
pub mod chunk;
