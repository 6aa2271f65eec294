//! Encoding of one in-memory primitive column, possibly with nulls, into a
//! single self-contained v1 data page: a length-prefixed definition-level
//! stream followed by the little-endian bytes of the present values, the
//! whole blob optionally compressed, bundled with a header that describes it.

pub mod codec;
pub mod column;
pub mod levels;
pub mod native;
pub mod page;
pub mod read;
pub mod write;

