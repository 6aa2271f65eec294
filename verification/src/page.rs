//! The produced page value and its metadata, and the two ways page
//! construction can fail.

use vstd::prelude::*;

verus! {

/// Value encodings a page header can name. A v1 data page built here always
/// uses `Plain` for the values and `Rle` for both level streams.
#[derive(Clone, Copy, PartialEq, Eq, Structural, Debug)]
pub enum Encoding {
    Plain,
    Rle,
}

/// The compression codec selector handed in by the caller and recorded in the
/// page. `Uncompressed` means the blob is stored as built.
#[derive(Clone, Copy, PartialEq, Eq, Structural, Debug)]
pub enum CompressionCodec {
    Uncompressed,
    Snappy,
    Gzip,
    Lzo,
    Brotli,
    Lz4,
    Zstd,
    Lz4Raw,
}

/// The header of a v1 data page.
#[derive(Clone, Copy, PartialEq, Eq, Structural, Debug)]
pub struct DataPageHeader {
    /// Total slot count of the encoded column, nulls included.
    pub num_values: i32,
    /// Encoding of the value payload.
    pub encoding: Encoding,
    /// Encoding of the definition-level stream.
    pub definition_level_encoding: Encoding,
    /// Encoding of the repetition-level stream.
    pub repetition_level_encoding: Encoding,
}

/// A v1 data page: the (possibly compressed) bytes and the metadata that
/// describes them.
#[derive(Clone, Debug)]
pub struct PageV1 {
    /// The stored bytes: the page blob, compressed when `compression` says so.
    pub buffer: Vec<u8>,
    pub header: DataPageHeader,
    /// The codec the blob was run through; `Uncompressed` for none.
    pub compression: CompressionCodec,
    /// Byte length of the blob before any compression step.
    pub uncompressed_page_size: usize,
}

/// A finished page, by format version.
#[derive(Clone, Debug)]
pub enum CompressedPage {
    V1(PageV1),
}

impl CompressedPage {
    /// The v1 page held inside.
    pub open spec fn v1(self) -> PageV1 {
        match self {
            CompressedPage::V1(p) => p,
        }
    }

    /// Take the v1 page out.
    pub fn into_v1(self) -> (r: PageV1)
        ensures
            r == self.v1(),
    {
        match self {
            CompressedPage::V1(p) => p,
        }
    }
}

/// Why page construction failed. No partial page is ever returned.
#[derive(Clone, Copy, PartialEq, Eq, Structural, Debug)]
pub enum PageError {
    /// The definition-level encoder rejected the validity sequence. It would
    /// be propagated unchanged; the encoder in use writes to an in-memory
    /// sink and cannot fail, so no admitted input produces this error.
    EncodingFailure,
    /// The chosen codec could not compress the assembled blob.
    CompressionFailure { codec: CompressionCodec, input_size: usize },
}

} // verus!
