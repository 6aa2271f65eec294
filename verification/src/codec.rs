//! The pluggable compressor: parquet2's codec registry, behind a single
//! trusted call. Whether a codec is available, and what bytes it emits, is
//! the codec's business; everything this library states about a page holds
//! whatever comes back.

use vstd::prelude::*;
use crate::page::CompressionCodec;
use parquet2::compression::CompressionOptions;

verus! {

/// parquet2's error type, carried through opaquely and mapped to this
/// library's own error by the caller.
#[verifier::external_type_specification]
#[verifier::external_body]
pub struct ExParquetError(parquet2::error::Error);

/// Relies on parquet2's `compression::compress`: it appends the chosen
/// codec's output for `input` to a fresh buffer, or reports an error (among
/// others, when the codec's feature is not compiled in, and always for
/// `Uncompressed`, which a caller must handle without compressing). Nothing
/// is assumed about the bytes a codec emits.
#[verifier::external_body]
pub(crate) fn compress_bytes(codec: &CompressionCodec, input: &Vec<u8>) -> Result<
    Vec<u8>,
    parquet2::error::Error,
> {
    let options = match codec {
        CompressionCodec::Uncompressed => CompressionOptions::Uncompressed,
        CompressionCodec::Snappy => CompressionOptions::Snappy,
        CompressionCodec::Gzip => CompressionOptions::Gzip(None),
        CompressionCodec::Lzo => CompressionOptions::Lzo,
        CompressionCodec::Brotli => CompressionOptions::Brotli(None),
        CompressionCodec::Lz4 => CompressionOptions::Lz4,
        CompressionCodec::Zstd => CompressionOptions::Zstd(None),
        CompressionCodec::Lz4Raw => CompressionOptions::Lz4Raw,
    };
    let mut out: Vec<u8> = Vec::new();
    match parquet2::compression::compress(options, input, &mut out) {
        Ok(()) => Ok(out),
        Err(e) => Err(e),
    }
}

} // verus!
