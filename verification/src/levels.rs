//! The definition-level stream: the per-slot presence flags, encoded with
//! parquet2's hybrid RLE/bit-packed encoder.

use vstd::prelude::*;
use crate::page::PageError;

verus! {

/// The byte stream that parquet2's hybrid RLE/bit-packed encoder produces for
/// a sequence of flags. The exact bytes are data-dependent (the encoder picks
/// runs or bit-packed groups), so they are only named here; they are a
/// function of the flags alone.
pub uninterp spec fn hybrid_rle_of(bits: Seq<bool>) -> Seq<u8>;

/// Relies on parquet2's `encoding::hybrid_rle::encode_bool`: it writes a
/// self-describing hybrid RLE/bit-packed stream for the flags — a uleb128
/// header of at most 10 bytes, then the flags packed eight to a byte — and
/// the bytes written depend on the flags alone. Its only failure paths are
/// the sink's writes, and a plain `Vec` sink never fails, so the call always
/// returns `Ok` here; an encoder failure would still be propagated unchanged.
#[verifier::external_body]
pub(crate) fn encode_hybrid_rle(bits: &Vec<bool>) -> (r: Result<Vec<u8>, PageError>)
    ensures
        r is Ok,
        r.unwrap()@ == hybrid_rle_of(bits@),
        r.unwrap()@.len() <= 10 + bits@.len(),
{
    let mut out: Vec<u8> = Vec::new();
    match parquet2::encoding::hybrid_rle::encode_bool(&mut out, bits.iter().copied()) {
        Ok(()) => Ok(out),
        Err(_) => Err(PageError::EncodingFailure),
    }
}

} // verus!
