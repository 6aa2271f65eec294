//! Building the page: the value payload, the length-prefixed definition-level
//! sub-buffer, and the one-shot transform from a column to a v1 data page.

use vstd::prelude::*;
use crate::codec::compress_bytes;
use crate::column::PrimitiveArray;
use crate::levels::{encode_hybrid_rle, hybrid_rle_of};
use crate::native::NativeType;
use crate::page::{CompressedPage, CompressionCodec, DataPageHeader, Encoding, PageError, PageV1};

verus! {

/// The value payload of a column: the little-endian bytes of every present
/// value, in slot order; absent slots contribute nothing.
pub open spec fn payload_of<T: NativeType>(opts: Seq<Option<T>>) -> Seq<u8>
    decreases opts.len(),
{
    if opts.len() == 0 {
        Seq::empty()
    } else {
        (match opts[0] {
            Some(v) => v.le_bytes(),
            None => Seq::empty(),
        }) + payload_of(opts.skip(1))
    }
}

/// How many slots hold a present value.
pub open spec fn count_present<T>(opts: Seq<Option<T>>) -> int
    decreases opts.len(),
{
    if opts.len() == 0 {
        0
    } else {
        (if opts[0] is Some {
            1int
        } else {
            0int
        }) + count_present(opts.skip(1))
    }
}

/// The encoded definition-level stream of a column: the hybrid-RLE bytes of
/// its validity flags, or nothing at all when the column has no validity
/// indicator.
pub open spec fn encoded_def_levels<T: NativeType>(a: PrimitiveArray<T>) -> Seq<u8> {
    match a.validity {
        Some(v) => hybrid_rle_of(v@),
        None => Seq::empty(),
    }
}

/// A length-prefixed frame: the 4-byte little-endian byte count of `enc`,
/// followed by `enc` itself.
pub open spec fn def_levels_frame(enc: Seq<u8>) -> Seq<u8> {
    vstd::bytes::spec_u32_to_le_bytes(enc.len() as u32) + enc
}

/// The whole uncompressed page blob of a column: the framed definition-level
/// stream, then the value payload.
pub open spec fn page_blob<T: NativeType>(a: PrimitiveArray<T>) -> Seq<u8> {
    def_levels_frame(encoded_def_levels(a)) + payload_of(a.opts())
}

/// The value payload's length is the count of present values times the value
/// width: absent slots contribute no bytes at all.
pub proof fn lemma_payload_len<T: NativeType>(opts: Seq<Option<T>>)
    ensures
        payload_of(opts).len() == count_present(opts) * T::spec_width(),
        0 <= count_present(opts) <= opts.len(),
    decreases opts.len(),
{
    if opts.len() == 0 {
    } else {
        lemma_payload_len::<T>(opts.skip(1));
        let c = count_present(opts.skip(1));
        let w = T::spec_width();
        match opts[0] {
            Some(v) => {
                v.lemma_le_bytes_len();
                assert((1 + c) * w == w + c * w) by (nonlinear_arith);
            },
            None => {
            },
        }
    }
}

/// For a column with no absent value, the payload length is the slot count
/// times the value width.
pub proof fn lemma_payload_len_no_nulls<T: NativeType>(opts: Seq<Option<T>>)
    requires
        forall|i: int| 0 <= i < opts.len() ==> opts[i] is Some,
    ensures
        payload_of(opts).len() == opts.len() * T::spec_width(),
    decreases opts.len(),
{
    lemma_payload_len::<T>(opts);
    lemma_count_present_all(opts);
}

/// A column with every slot present has as many present values as slots.
pub proof fn lemma_count_present_all<T>(opts: Seq<Option<T>>)
    requires
        forall|i: int| 0 <= i < opts.len() ==> opts[i] is Some,
    ensures
        count_present(opts) == opts.len(),
    decreases opts.len(),
{
    if opts.len() == 0 {
    } else {
        assert(forall|i: int|
            0 <= i < opts.skip(1).len() ==> opts.skip(1)[i] == opts[i + 1] && opts[i + 1] is Some);
        lemma_count_present_all(opts.skip(1));
    }
}

/// The layout of the uncompressed blob: its first 4 bytes, read as a
/// little-endian unsigned integer, are exactly the byte length of the encoded
/// definition-level stream that immediately follows them, and the value
/// payload is everything after that stream.
pub proof fn lemma_blob_layout<T: NativeType>(a: PrimitiveArray<T>)
    requires
        a.wf(),
        encoded_def_levels(a).len() <= u32::MAX,
    ensures
        page_blob(a).len() == 4 + encoded_def_levels(a).len() + payload_of(a.opts()).len(),
        page_blob(a).subrange(0, 4) == vstd::bytes::spec_u32_to_le_bytes(
            encoded_def_levels(a).len() as u32,
        ),
        vstd::bytes::spec_u32_from_le_bytes(page_blob(a).subrange(0, 4)) == encoded_def_levels(
            a,
        ).len(),
        page_blob(a).subrange(4, 4 + encoded_def_levels(a).len() as int) == encoded_def_levels(a),
        page_blob(a).skip(4 + encoded_def_levels(a).len() as int) == payload_of(a.opts()),
{
    vstd::bytes::lemma_auto_spec_u32_to_from_le_bytes();
    let e = encoded_def_levels(a);
    let blob = page_blob(a);
    assert(vstd::bytes::spec_u32_to_le_bytes(e.len() as u32).len() == 4);
    assert(blob.subrange(0, 4) =~= vstd::bytes::spec_u32_to_le_bytes(e.len() as u32));
    assert(blob.subrange(4, 4 + e.len() as int) =~= e);
    assert(blob.skip(4 + e.len() as int) =~= payload_of(a.opts()));
}

/// Appending one slot to a column appends that slot's bytes (or nothing) to
/// the payload.
pub proof fn lemma_payload_push<T: NativeType>(opts: Seq<Option<T>>, x: Option<T>)
    ensures
        payload_of(opts.push(x)) == payload_of(opts) + (match x {
            Some(v) => v.le_bytes(),
            None => Seq::<u8>::empty(),
        }),
    decreases opts.len(),
{
    let tail = match x {
        Some(v) => v.le_bytes(),
        None => Seq::<u8>::empty(),
    };
    if opts.len() == 0 {
        assert(opts.push(x)[0] == x);
        assert(opts.push(x).skip(1) =~= Seq::<Option<T>>::empty());
        assert(payload_of(Seq::<Option<T>>::empty()) == Seq::<u8>::empty());
        assert(payload_of(opts) == Seq::<u8>::empty());
        assert(payload_of(opts.push(x)) =~= payload_of(opts) + tail);
    } else {
        assert(opts.push(x)[0] == opts[0]);
        assert(opts.push(x).skip(1) =~= opts.skip(1).push(x));
        lemma_payload_push(opts.skip(1), x);
        assert(payload_of(opts.push(x)) =~= payload_of(opts) + tail);
    }
}

/// Assemble the uncompressed page blob: the 4-byte little-endian length of
/// the already-encoded definition-level stream, the stream itself, then the
/// little-endian bytes of every present value in slot order.
pub fn assemble_page_buffer<T: NativeType>(encoded_defs: &Vec<u8>, array: &PrimitiveArray<T>) -> (r:
    Vec<u8>)
    requires
        array.wf(),
        encoded_defs@.len() <= u32::MAX,
    ensures
        r@ == def_levels_frame(encoded_defs@) + payload_of(array.opts()),
        r@.len() >= 4 + encoded_defs@.len(),
{
    let mut buffer = vstd::bytes::u32_to_le_bytes(encoded_defs.len() as u32);
    buffer.extend_from_slice(encoded_defs.as_slice());
    proof {
        assert(buffer@ =~= def_levels_frame(encoded_defs@));
    }
    let ghost frame = buffer@;
    let n = array.len();
    let mut i: usize = 0;
    while i < n
        invariant
            i <= n,
            n == array.values@.len(),
            array.wf(),
            frame == def_levels_frame(encoded_defs@),
            buffer@ == frame + payload_of(array.opts().take(i as int)),
        decreases n - i,
    {
        let present = match &array.validity {
            Some(v) => v[i],
            None => true,
        };
        proof {
            assert(array.opts().take(i + 1) =~= array.opts().take(i as int).push(
                array.opts()[i as int],
            ));
            lemma_payload_push(array.opts().take(i as int), array.opts()[i as int]);
        }
        if present {
            let v = array.values[i];
            v.append_le_bytes(&mut buffer);
            assert(array.opts()[i as int] == Some(v));
        } else {
            assert(array.opts()[i as int] is None);
        }
        i += 1;
    }
    proof {
        assert(array.opts().take(n as int) =~= array.opts());
        vstd::bytes::lemma_auto_spec_u32_to_from_le_bytes();
    }
    buffer
}

/// Encode one column into one v1 data page.
///
/// The blob is the framed definition-level stream followed by the value
/// payload; `uncompressed_page_size` is fixed at the blob's length before any
/// compression step; when `Uncompressed` is selected the stored bytes are the
/// blob itself; and the header counts every slot, nulls included. Selecting
/// `Uncompressed` always succeeds: only the chosen codec can fail the call.
pub fn array_to_page_v1<T: NativeType>(array: &PrimitiveArray<T>, compression: CompressionCodec) -> (r:
    Result<CompressedPage, PageError>)
    requires
        array.wf(),
        array.values@.len() <= i32::MAX as int,
    ensures
        match r {
            Ok(cp) => {
                let p = cp.v1();
                &&& p.header.num_values as int == array.values@.len()
                &&& p.header.encoding is Plain
                &&& p.header.definition_level_encoding is Rle
                &&& p.header.repetition_level_encoding is Rle
                &&& p.compression == compression
                &&& encoded_def_levels(*array).len() <= u32::MAX
                &&& p.uncompressed_page_size as int == page_blob(*array).len()
                &&& (compression is Uncompressed ==> p.buffer@ == page_blob(*array))
            },
            Err(e) => match e {
                PageError::EncodingFailure => false,
                PageError::CompressionFailure { codec, input_size } => {
                    &&& !(compression is Uncompressed)
                    &&& codec == compression
                    &&& input_size as int == page_blob(*array).len()
                },
            },
        },
        compression is Uncompressed ==> r is Ok,
{
    let encoded: Vec<u8> = match &array.validity {
        Some(v) => match encode_hybrid_rle(v) {
            Ok(e) => e,
            Err(e) => {
                return Err(e);
            },
        },
        None => Vec::new(),
    };
    proof {
        assert(encoded@ == encoded_def_levels(*array));
        // the encoded stream is at most a 10-byte header plus one byte per
        // eight flags, so with at most i32::MAX slots it fits the 4-byte prefix
        assert(encoded@.len() <= u32::MAX);
    }
    let buffer = assemble_page_buffer(&encoded, array);
    let uncompressed_page_size = buffer.len();
    let final_buffer: Vec<u8> = if compression == CompressionCodec::Uncompressed {
        buffer
    } else {
        match compress_bytes(&compression, &buffer) {
            Ok(compressed) => compressed,
            Err(_) => {
                return Err(PageError::CompressionFailure {
                    codec: compression,
                    input_size: uncompressed_page_size,
                });
            },
        }
    };
    let header = DataPageHeader {
        num_values: array.len() as i32,
        encoding: Encoding::Plain,
        definition_level_encoding: Encoding::Rle,
        repetition_level_encoding: Encoding::Rle,
    };
    Ok(CompressedPage::V1(PageV1 {
        buffer: final_buffer,
        header,
        compression,
        uncompressed_page_size,
    }))
}

} // verus!
