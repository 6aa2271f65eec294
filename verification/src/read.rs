//! What a conforming reader does with a page blob, and the proof that it
//! reproduces the column. The definition-level stream itself is decoded by
//! the external hybrid-RLE decoder; the reader here takes the decoded flags
//! and re-interleaves the value payload around the nulls.

use vstd::prelude::*;
use crate::column::PrimitiveArray;
use crate::native::NativeType;
use crate::write::{encoded_def_levels, page_blob, payload_of};

verus! {

/// The presence flags of a column content: one per slot, true where the slot
/// holds a value. This is exactly the definition-level stream, decoded.
pub open spec fn flags_of<T>(opts: Seq<Option<T>>) -> Seq<bool> {
    Seq::new(opts.len(), |i: int| opts[i] is Some)
}

/// What re-interleaving a value payload around its presence flags yields:
/// one value read per set flag, in order, nothing for a cleared flag; `None`
/// when the payload's length does not match the flags exactly.
pub open spec fn decode_payload<T: NativeType>(payload: Seq<u8>, flags: Seq<bool>) -> Option<
    Seq<Option<T>>,
>
    decreases flags.len(),
{
    if flags.len() == 0 {
        if payload.len() == 0 {
            Some(Seq::empty())
        } else {
            None
        }
    } else if flags[0] {
        if T::spec_width() <= payload.len() {
            match decode_payload::<T>(payload.skip(T::spec_width()), flags.skip(1)) {
                Some(rest) => Some(
                    seq![Some(T::from_le_bytes(payload.take(T::spec_width())))] + rest,
                ),
                None => None,
            }
        } else {
            None
        }
    } else {
        match decode_payload::<T>(payload, flags.skip(1)) {
            Some(rest) => Some(seq![None::<T>] + rest),
            None => None,
        }
    }
}

/// Decoding a column's value payload with its own flags yields the column's
/// content back, exactly: order-, value- and null-preserving.
pub proof fn lemma_payload_round_trip<T: NativeType>(opts: Seq<Option<T>>)
    ensures
        decode_payload::<T>(payload_of(opts), flags_of(opts)) == Some(opts),
    decreases opts.len(),
{
    let payload = payload_of(opts);
    let flags = flags_of(opts);
    if opts.len() == 0 {
        assert(payload.len() == 0);
        assert(decode_payload::<T>(payload, flags) == Some(Seq::<Option<T>>::empty()));
        assert(Seq::<Option<T>>::empty() =~= opts);
    } else {
        lemma_payload_round_trip::<T>(opts.skip(1));
        assert(flags.skip(1) =~= flags_of(opts.skip(1)));
        match opts[0] {
            Some(v) => {
                v.lemma_le_bytes_len();
                v.lemma_le_bytes_inverse();
                assert(payload == v.le_bytes() + payload_of(opts.skip(1)));
                assert(payload.take(T::spec_width()) =~= v.le_bytes());
                assert(payload.skip(T::spec_width()) =~= payload_of(opts.skip(1)));
                assert(flags[0]);
                assert(seq![Some(v)] + opts.skip(1) =~= opts);
            },
            None => {
                assert(!flags[0]);
                assert(payload == Seq::<u8>::empty() + payload_of(opts.skip(1)));
                assert(payload =~= payload_of(opts.skip(1)));
                assert(seq![None::<T>] + opts.skip(1) =~= opts);
            },
        }
    }
}

/// The page-level round trip: from the uncompressed blob of a well-formed
/// column, a reader that knows the decoded definition levels recovers the
/// column's content exactly.
pub proof fn lemma_page_round_trip<T: NativeType>(a: PrimitiveArray<T>)
    requires
        a.wf(),
        encoded_def_levels(a).len() <= u32::MAX,
    ensures
        decode_payload::<T>(
            page_blob(a).skip(4 + encoded_def_levels(a).len() as int),
            flags_of(a.opts()),
        ) == Some(a.opts()),
{
    crate::write::lemma_blob_layout(a);
    lemma_payload_round_trip::<T>(a.opts());
}

/// The flags a reader must hand back equal the column's own validity bits
/// (or all-true where the column had no validity indicator): what the
/// definition-level stream encodes is exactly the validity, slot for slot.
pub proof fn lemma_flags_are_validity<T: NativeType>(a: PrimitiveArray<T>)
    requires
        a.wf(),
    ensures
        match a.validity {
            Some(v) => flags_of(a.opts()) == v@,
            None => flags_of(a.opts()) == Seq::new(a.values@.len(), |i: int| true),
        },
{
    match a.validity {
        Some(v) => {
            assert(flags_of(a.opts()) =~= v@);
        },
        None => {
            assert(flags_of(a.opts()) =~= Seq::new(a.values@.len(), |i: int| true));
        },
    }
}

/// How many flags of the definition-level stream are set.
pub open spec fn count_set(flags: Seq<bool>) -> int
    decreases flags.len(),
{
    if flags.len() == 0 {
        0
    } else {
        (if flags[0] {
            1int
        } else {
            0int
        }) + count_set(flags.skip(1))
    }
}

/// The definition-level stream of a column carries exactly one flag per slot
/// and exactly one set flag per present value.
pub proof fn lemma_count_set_flags<T>(opts: Seq<Option<T>>)
    ensures
        flags_of(opts).len() == opts.len(),
        count_set(flags_of(opts)) == crate::write::count_present(opts),
    decreases opts.len(),
{
    if opts.len() == 0 {
    } else {
        lemma_count_set_flags(opts.skip(1));
        assert(flags_of(opts).skip(1) =~= flags_of(opts.skip(1)));
    }
}

/// Split an uncompressed page buffer at its 4-byte little-endian length
/// prefix into the encoded definition-level stream and the value payload;
/// `None` when the buffer is shorter than the prefix declares.
pub fn split_page_buffer(buffer: &Vec<u8>) -> (r: Option<(Vec<u8>, Vec<u8>)>)
    ensures
        match r {
            Some(parts) => {
                &&& buffer@.len() >= 4
                &&& parts.0@.len() == vstd::bytes::spec_u32_from_le_bytes(
                    buffer@.subrange(0, 4),
                )
                &&& parts.0@ == buffer@.subrange(4, 4 + parts.0@.len() as int)
                &&& parts.1@ == buffer@.skip(4 + parts.0@.len() as int)
            },
            None => buffer@.len() < 4 || buffer@.len() < 4 + vstd::bytes::spec_u32_from_le_bytes(
                buffer@.subrange(0, 4),
            ),
        },
{
    let total = buffer.len();
    if total < 4 {
        return None;
    }
    let prefix = vstd::slice::slice_subrange(buffer.as_slice(), 0, 4);
    let len = vstd::bytes::u32_from_le_bytes(prefix) as usize;
    if total - 4 < len {
        return None;
    }
    let mut enc: Vec<u8> = Vec::new();
    let mut i: usize = 0;
    while i < len
        invariant
            i <= len,
            4 + len <= total,
            total == buffer@.len(),
            enc@ =~= buffer@.subrange(4, 4 + i as int),
        decreases len - i,
    {
        enc.push(buffer[4 + i]);
        proof {
            assert(enc@ =~= buffer@.subrange(4, 4 + i + 1));
        }
        i += 1;
    }
    let mut payload: Vec<u8> = Vec::new();
    let mut j: usize = 4 + len;
    while j < total
        invariant
            4 + len <= j <= total,
            total == buffer@.len(),
            payload@ =~= buffer@.subrange(4 + len as int, j as int),
        decreases total - j,
    {
        payload.push(buffer[j]);
        proof {
            assert(payload@ =~= buffer@.subrange(4 + len as int, j + 1));
        }
        j += 1;
    }
    proof {
        assert(buffer@.skip(4 + len as int) =~= buffer@.subrange(4 + len as int, total as int));
    }
    Some((enc, payload))
}

/// Re-interleave a value payload around decoded presence flags: the
/// executable form of `decode_payload`, `None` on any size mismatch.
pub fn read_values<T: NativeType>(payload: &[u8], flags: &Vec<bool>) -> (r: Option<Vec<Option<T>>>)
    ensures
        match decode_payload::<T>(payload@, flags@) {
            Some(s) => r is Some && r.unwrap()@ == s,
            None => r is None,
        },
{
    let n = flags.len();
    let total = payload.len();
    let w = T::byte_width();
    let mut out: Vec<Option<T>> = Vec::new();
    let mut offset: usize = 0;
    let mut i: usize = 0;
    proof {
        assert(payload@.skip(0) =~= payload@);
        assert(flags@.skip(0) =~= flags@);
        assert forall|rest: Seq<Option<T>>| Seq::<Option<T>>::empty() + rest =~= rest by {}
    }
    while i < n
        invariant
            i <= n,
            offset <= total,
            total == payload@.len(),
            n == flags@.len(),
            w as int == T::spec_width(),
            decode_payload::<T>(payload@, flags@) == (match decode_payload::<T>(
                payload@.skip(offset as int),
                flags@.skip(i as int),
            ) {
                Some(rest) => Some(out@ + rest),
                None => None::<Seq<Option<T>>>,
            }),
        decreases n - i,
    {
        proof {
            assert(flags@.skip(i as int)[0] == flags@[i as int]);
            assert(flags@.skip(i as int).skip(1) =~= flags@.skip(i + 1));
        }
        if flags[i] {
            if total - offset < w {
                return None;
            }
            let v = T::read_le_bytes(payload, offset);
            proof {
                assert(payload@.skip(offset as int).take(T::spec_width()) =~= payload@.subrange(
                    offset as int,
                    offset + T::spec_width(),
                ));
                assert(payload@.skip(offset as int).skip(T::spec_width()) =~= payload@.skip(
                    offset + T::spec_width(),
                ));
                assert forall|rest: Seq<Option<T>>|
                    out@ + (seq![Some(v)] + rest) =~= (out@ + seq![Some(v)]) + rest by {}
                assert(out@.push(Some(v)) =~= out@ + seq![Some(v)]);
            }
            out.push(Some(v));
            offset = offset + w;
        } else {
            proof {
                assert forall|rest: Seq<Option<T>>|
                    out@ + (seq![None::<T>] + rest) =~= (out@ + seq![None::<T>]) + rest by {}
                assert(out@.push(None::<T>) =~= out@ + seq![None::<T>]);
            }
            out.push(None);
        }
        i += 1;
    }
    proof {
        assert(flags@.skip(n as int) =~= Seq::<bool>::empty());
    }
    if offset != total {
        proof {
            assert(payload@.skip(offset as int).len() > 0);
        }
        return None;
    }
    proof {
        assert(payload@.skip(offset as int) =~= Seq::<u8>::empty());
        assert(out@ + Seq::<Option<T>>::empty() =~= out@);
    }
    Some(out)
}

} // verus!
