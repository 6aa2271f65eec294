//! Fixed-width native value types: the element types a primitive column can
//! hold, together with their little-endian byte representation.

use vstd::prelude::*;

verus! {

/// A fixed-width value type whose little-endian byte representation is pinned
/// down exactly: `le_bytes` gives the bytes, `from_le_bytes` reads them back,
/// and the two are proved inverse to each other.
pub trait NativeType: Copy + Sized {
    /// Byte width of the representation.
    spec fn spec_width() -> int;

    /// The little-endian bytes of a value.
    spec fn le_bytes(self) -> Seq<u8>;

    /// The value read back from its little-endian bytes.
    spec fn from_le_bytes(b: Seq<u8>) -> Self;

    proof fn lemma_le_bytes_len(self)
        ensures
            self.le_bytes().len() == Self::spec_width(),
            1 <= Self::spec_width() <= 16,
    ;

    proof fn lemma_le_bytes_inverse(self)
        ensures
            Self::from_le_bytes(self.le_bytes()) == self,
    ;

    fn byte_width() -> (w: usize)
        ensures
            w as int == Self::spec_width(),
    ;

    /// Append the little-endian bytes of `self` to `out`.
    fn append_le_bytes(self, out: &mut Vec<u8>)
        ensures
            final(out)@ == old(out)@ + self.le_bytes(),
    ;

    /// Read one value back from `bytes[offset..offset + width]`.
    fn read_le_bytes(bytes: &[u8], offset: usize) -> (r: Self)
        requires
            offset + Self::spec_width() <= bytes@.len(),
        ensures
            r == Self::from_le_bytes(
                bytes@.subrange(offset as int, offset + Self::spec_width()),
            ),
    ;
}

impl NativeType for i32 {
    open spec fn spec_width() -> int {
        4
    }

    open spec fn le_bytes(self) -> Seq<u8> {
        vstd::bytes::spec_u32_to_le_bytes(self as u32)
    }

    open spec fn from_le_bytes(b: Seq<u8>) -> Self {
        vstd::bytes::spec_u32_from_le_bytes(b) as i32
    }

    proof fn lemma_le_bytes_len(self) {
        vstd::bytes::lemma_auto_spec_u32_to_from_le_bytes();
    }

    proof fn lemma_le_bytes_inverse(self) {
        vstd::bytes::lemma_auto_spec_u32_to_from_le_bytes();
        let y = self as u32;
        assert(vstd::bytes::spec_u32_to_le_bytes(y).len() == 4);
        assert(vstd::bytes::spec_u32_from_le_bytes(vstd::bytes::spec_u32_to_le_bytes(y)) == y);
        assert(self as u32 as i32 == self) by (bit_vector);
    }

    fn byte_width() -> (w: usize) {
        4
    }

    fn append_le_bytes(self, out: &mut Vec<u8>) {
        let mut b = vstd::bytes::u32_to_le_bytes(self as u32);
        out.append(&mut b);
    }

    fn read_le_bytes(bytes: &[u8], offset: usize) -> (r: Self) {
        // the slice length is a usize, so `offset + 4` stays in range
        let n: usize = bytes.len();
        let sub = vstd::slice::slice_subrange(bytes, offset, offset + 4);
        let x = vstd::bytes::u32_from_le_bytes(sub);
        #[verifier::truncate] (x as i32)
    }
}

impl NativeType for i64 {
    open spec fn spec_width() -> int {
        8
    }

    open spec fn le_bytes(self) -> Seq<u8> {
        vstd::bytes::spec_u64_to_le_bytes(self as u64)
    }

    open spec fn from_le_bytes(b: Seq<u8>) -> Self {
        vstd::bytes::spec_u64_from_le_bytes(b) as i64
    }

    proof fn lemma_le_bytes_len(self) {
        vstd::bytes::lemma_auto_spec_u64_to_from_le_bytes();
    }

    proof fn lemma_le_bytes_inverse(self) {
        vstd::bytes::lemma_auto_spec_u64_to_from_le_bytes();
        let y = self as u64;
        assert(vstd::bytes::spec_u64_to_le_bytes(y).len() == 8);
        assert(vstd::bytes::spec_u64_from_le_bytes(vstd::bytes::spec_u64_to_le_bytes(y)) == y);
        assert(self as u64 as i64 == self) by (bit_vector);
    }

    fn byte_width() -> (w: usize) {
        8
    }

    fn append_le_bytes(self, out: &mut Vec<u8>) {
        let mut b = vstd::bytes::u64_to_le_bytes(self as u64);
        out.append(&mut b);
    }

    fn read_le_bytes(bytes: &[u8], offset: usize) -> (r: Self) {
        // the slice length is a usize, so `offset + 8` stays in range
        let n: usize = bytes.len();
        let sub = vstd::slice::slice_subrange(bytes, offset, offset + 8);
        let x = vstd::bytes::u64_from_le_bytes(sub);
        #[verifier::truncate] (x as i64)
    }
}

} // verus!
