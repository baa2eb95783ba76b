//! A pair of offsets that names a part of a buffer.

use vstd::prelude::*;

verus! {

/// The half-open range `[start, end)` of a buffer.
#[derive(Debug, Clone, Copy, PartialEq, Eq)]
pub struct RequestToken(pub usize, pub usize);

impl RequestToken {
    /// The bytes of `buf` that the token names.
    pub open spec fn spec_bytes(self, buf: Seq<u8>) -> Seq<u8> {
        buf.subrange(self.0 as int, self.1 as int)
    }

    /// The token lies inside a buffer of `len` bytes.
    pub open spec fn spec_within(self, len: nat) -> bool {
        self.0 <= self.1 <= len
    }

    /// The token of a subslice in the slice it was cut from.
    ///
    /// A slice carries no address here, so the place where `slice` starts
    /// is given as `offset`; the caller owes that `source` really holds
    /// `slice` there.
    pub fn from_subslice<T>(source: &[T], offset: usize, slice: &[T]) -> (r: Self)
        requires
            offset + slice@.len() <= source@.len(),
            source@.subrange(offset as int, offset + slice@.len()) == slice@,
        ensures
            r.0 == offset,
            r.1 == offset + slice@.len(),
            r.spec_within(source@.len()),
            source@.subrange(r.0 as int, r.1 as int) == slice@,
    {
        let total: usize = source.len();
        assert(offset + slice@.len() <= total);
        RequestToken(offset, offset + slice.len())
    }
}

} // verus!
