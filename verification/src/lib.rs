//! Iteration over the individual bits of a packed byte buffer.
//!
//! A bitmap stores boolean values eight per byte, least-significant bit
//! first: bit `i` of a buffer is bit `i % 8` of byte `i / 8`.  This crate
//! offers a bit accessor whose bounds check is a static precondition, a
//! checked accessor for callers that cannot establish the bound themselves,
//! and [`BitmapIter`], a lazy iterator over a sub-range of bits.

use vstd::prelude::*;

verus! {

use vstd::arithmetic::div_mod::lemma_fundamental_div_mod;
use vstd::arithmetic::div_mod::lemma_fundamental_div_mod_converse;
use vstd::arithmetic::div_mod::lemma_multiply_divide_lt;
use vstd::slice::slice_subrange;

/// Bit `i` of `bytes`, least-significant bit first: bit `i % 8` of byte
/// `i / 8`, where bit 0 of a byte has value 1 and bit 7 has value 128.
pub open spec fn spec_bit(bytes: Seq<u8>, i: int) -> bool {
    (bytes[i / 8] >> (i % 8)) & 1 != 0
}

/// The `len` bits of `bytes` starting at bit `offset`, in order.
pub open spec fn spec_bits(bytes: Seq<u8>, offset: int, len: nat) -> Seq<bool> {
    Seq::new(len, |k: int| spec_bit(bytes, offset + k))
}

/// The bit range `[offset, offset + len)` lies within `bytes`: after the
/// `offset / 8` whole leading bytes are dropped, the relative range
/// starting at bit `offset % 8` still fits in the bytes that remain.
pub open spec fn range_in_bounds(bytes: Seq<u8>, offset: int, len: int) -> bool {
    offset % 8 + len <= (bytes.len() - offset / 8) * 8
}

/// Splitting a bit index at a whole-byte boundary changes neither the byte
/// index nor the position within the byte: bit `8 * s + j` of a buffer is
/// byte `s + j / 8`, position `j % 8`.
proof fn lemma_split_bit_index(s: int, j: int)
    requires
        0 <= s,
        0 <= j,
    ensures
        (8 * s + j) / 8 == s + j / 8,
        (8 * s + j) % 8 == j % 8,
{
    lemma_fundamental_div_mod(j, 8);
    lemma_fundamental_div_mod_converse(8 * s + j, 8, s + j / 8, j % 8);
}

/// Returns whether bit `i` of `data` is set.
///
/// No bounds check is performed at run time: the bound `i < data.len() * 8`
/// is a precondition, discharged statically at every call site.
#[inline]
pub fn get_bit_unchecked(data: &[u8], i: usize) -> (r: bool)
    requires
        i < data@.len() * 8,
    ensures
        r == spec_bit(data@, i as int),
{
    proof {
        lemma_multiply_divide_lt(i as int, 8, data@.len() as int);
    }
    (data[i / 8] >> (i % 8)) & 1 != 0
}

/// Returns whether bit `i` of `data` is set, or `None` when `i` is out of
/// range.  The safe entry point for callers that have not established the
/// bound `i < data.len() * 8` themselves.
pub fn get_bit(data: &[u8], i: usize) -> (r: Option<bool>)
    ensures
        r is Some <==> i < data@.len() * 8,
        r matches Some(b) ==> b == spec_bit(data@, i as int),
{
    proof {
        if i < data@.len() * 8 {
            lemma_multiply_divide_lt(i as int, 8, data@.len() as int);
        } else {
            lemma_fundamental_div_mod(i as int, 8);
        }
    }
    if i / 8 < data.len() {
        Some(get_bit_unchecked(data, i))
    } else {
        None
    }
}

/// An iterator over a contiguous range of bits of a byte buffer, in
/// least-significant-bit-first order: the bytes `[4u8, 128u8]` hold the
/// bits `[false, false, true, false, ..., true]`.
///
/// The range is validated once, at construction; every later read is
/// unchecked, which the construction-time bound proves safe.
#[derive(Debug, Clone)]
pub struct BitmapIter<'a> {
    /// The buffer, sliced so that its first byte holds the range's first bit.
    pub bytes: &'a [u8],
    /// The next bit index to produce, relative to `bytes`.
    pub index: usize,
    /// The exclusive bound on `index`; bit `end` is never read.
    pub end: usize,
}

impl<'a> BitmapIter<'a> {
    /// The cursor never passes `end`, and `end` never passes the last bit
    /// of the buffer, so every read below `end` is in bounds.
    pub open spec fn wf(self) -> bool {
        self.index <= self.end <= self.bytes@.len() * 8
    }

    /// The bits still to be produced, in the order they will come out.
    pub open spec fn remaining(self) -> Seq<bool> {
        spec_bits(self.bytes@, self.index as int, (self.end - self.index) as nat)
    }

    /// Builds an iterator over bits `[offset, offset + len)` of `slice`.
    ///
    /// The range must lie within `slice`; a caller that cannot establish
    /// that bound uses [`BitmapIter::try_new`] instead.
    pub fn new(slice: &'a [u8], offset: usize, len: usize) -> (it: Self)
        requires
            range_in_bounds(slice@, offset as int, len as int),
            offset % 8 + len <= usize::MAX,
        ensures
            it.wf(),
            it.remaining() =~= spec_bits(slice@, offset as int, len as nat),
    {
        let bytes: &[u8] = slice_subrange(slice, offset / 8, slice.len());
        let index: usize = offset % 8;
        let end: usize = len + index;
        let it = Self { bytes, index, end };
        proof {
            let s = offset as int / 8;
            lemma_fundamental_div_mod(offset as int, 8);
            assert forall|k: int| 0 <= k < len implies it.remaining()[k] == spec_bit(
                slice@,
                offset + k,
            ) by {
                let j = offset as int % 8 + k;
                lemma_split_bit_index(s, j);
                lemma_multiply_divide_lt(j, 8, it.bytes@.len() as int);
            }
        }
        it
    }

    /// Builds an iterator over bits `[offset, offset + len)` of `slice`,
    /// or returns `None` when the range does not lie within `slice`.
    pub fn try_new(slice: &'a [u8], offset: usize, len: usize) -> (r: Option<Self>)
        ensures
            r is Some <==> range_in_bounds(slice@, offset as int, len as int) && offset % 8 + len
                <= usize::MAX,
            r matches Some(it) ==> it.wf() && it.remaining() =~= spec_bits(
                slice@,
                offset as int,
                len as nat,
            ),
    {
        let start: usize = offset / 8;
        if start > slice.len() {
            return None;
        }
        let avail: usize = slice.len() - start;
        let index: usize = offset % 8;
        if len > usize::MAX - index {
            return None;
        }
        let end: usize = len + index;
        let fits: bool = if avail > usize::MAX / 8 {
            proof {
                lemma_fundamental_div_mod(usize::MAX as int, 8);
            }
            true
        } else {
            end <= avail * 8
        };
        if fits {
            Some(Self::new(slice, offset, len))
        } else {
            None
        }
    }

    /// Produces the next bit, or `None` once the range is exhausted.
    ///
    /// Exhaustion is permanent: a call that returns `None` leaves the
    /// iterator unchanged, so every later call returns `None` as well.
    #[inline]
    pub fn next(&mut self) -> (r: Option<bool>)
        requires
            old(self).wf(),
        ensures
            final(self).wf(),
            final(self).bytes == old(self).bytes,
            final(self).end == old(self).end,
            old(self).index == old(self).end ==> r is None && *final(self) == *old(self),
            old(self).index < old(self).end ==> r == Some(old(self).remaining()[0])
                && final(self).index == old(self).index + 1,
            old(self).index < old(self).end ==> final(self).remaining() =~= old(self).remaining().skip(1),
    {
        if self.index == self.end {
            return None;
        }
        let i: usize = self.index;
        self.index = i + 1;
        Some(get_bit_unchecked(self.bytes, i))
    }

    /// Reports the exact number of bits still to be produced, as both the
    /// lower and the upper bound.
    #[inline]
    pub fn size_hint(&self) -> (r: (usize, Option<usize>))
        requires
            self.wf(),
        ensures
            r.0 == self.remaining().len(),
            r.1 == Some(r.0),
    {
        let exact: usize = self.end - self.index;
        (exact, Some(exact))
    }
}

/// The bits of a range are the bits of the buffer, in order: the range
/// `[offset, offset + len)` of `bytes` has exactly `len` entries, and its
/// `k`-th entry is bit `offset + k` of `bytes`.
pub proof fn lemma_spec_bits_indexing(bytes: Seq<u8>, offset: int, len: nat, k: int)
    requires
        0 <= k < len,
    ensures
        spec_bits(bytes, offset, len).len() == len,
        spec_bits(bytes, offset, len)[k] == spec_bit(bytes, offset + k),
{
}

/// An empty range produces nothing, wherever it starts: for `len == 0` the
/// range's bit sequence is empty.
pub proof fn lemma_empty_range(bytes: Seq<u8>, offset: int)
    ensures
        spec_bits(bytes, offset, 0) =~= Seq::<bool>::empty(),
{
}

} // verus!
