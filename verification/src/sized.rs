//! `MtProtoSized` trait for any Rust data structure a predictable size of its MTProto binary
//! representation can be computed.

use crate::error::{Error, Result};
use crate::utils::check_seq_len;
use crate::wire;
use vstd::prelude::*;

verus! {

/// Size of a bool MtProto value.
pub const BOOL_SIZE: usize = 4;

/// Size of an int MtProto value.
pub const INT_SIZE: usize = 4;

/// Size of a long MtProto value.
pub const LONG_SIZE: usize = 8;

/// Size of a double MtProto value.
pub const DOUBLE_SIZE: usize = 8;

/// Size of an int128 MtProto value.
pub const INT128_SIZE: usize = 16;

/// A trait for a Rust data structure a predictable size of its MTProto binary representation
/// can be computed.
pub trait MtProtoSized {
    /// The size that is predicted for this value, or the reason why it has
    /// none. A type that does not say what its size is leaves it open.
    open spec fn spec_size_hint(&self) -> core::result::Result<usize, Error> {
        arbitrary()
    }

    /// Compute the size of MTProto binary representation of this value without actually
    /// serializing it.
    ///
    /// Not any value can be serialized (e.g. strings and sequences that are
    /// too long), so this may fail.
    fn size_hint(&self) -> (r: Result<usize>)
        ensures
            r == self.spec_size_hint(),
    ;
}

/// The size of everything naturally representable as a byte sequence of
/// `len` bytes, the length prefix and the padding counted in.
pub open spec fn spec_size_hint_from_byte_seq_len(len: usize) -> core::result::Result<
    usize,
    Error,
> {
    if len <= wire::MAX_BYTE_SEQ_LEN {
        Ok(wire::byte_seq_size(len as nat) as usize)
    } else {
        Err(Error::StringTooLong(len))
    }
}

/// Helper function for everything naturally representable as a byte sequence.
///
/// This version **does take** into account the byte sequence length, which is prepended to the
/// serialized representation of the byte sequence.
pub fn size_hint_from_byte_seq_len(len: usize) -> (r: Result<usize>)
    ensures
        r == spec_size_hint_from_byte_seq_len(len),
        r is Ok ==> r.unwrap() == wire::byte_seq_size(len as nat) && r.unwrap() % 4 == 0,
{
    let len_info: usize;
    if len <= wire::MAX_SHORT_LEN {
        len_info = 1;
    } else if len <= wire::MAX_BYTE_SEQ_LEN {
        len_info = 4;
    } else {
        return Err(Error::StringTooLong(len));
    }
    let padding = wire::padding_for(len_info + len);
    let size = len_info + len + padding;
    Ok(size)
}

/// A total that does not fit in `usize` is held as the largest `usize`.
pub open spec fn saturated(total: int) -> usize {
    if total > usize::MAX {
        usize::MAX
    } else {
        total as usize
    }
}

/// A running total with one more size added: a total that 32 bits cannot
/// hold is an error, as is the error of the size.
pub open spec fn spec_add_size(
    total: usize,
    size: core::result::Result<usize, Error>,
) -> core::result::Result<usize, Error> {
    match size {
        Ok(size) => if total + size <= u32::MAX {
            Ok((total + size) as usize)
        } else {
            Err(Error::SeqTooLong(saturated(total + size)))
        },
        Err(e) => Err(e),
    }
}

/// The size of one value after another: a total that 32 bits cannot hold
/// is an error, as is the first error of the two.
pub open spec fn size_then(
    front: core::result::Result<usize, Error>,
    next: core::result::Result<usize, Error>,
) -> core::result::Result<usize, Error> {
    match front {
        Ok(total) => spec_add_size(total, next),
        Err(e) => Err(e),
    }
}

/// Adds the size of one more value to a running total: the wire holds a
/// size in 32 bits, so a greater total is refused.
pub fn add_size(total: usize, size: usize) -> (r: Result<usize>)
    ensures
        r == spec_add_size(total, Ok(size)),
{
    match total.checked_add(size) {
        Some(sum) => match check_seq_len(sum) {
            Ok(()) => Ok(sum),
            Err(e) => Err(e),
        },
        None => Err(Error::SeqTooLong(usize::MAX)),
    }
}

/// The sizes of `items` added to `start`, one after the other.
pub open spec fn spec_sum_sizes<T: MtProtoSized>(
    start: usize,
    items: Seq<T>,
) -> core::result::Result<usize, Error>
    decreases items.len(),
{
    if items.len() == 0 {
        Ok(start)
    } else {
        match spec_sum_sizes(start, items.drop_last()) {
            Ok(total) => spec_add_size(total, items.last().spec_size_hint()),
            Err(e) => Err(e),
        }
    }
}

/// An error among the first elements is the error of the whole.
pub proof fn lemma_sum_sizes_err<T: MtProtoSized>(start: usize, items: Seq<T>, k: int)
    requires
        0 <= k <= items.len(),
        spec_sum_sizes(start, items.take(k)) is Err,
    ensures
        spec_sum_sizes(start, items) == spec_sum_sizes(start, items.take(k)),
    decreases items.len() - k,
{
    if k < items.len() {
        assert(items.take(k + 1).drop_last() =~= items.take(k));
        lemma_sum_sizes_err(start, items, k + 1);
    } else {
        assert(items.take(k) =~= items);
    }
}

/// Adds the sizes of `items` to `start`, one after the other.
pub fn sum_sizes<T: MtProtoSized>(start: usize, items: &[T]) -> (r: Result<usize>)
    ensures
        r == spec_sum_sizes(start, items@),
{
    let mut result = start;
    let mut i: usize = 0;
    assert(items@.take(0) =~= Seq::<T>::empty());
    while i < items.len()
        invariant
            i <= items.len(),
            spec_sum_sizes(start, items@.take(i as int)) == Ok::<usize, Error>(result),
        decreases items.len() - i,
    {
        proof {
            assert(items@.take(i as int + 1).drop_last() =~= items@.take(i as int));
            assert(items@.take(i as int + 1).last() == items@[i as int]);
        }
        let size = match items[i].size_hint() {
            Ok(size) => size,
            Err(e) => {
                proof {
                    lemma_sum_sizes_err(start, items@, i as int + 1);
                }
                return Err(e);
            },
        };
        result = match add_size(result, size) {
            Ok(total) => total,
            Err(e) => {
                proof {
                    lemma_sum_sizes_err(start, items@, i as int + 1);
                }
                return Err(e);
            },
        };
        i += 1;
    }
    assert(items@.take(i as int) =~= items@);
    Ok(result)
}

/// The size of a sequence: four bytes for the number of its elements, which
/// 32 bits have to hold, and the sizes of the elements.
pub open spec fn spec_seq_size_hint<T: MtProtoSized>(items: Seq<T>) -> core::result::Result<
    usize,
    Error,
> {
    if items.len() > u32::MAX {
        Err(Error::SeqTooLong(items.len() as usize))
    } else {
        spec_sum_sizes(4, items)
    }
}

impl MtProtoSized for bool {
    open spec fn spec_size_hint(&self) -> core::result::Result<usize, Error> {
        Ok(BOOL_SIZE)
    }

    fn size_hint(&self) -> (r: Result<usize>) {
        Ok(BOOL_SIZE)
    }
}

impl MtProtoSized for i8 {
    open spec fn spec_size_hint(&self) -> core::result::Result<usize, Error> {
        Ok(INT_SIZE)
    }

    fn size_hint(&self) -> (r: Result<usize>) {
        Ok(INT_SIZE)
    }
}

impl MtProtoSized for i16 {
    open spec fn spec_size_hint(&self) -> core::result::Result<usize, Error> {
        Ok(INT_SIZE)
    }

    fn size_hint(&self) -> (r: Result<usize>) {
        Ok(INT_SIZE)
    }
}

impl MtProtoSized for i32 {
    open spec fn spec_size_hint(&self) -> core::result::Result<usize, Error> {
        Ok(INT_SIZE)
    }

    fn size_hint(&self) -> (r: Result<usize>) {
        Ok(INT_SIZE)
    }
}

impl MtProtoSized for i64 {
    open spec fn spec_size_hint(&self) -> core::result::Result<usize, Error> {
        Ok(LONG_SIZE)
    }

    fn size_hint(&self) -> (r: Result<usize>) {
        Ok(LONG_SIZE)
    }
}

impl MtProtoSized for i128 {
    open spec fn spec_size_hint(&self) -> core::result::Result<usize, Error> {
        Ok(INT128_SIZE)
    }

    fn size_hint(&self) -> (r: Result<usize>) {
        Ok(INT128_SIZE)
    }
}

impl MtProtoSized for isize {
    open spec fn spec_size_hint(&self) -> core::result::Result<usize, Error> {
        Ok(LONG_SIZE)
    }

    fn size_hint(&self) -> (r: Result<usize>) {
        Ok(LONG_SIZE)
    }
}

impl MtProtoSized for u8 {
    open spec fn spec_size_hint(&self) -> core::result::Result<usize, Error> {
        Ok(INT_SIZE)
    }

    fn size_hint(&self) -> (r: Result<usize>) {
        Ok(INT_SIZE)
    }
}

impl MtProtoSized for u16 {
    open spec fn spec_size_hint(&self) -> core::result::Result<usize, Error> {
        Ok(INT_SIZE)
    }

    fn size_hint(&self) -> (r: Result<usize>) {
        Ok(INT_SIZE)
    }
}

impl MtProtoSized for u32 {
    open spec fn spec_size_hint(&self) -> core::result::Result<usize, Error> {
        Ok(INT_SIZE)
    }

    fn size_hint(&self) -> (r: Result<usize>) {
        Ok(INT_SIZE)
    }
}

impl MtProtoSized for u64 {
    open spec fn spec_size_hint(&self) -> core::result::Result<usize, Error> {
        Ok(LONG_SIZE)
    }

    fn size_hint(&self) -> (r: Result<usize>) {
        Ok(LONG_SIZE)
    }
}

impl MtProtoSized for u128 {
    open spec fn spec_size_hint(&self) -> core::result::Result<usize, Error> {
        Ok(INT128_SIZE)
    }

    fn size_hint(&self) -> (r: Result<usize>) {
        Ok(INT128_SIZE)
    }
}

impl MtProtoSized for usize {
    open spec fn spec_size_hint(&self) -> core::result::Result<usize, Error> {
        Ok(LONG_SIZE)
    }

    fn size_hint(&self) -> (r: Result<usize>) {
        Ok(LONG_SIZE)
    }
}

impl<'a> MtProtoSized for &'a str {
    open spec fn spec_size_hint(&self) -> core::result::Result<usize, Error> {
        spec_size_hint_from_byte_seq_len(vstd::utf8::encode_utf8(self@).len() as usize)
    }

    fn size_hint(&self) -> (r: Result<usize>) {
        size_hint_from_byte_seq_len(self.as_bytes().len())
    }
}

impl MtProtoSized for String {
    open spec fn spec_size_hint(&self) -> core::result::Result<usize, Error> {
        spec_size_hint_from_byte_seq_len(vstd::utf8::encode_utf8(self@).len() as usize)
    }

    fn size_hint(&self) -> (r: Result<usize>) {
        size_hint_from_byte_seq_len(self.as_str().as_bytes().len())
    }
}

impl<'a, T: MtProtoSized> MtProtoSized for &'a T {
    open spec fn spec_size_hint(&self) -> core::result::Result<usize, Error> {
        (**self).spec_size_hint()
    }

    fn size_hint(&self) -> (r: Result<usize>) {
        (**self).size_hint()
    }
}

impl<T: MtProtoSized> MtProtoSized for Box<T> {
    open spec fn spec_size_hint(&self) -> core::result::Result<usize, Error> {
        (**self).spec_size_hint()
    }

    fn size_hint(&self) -> (r: Result<usize>) {
        (**self).size_hint()
    }
}

impl<'a, T: MtProtoSized> MtProtoSized for &'a [T] {
    open spec fn spec_size_hint(&self) -> core::result::Result<usize, Error> {
        spec_seq_size_hint(self@)
    }

    fn size_hint(&self) -> (r: Result<usize>) {
        // If len >= 2 ** 32, it's not serializable at all.
        check_seq_len(self.len())?;
        sum_sizes(4, *self)
    }
}

impl<T: MtProtoSized> MtProtoSized for Vec<T> {
    open spec fn spec_size_hint(&self) -> core::result::Result<usize, Error> {
        spec_seq_size_hint(self@)
    }

    fn size_hint(&self) -> (r: Result<usize>) {
        self.as_slice().size_hint()
    }
}

impl MtProtoSized for () {
    open spec fn spec_size_hint(&self) -> core::result::Result<usize, Error> {
        Ok(0)
    }

    fn size_hint(&self) -> (r: Result<usize>) {
        Ok(0)
    }
}

impl<T: MtProtoSized, const N: usize> MtProtoSized for [T; N] {
    open spec fn spec_size_hint(&self) -> core::result::Result<usize, Error> {
        spec_sum_sizes(0, self@)
    }

    fn size_hint(&self) -> (r: Result<usize>) {
        sum_sizes(0, self.as_slice())
    }
}

impl<T1: MtProtoSized> MtProtoSized for (T1,) {
    open spec fn spec_size_hint(&self) -> core::result::Result<usize, Error> {
        spec_add_size(0, self.0.spec_size_hint())
    }

    fn size_hint(&self) -> (r: Result<usize>) {
        let mut result: usize = 0;
        result = add_size(result, self.0.size_hint()?)?;
        Ok(result)
    }
}

impl<T1: MtProtoSized, T2: MtProtoSized> MtProtoSized for (T1, T2) {
    open spec fn spec_size_hint(&self) -> core::result::Result<usize, Error> {
        size_then((self.0,).spec_size_hint(), self.1.spec_size_hint())
    }

    fn size_hint(&self) -> (r: Result<usize>) {
        let mut result: usize = 0;
        result = add_size(result, self.0.size_hint()?)?;
        result = add_size(result, self.1.size_hint()?)?;
        Ok(result)
    }
}

impl<T1: MtProtoSized, T2: MtProtoSized, T3: MtProtoSized> MtProtoSized for (T1, T2, T3) {
    open spec fn spec_size_hint(&self) -> core::result::Result<usize, Error> {
        size_then((self.0, self.1).spec_size_hint(), self.2.spec_size_hint())
    }

    fn size_hint(&self) -> (r: Result<usize>) {
        let mut result: usize = 0;
        result = add_size(result, self.0.size_hint()?)?;
        result = add_size(result, self.1.size_hint()?)?;
        result = add_size(result, self.2.size_hint()?)?;
        Ok(result)
    }
}

impl<
    T1: MtProtoSized,
    T2: MtProtoSized,
    T3: MtProtoSized,
    T4: MtProtoSized,
> MtProtoSized for (T1, T2, T3, T4) {
    open spec fn spec_size_hint(&self) -> core::result::Result<usize, Error> {
        size_then((self.0, self.1, self.2).spec_size_hint(), self.3.spec_size_hint())
    }

    fn size_hint(&self) -> (r: Result<usize>) {
        let mut result: usize = 0;
        result = add_size(result, self.0.size_hint()?)?;
        result = add_size(result, self.1.size_hint()?)?;
        result = add_size(result, self.2.size_hint()?)?;
        result = add_size(result, self.3.size_hint()?)?;
        Ok(result)
    }
}

impl<
    T1: MtProtoSized,
    T2: MtProtoSized,
    T3: MtProtoSized,
    T4: MtProtoSized,
    T5: MtProtoSized,
> MtProtoSized for (T1, T2, T3, T4, T5) {
    open spec fn spec_size_hint(&self) -> core::result::Result<usize, Error> {
        size_then((self.0, self.1, self.2, self.3).spec_size_hint(), self.4.spec_size_hint())
    }

    fn size_hint(&self) -> (r: Result<usize>) {
        let mut result: usize = 0;
        result = add_size(result, self.0.size_hint()?)?;
        result = add_size(result, self.1.size_hint()?)?;
        result = add_size(result, self.2.size_hint()?)?;
        result = add_size(result, self.3.size_hint()?)?;
        result = add_size(result, self.4.size_hint()?)?;
        Ok(result)
    }
}

impl<
    T1: MtProtoSized,
    T2: MtProtoSized,
    T3: MtProtoSized,
    T4: MtProtoSized,
    T5: MtProtoSized,
    T6: MtProtoSized,
> MtProtoSized for (T1, T2, T3, T4, T5, T6) {
    open spec fn spec_size_hint(&self) -> core::result::Result<usize, Error> {
        size_then(
            (
                self.0,
                self.1,
                self.2,
                self.3,
                self.4,
            ).spec_size_hint(),
            self.5.spec_size_hint(),
        )
    }

    fn size_hint(&self) -> (r: Result<usize>) {
        let mut result: usize = 0;
        result = add_size(result, self.0.size_hint()?)?;
        result = add_size(result, self.1.size_hint()?)?;
        result = add_size(result, self.2.size_hint()?)?;
        result = add_size(result, self.3.size_hint()?)?;
        result = add_size(result, self.4.size_hint()?)?;
        result = add_size(result, self.5.size_hint()?)?;
        Ok(result)
    }
}

impl<
    T1: MtProtoSized,
    T2: MtProtoSized,
    T3: MtProtoSized,
    T4: MtProtoSized,
    T5: MtProtoSized,
    T6: MtProtoSized,
    T7: MtProtoSized,
> MtProtoSized for (T1, T2, T3, T4, T5, T6, T7) {
    open spec fn spec_size_hint(&self) -> core::result::Result<usize, Error> {
        size_then(
            (
                self.0,
                self.1,
                self.2,
                self.3,
                self.4,
                self.5,
            ).spec_size_hint(),
            self.6.spec_size_hint(),
        )
    }

    fn size_hint(&self) -> (r: Result<usize>) {
        let mut result: usize = 0;
        result = add_size(result, self.0.size_hint()?)?;
        result = add_size(result, self.1.size_hint()?)?;
        result = add_size(result, self.2.size_hint()?)?;
        result = add_size(result, self.3.size_hint()?)?;
        result = add_size(result, self.4.size_hint()?)?;
        result = add_size(result, self.5.size_hint()?)?;
        result = add_size(result, self.6.size_hint()?)?;
        Ok(result)
    }
}

impl<
    T1: MtProtoSized,
    T2: MtProtoSized,
    T3: MtProtoSized,
    T4: MtProtoSized,
    T5: MtProtoSized,
    T6: MtProtoSized,
    T7: MtProtoSized,
    T8: MtProtoSized,
> MtProtoSized for (T1, T2, T3, T4, T5, T6, T7, T8) {
    open spec fn spec_size_hint(&self) -> core::result::Result<usize, Error> {
        size_then(
            (
                self.0,
                self.1,
                self.2,
                self.3,
                self.4,
                self.5,
                self.6,
            ).spec_size_hint(),
            self.7.spec_size_hint(),
        )
    }

    fn size_hint(&self) -> (r: Result<usize>) {
        let mut result: usize = 0;
        result = add_size(result, self.0.size_hint()?)?;
        result = add_size(result, self.1.size_hint()?)?;
        result = add_size(result, self.2.size_hint()?)?;
        result = add_size(result, self.3.size_hint()?)?;
        result = add_size(result, self.4.size_hint()?)?;
        result = add_size(result, self.5.size_hint()?)?;
        result = add_size(result, self.6.size_hint()?)?;
        result = add_size(result, self.7.size_hint()?)?;
        Ok(result)
    }
}

impl<
    T1: MtProtoSized,
    T2: MtProtoSized,
    T3: MtProtoSized,
    T4: MtProtoSized,
    T5: MtProtoSized,
    T6: MtProtoSized,
    T7: MtProtoSized,
    T8: MtProtoSized,
    T9: MtProtoSized,
> MtProtoSized for (T1, T2, T3, T4, T5, T6, T7, T8, T9) {
    open spec fn spec_size_hint(&self) -> core::result::Result<usize, Error> {
        size_then(
            (
                self.0,
                self.1,
                self.2,
                self.3,
                self.4,
                self.5,
                self.6,
                self.7,
            ).spec_size_hint(),
            self.8.spec_size_hint(),
        )
    }

    fn size_hint(&self) -> (r: Result<usize>) {
        let mut result: usize = 0;
        result = add_size(result, self.0.size_hint()?)?;
        result = add_size(result, self.1.size_hint()?)?;
        result = add_size(result, self.2.size_hint()?)?;
        result = add_size(result, self.3.size_hint()?)?;
        result = add_size(result, self.4.size_hint()?)?;
        result = add_size(result, self.5.size_hint()?)?;
        result = add_size(result, self.6.size_hint()?)?;
        result = add_size(result, self.7.size_hint()?)?;
        result = add_size(result, self.8.size_hint()?)?;
        Ok(result)
    }
}

impl<
    T1: MtProtoSized,
    T2: MtProtoSized,
    T3: MtProtoSized,
    T4: MtProtoSized,
    T5: MtProtoSized,
    T6: MtProtoSized,
    T7: MtProtoSized,
    T8: MtProtoSized,
    T9: MtProtoSized,
    T10: MtProtoSized,
> MtProtoSized for (T1, T2, T3, T4, T5, T6, T7, T8, T9, T10) {
    open spec fn spec_size_hint(&self) -> core::result::Result<usize, Error> {
        size_then(
            (
                self.0,
                self.1,
                self.2,
                self.3,
                self.4,
                self.5,
                self.6,
                self.7,
                self.8,
            ).spec_size_hint(),
            self.9.spec_size_hint(),
        )
    }

    fn size_hint(&self) -> (r: Result<usize>) {
        let mut result: usize = 0;
        result = add_size(result, self.0.size_hint()?)?;
        result = add_size(result, self.1.size_hint()?)?;
        result = add_size(result, self.2.size_hint()?)?;
        result = add_size(result, self.3.size_hint()?)?;
        result = add_size(result, self.4.size_hint()?)?;
        result = add_size(result, self.5.size_hint()?)?;
        result = add_size(result, self.6.size_hint()?)?;
        result = add_size(result, self.7.size_hint()?)?;
        result = add_size(result, self.8.size_hint()?)?;
        result = add_size(result, self.9.size_hint()?)?;
        Ok(result)
    }
}

impl<
    T1: MtProtoSized,
    T2: MtProtoSized,
    T3: MtProtoSized,
    T4: MtProtoSized,
    T5: MtProtoSized,
    T6: MtProtoSized,
    T7: MtProtoSized,
    T8: MtProtoSized,
    T9: MtProtoSized,
    T10: MtProtoSized,
    T11: MtProtoSized,
> MtProtoSized for (T1, T2, T3, T4, T5, T6, T7, T8, T9, T10, T11) {
    open spec fn spec_size_hint(&self) -> core::result::Result<usize, Error> {
        size_then(
            (
                self.0,
                self.1,
                self.2,
                self.3,
                self.4,
                self.5,
                self.6,
                self.7,
                self.8,
                self.9,
            ).spec_size_hint(),
            self.10.spec_size_hint(),
        )
    }

    fn size_hint(&self) -> (r: Result<usize>) {
        let mut result: usize = 0;
        result = add_size(result, self.0.size_hint()?)?;
        result = add_size(result, self.1.size_hint()?)?;
        result = add_size(result, self.2.size_hint()?)?;
        result = add_size(result, self.3.size_hint()?)?;
        result = add_size(result, self.4.size_hint()?)?;
        result = add_size(result, self.5.size_hint()?)?;
        result = add_size(result, self.6.size_hint()?)?;
        result = add_size(result, self.7.size_hint()?)?;
        result = add_size(result, self.8.size_hint()?)?;
        result = add_size(result, self.9.size_hint()?)?;
        result = add_size(result, self.10.size_hint()?)?;
        Ok(result)
    }
}

impl<
    T1: MtProtoSized,
    T2: MtProtoSized,
    T3: MtProtoSized,
    T4: MtProtoSized,
    T5: MtProtoSized,
    T6: MtProtoSized,
    T7: MtProtoSized,
    T8: MtProtoSized,
    T9: MtProtoSized,
    T10: MtProtoSized,
    T11: MtProtoSized,
    T12: MtProtoSized,
> MtProtoSized for (T1, T2, T3, T4, T5, T6, T7, T8, T9, T10, T11, T12) {
    open spec fn spec_size_hint(&self) -> core::result::Result<usize, Error> {
        size_then(
            (
                self.0,
                self.1,
                self.2,
                self.3,
                self.4,
                self.5,
                self.6,
                self.7,
                self.8,
                self.9,
                self.10,
            ).spec_size_hint(),
            self.11.spec_size_hint(),
        )
    }

    fn size_hint(&self) -> (r: Result<usize>) {
        let mut result: usize = 0;
        result = add_size(result, self.0.size_hint()?)?;
        result = add_size(result, self.1.size_hint()?)?;
        result = add_size(result, self.2.size_hint()?)?;
        result = add_size(result, self.3.size_hint()?)?;
        result = add_size(result, self.4.size_hint()?)?;
        result = add_size(result, self.5.size_hint()?)?;
        result = add_size(result, self.6.size_hint()?)?;
        result = add_size(result, self.7.size_hint()?)?;
        result = add_size(result, self.8.size_hint()?)?;
        result = add_size(result, self.9.size_hint()?)?;
        result = add_size(result, self.10.size_hint()?)?;
        result = add_size(result, self.11.size_hint()?)?;
        Ok(result)
    }
}

} // verus!
