//! Checked numeric casts, cross-width equality and 128-bit split/join
//! helpers.

use crate::error::{Error, Result};
use vstd::prelude::*;

verus! {

/// `num_traits::cast::<i32, i8>`: the number itself where `i8` can hold it,
/// nothing otherwise.
#[verifier::external_body]
fn cast_i32_i8(n: i32) -> (r: Option<i8>)
    ensures
        r == (if i8::MIN <= n && n <= i8::MAX {
            Some(n as i8)
        } else {
            None::<i8>
        }),
{
    num_traits::cast::<i32, i8>(n)
}

/// `num_traits::cast::<i32, i16>`: the number itself where `i16` can hold
/// it, nothing otherwise.
#[verifier::external_body]
fn cast_i32_i16(n: i32) -> (r: Option<i16>)
    ensures
        r == (if i16::MIN <= n && n <= i16::MAX {
            Some(n as i16)
        } else {
            None::<i16>
        }),
{
    num_traits::cast::<i32, i16>(n)
}

/// `num_traits::cast::<u32, u8>`: the number itself where `u8` can hold it,
/// nothing otherwise.
#[verifier::external_body]
fn cast_u32_u8(n: u32) -> (r: Option<u8>)
    ensures
        r == (if n <= u8::MAX {
            Some(n as u8)
        } else {
            None::<u8>
        }),
{
    num_traits::cast::<u32, u8>(n)
}

/// `num_traits::cast::<u32, u16>`: the number itself where `u16` can hold
/// it, nothing otherwise.
#[verifier::external_body]
fn cast_u32_u16(n: u32) -> (r: Option<u16>)
    ensures
        r == (if n <= u16::MAX {
            Some(n as u16)
        } else {
            None::<u16>
        }),
{
    num_traits::cast::<u32, u16>(n)
}

/// `num_traits::cast::<usize, u32>`: the number itself where `u32` can hold
/// it, nothing otherwise.
#[verifier::external_body]
fn cast_usize_u32(n: usize) -> (r: Option<u32>)
    ensures
        r == (if n <= u32::MAX {
            Some(n as u32)
        } else {
            None::<u32>
        }),
{
    num_traits::cast::<usize, u32>(n)
}

/// `num_traits::cast::<u64, usize>`: the number itself where `usize` can
/// hold it, nothing otherwise.
#[verifier::external_body]
fn cast_u64_usize(n: u64) -> (r: Option<usize>)
    ensures
        r == (if n <= usize::MAX {
            Some(n as usize)
        } else {
            None::<usize>
        }),
{
    num_traits::cast::<u64, usize>(n)
}

/// `num_traits::cast::<i64, isize>`: the number itself where `isize` can
/// hold it, nothing otherwise.
#[verifier::external_body]
fn cast_i64_isize(n: i64) -> (r: Option<isize>)
    ensures
        r == (if isize::MIN <= n && n <= isize::MAX {
            Some(n as isize)
        } else {
            None::<isize>
        }),
{
    num_traits::cast::<i64, isize>(n)
}

/// Narrows a wire `i64` to an `isize`, or reports the number that does not
/// fit.
pub fn safe_int_cast_isize(n: i64) -> (r: Result<isize>)
    ensures
        isize::MIN <= n <= isize::MAX ==> r == Ok::<isize, Error>(n as isize) && r.unwrap() as int
            == n,
        !(isize::MIN <= n <= isize::MAX) ==> r == Err::<isize, Error>(
            Error::SignedIntegerCast(n as i128),
        ),
{
    match cast_i64_isize(n) {
        Some(v) => Ok(v),
        None => Err(Error::SignedIntegerCast(n as i128)),
    }
}

/// Narrows a wire `i32` to an `i8`, or reports the number that does not fit.
pub fn safe_int_cast_i8(n: i32) -> (r: Result<i8>)
    ensures
        i8::MIN <= n <= i8::MAX ==> r == Ok::<i8, Error>(n as i8) && r.unwrap() as int == n,
        !(i8::MIN <= n <= i8::MAX) ==> r == Err::<i8, Error>(Error::SignedIntegerCast(n as i128)),
{
    match cast_i32_i8(n) {
        Some(v) => Ok(v),
        None => Err(Error::SignedIntegerCast(n as i128)),
    }
}

/// Narrows a wire `i32` to an `i16`, or reports the number that does not
/// fit.
pub fn safe_int_cast_i16(n: i32) -> (r: Result<i16>)
    ensures
        i16::MIN <= n <= i16::MAX ==> r == Ok::<i16, Error>(n as i16) && r.unwrap() as int == n,
        !(i16::MIN <= n <= i16::MAX) ==> r == Err::<i16, Error>(
            Error::SignedIntegerCast(n as i128),
        ),
{
    match cast_i32_i16(n) {
        Some(v) => Ok(v),
        None => Err(Error::SignedIntegerCast(n as i128)),
    }
}

/// Narrows a wire `u32` to a `u8`, or reports the number that does not fit.
pub fn safe_uint_cast_u8(n: u32) -> (r: Result<u8>)
    ensures
        n <= u8::MAX ==> r == Ok::<u8, Error>(n as u8) && r.unwrap() as int == n,
        n > u8::MAX ==> r == Err::<u8, Error>(Error::UnsignedIntegerCast(n as u128)),
{
    match cast_u32_u8(n) {
        Some(v) => Ok(v),
        None => Err(Error::UnsignedIntegerCast(n as u128)),
    }
}

/// Narrows a wire `u32` to a `u16`, or reports the number that does not
/// fit.
pub fn safe_uint_cast_u16(n: u32) -> (r: Result<u16>)
    ensures
        n <= u16::MAX ==> r == Ok::<u16, Error>(n as u16) && r.unwrap() as int == n,
        n > u16::MAX ==> r == Err::<u16, Error>(Error::UnsignedIntegerCast(n as u128)),
{
    match cast_u32_u16(n) {
        Some(v) => Ok(v),
        None => Err(Error::UnsignedIntegerCast(n as u128)),
    }
}

/// Narrows a length to the `u32` that the wire holds, or reports the number
/// that does not fit.
pub fn safe_uint_cast_u32(n: usize) -> (r: Result<u32>)
    ensures
        n <= u32::MAX ==> r == Ok::<u32, Error>(n as u32) && r.unwrap() as int == n,
        n > u32::MAX ==> r == Err::<u32, Error>(Error::UnsignedIntegerCast(n as u128)),
{
    match cast_usize_u32(n) {
        Some(v) => Ok(v),
        None => Err(Error::UnsignedIntegerCast(n as u128)),
    }
}

/// Narrows a wire `u64` to a `usize`, or reports the number that does not
/// fit.
pub fn safe_uint_cast_usize(n: u64) -> (r: Result<usize>)
    ensures
        n <= usize::MAX ==> r == Ok::<usize, Error>(n as usize) && r.unwrap() as int == n,
        n > usize::MAX ==> r == Err::<usize, Error>(Error::UnsignedIntegerCast(n as u128)),
{
    match cast_u64_usize(n) {
        Some(v) => Ok(v),
        None => Err(Error::UnsignedIntegerCast(n as u128)),
    }
}

/// Whether a sequence of `len` elements, or of `len` bytes, can be written:
/// the wire holds a length in 32 bits.
pub fn check_seq_len(len: usize) -> (r: Result<()>)
    ensures
        len <= u32::MAX ==> r == Ok::<(), Error>(()),
        len > u32::MAX ==> r == Err::<(), Error>(Error::SeqTooLong(len)),
{
    match safe_uint_cast_u32(len) {
        Ok(_) => Ok(()),
        Err(_) => Err(Error::SeqTooLong(len)),
    }
}

/// Whether a `u32` and a `usize` hold the same number.
pub fn safe_uint_eq(x: u32, y: usize) -> (r: bool)
    ensures
        r == (x as int == y as int),
{
    match cast_usize_u32(y) {
        Some(uy) => x == uy,
        None => false,
    }
}

/// `2` to the power `64`.
pub open spec fn two_pow_64() -> int {
    0x1_0000_0000_0000_0000
}

/// Joins two 64-bit halves into a signed 128-bit integer: `hi` times two to
/// the 64th, plus `lo`.
pub fn i128_from_parts(hi: i64, lo: u64) -> (n: i128)
    ensures
        n as int == hi as int * two_pow_64() + lo as int,
{
    let h: i128 = hi as i128;
    let l: i128 = lo as i128;
    assert((h << 64) | l == h * 0x1_0000_0000_0000_0000 + l) by (bit_vector)
        requires
            -0x8000_0000_0000_0000 <= h < 0x8000_0000_0000_0000,
            0 <= l < 0x1_0000_0000_0000_0000,
    ;
    (h << 64) | l
}

/// Joins two 64-bit halves into an unsigned 128-bit integer: `hi` times two
/// to the 64th, plus `lo`.
pub fn u128_from_parts(hi: u64, lo: u64) -> (n: u128)
    ensures
        n as int == hi as int * two_pow_64() + lo as int,
{
    let h: u128 = hi as u128;
    let l: u128 = lo as u128;
    assert((h << 64) | l == h * 0x1_0000_0000_0000_0000 + l) by (bit_vector)
        requires
            h < 0x1_0000_0000_0000_0000,
            l < 0x1_0000_0000_0000_0000,
    ;
    (h << 64) | l
}

/// Splits a signed 128-bit integer into its upper and lower 64-bit halves:
/// the quotient and the remainder of a division by two to the 64th.
pub fn i128_to_parts(n: i128) -> (parts: (i64, u64))
    ensures
        parts.0 as int * two_pow_64() + parts.1 as int == n as int,
        parts.0 as int == n as int / two_pow_64(),
        parts.1 as int == n as int % two_pow_64(),
{
    let lo: u64 = n as u64;
    let hi: i64 = (n >> 64) as i64;
    assert(((n >> 64) as i64) as i128 * 0x1_0000_0000_0000_0000 + (n as u64) as i128 == n)
        by (bit_vector);
    assert(hi as int == n as int / two_pow_64() && lo as int == n as int % two_pow_64())
        by (nonlinear_arith)
        requires
            hi as int * two_pow_64() + lo as int == n as int,
            0 <= lo as int,
            (lo as int) < two_pow_64(),
            two_pow_64() == 0x1_0000_0000_0000_0000,
    ;
    (hi, lo)
}

/// Splits an unsigned 128-bit integer into its upper and lower 64-bit
/// halves: the quotient and the remainder of a division by two to the 64th.
pub fn u128_to_parts(n: u128) -> (parts: (u64, u64))
    ensures
        parts.0 as int * two_pow_64() + parts.1 as int == n as int,
        parts.0 as int == n as int / two_pow_64(),
        parts.1 as int == n as int % two_pow_64(),
{
    let lo: u64 = n as u64;
    let hi: u64 = (n >> 64) as u64;
    assert(((n >> 64) as u64) as u128 * 0x1_0000_0000_0000_0000 + (n as u64) as u128 == n)
        by (bit_vector);
    assert(hi as int == n as int / two_pow_64() && lo as int == n as int % two_pow_64())
        by (nonlinear_arith)
        requires
            hi as int * two_pow_64() + lo as int == n as int,
            0 <= lo as int,
            (lo as int) < two_pow_64(),
            two_pow_64() == 0x1_0000_0000_0000_0000,
    ;
    (hi, lo)
}

/// Splitting what was joined gives the halves back.
pub proof fn lemma_i128_parts_round_trip(hi: i64, lo: u64)
    ensures
        ((hi as int * two_pow_64() + lo as int) / two_pow_64()) == hi as int,
        ((hi as int * two_pow_64() + lo as int) % two_pow_64()) == lo as int,
        i128::MIN <= hi as int * two_pow_64() + lo as int <= i128::MAX,
{
    let n = hi as int * two_pow_64() + lo as int;
    assert(n / two_pow_64() == hi as int && n % two_pow_64() == lo as int) by (nonlinear_arith)
        requires
            n == hi as int * two_pow_64() + lo as int,
            0 <= lo as int,
            (lo as int) < two_pow_64(),
            two_pow_64() == 0x1_0000_0000_0000_0000,
    ;
    assert(i128::MIN <= n <= i128::MAX) by (nonlinear_arith)
        requires
            n == hi as int * two_pow_64() + lo as int,
            0 <= lo as int,
            (lo as int) < 0x1_0000_0000_0000_0000,
            -0x8000_0000_0000_0000 <= hi as int,
            (hi as int) < 0x8000_0000_0000_0000,
            two_pow_64() == 0x1_0000_0000_0000_0000,
    ;
}

/// Splitting what was joined gives the halves back.
pub proof fn lemma_u128_parts_round_trip(hi: u64, lo: u64)
    ensures
        ((hi as int * two_pow_64() + lo as int) / two_pow_64()) == hi as int,
        ((hi as int * two_pow_64() + lo as int) % two_pow_64()) == lo as int,
        0 <= hi as int * two_pow_64() + lo as int <= u128::MAX,
{
    let n = hi as int * two_pow_64() + lo as int;
    assert(n / two_pow_64() == hi as int && n % two_pow_64() == lo as int) by (nonlinear_arith)
        requires
            n == hi as int * two_pow_64() + lo as int,
            0 <= lo as int,
            (lo as int) < two_pow_64(),
            two_pow_64() == 0x1_0000_0000_0000_0000,
    ;
    assert(0 <= n <= u128::MAX) by (nonlinear_arith)
        requires
            n == hi as int * two_pow_64() + lo as int,
            0 <= lo as int,
            (lo as int) < 0x1_0000_0000_0000_0000,
            0 <= hi as int,
            (hi as int) < 0x1_0000_0000_0000_0000,
            two_pow_64() == 0x1_0000_0000_0000_0000,
    ;
}

} // verus!
