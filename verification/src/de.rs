//! Deserialize MTProto binary representation to a Rust data structure.

use crate::error::{DeErrorKind, DeSerdeType, Error, IoErrorKind, Result};
use crate::identifiable::{BOOL_FALSE_ID, BOOL_TRUE_ID};
use crate::ser::Serialize;
use crate::utils::{
    i128_from_parts, safe_int_cast_i16, safe_int_cast_i8, safe_int_cast_isize, safe_uint_cast_u16,
    safe_uint_cast_u32, safe_uint_cast_u8, safe_uint_cast_usize, u128_from_parts,
};
use crate::wire;
use vstd::prelude::*;
use vstd::slice::slice_subrange;

verus! {

/// What a deserializer has still to read: the bytes, and the names of the
/// enum variants that it was given for them.
pub ghost struct Source {
    pub bytes: Seq<u8>,
    pub hints: Seq<Seq<char>>,
}

impl Source {
    /// What is left once `n` bytes are read.
    pub open spec fn skip(self, n: int) -> Source {
        Source { bytes: self.bytes.skip(n), hints: self.hints }
    }

    /// What is left once `n` bytes and `k` variant names are read.
    pub open spec fn advance(self, n: int, k: int) -> Source {
        Source { bytes: self.bytes.skip(n), hints: self.hints.skip(k) }
    }

    /// This source with the bytes and the variant names of `front` before
    /// it.
    pub open spec fn after(self, bytes: Seq<u8>, hints: Seq<Seq<char>>) -> Source {
        Source { bytes: bytes + self.bytes, hints: hints + self.hints }
    }
}

/// The unsigned integer in the first four bytes.
pub open spec fn spec_u32(bytes: Seq<u8>) -> core::result::Result<u32, Error> {
    if bytes.len() < 4 {
        Err(Error::Io(IoErrorKind::UnexpectedEof))
    } else {
        Ok(wire::le_value(bytes.take(4)) as u32)
    }
}

/// The unsigned integer in the first eight bytes.
pub open spec fn spec_u64(bytes: Seq<u8>) -> core::result::Result<u64, Error> {
    if bytes.len() < 8 {
        Err(Error::Io(IoErrorKind::UnexpectedEof))
    } else {
        Ok(wire::le_value(bytes.take(8)) as u64)
    }
}

/// The signed integer in the first four bytes.
pub open spec fn spec_i32(bytes: Seq<u8>) -> core::result::Result<i32, Error> {
    match spec_u32(bytes) {
        Ok(n) => Ok(wire::from_twos_complement(n as nat, 4) as i32),
        Err(e) => Err(e),
    }
}

/// The signed integer in the first eight bytes.
pub open spec fn spec_i64(bytes: Seq<u8>) -> core::result::Result<i64, Error> {
    match spec_u64(bytes) {
        Ok(n) => Ok(wire::from_twos_complement(n as nat, 8) as i64),
        Err(e) => Err(e),
    }
}

/// The bool whose id stands in the first four bytes.
pub open spec fn spec_bool(bytes: Seq<u8>) -> core::result::Result<bool, Error> {
    match spec_u32(bytes) {
        Ok(id) => if id == BOOL_FALSE_ID {
            Ok(false)
        } else if id == BOOL_TRUE_ID {
            Ok(true)
        } else {
            Err(Error::De(DeErrorKind::InvalidBoolId(id)))
        },
        Err(e) => Err(e),
    }
}

/// The signed 128-bit integer in the first sixteen bytes: its lower half,
/// then its upper half.
pub open spec fn spec_i128(bytes: Seq<u8>) -> core::result::Result<i128, Error> {
    if bytes.len() < 16 {
        Err(Error::Io(IoErrorKind::UnexpectedEof))
    } else {
        Ok(
            (spec_i64(bytes.skip(8)).unwrap() as int * 0x1_0000_0000_0000_0000 + spec_u64(
                bytes,
            ).unwrap() as int) as i128,
        )
    }
}

/// The unsigned 128-bit integer in the first sixteen bytes: its lower
/// half, then its upper half.
pub open spec fn spec_u128(bytes: Seq<u8>) -> core::result::Result<u128, Error> {
    if bytes.len() < 16 {
        Err(Error::Io(IoErrorKind::UnexpectedEof))
    } else {
        Ok(
            (spec_u64(bytes.skip(8)).unwrap() as int * 0x1_0000_0000_0000_0000 + spec_u64(
                bytes,
            ).unwrap() as int) as u128,
        )
    }
}

/// The `i8` in the first four bytes, which hold an `i32`.
pub open spec fn spec_i8(bytes: Seq<u8>) -> core::result::Result<i8, Error> {
    match spec_i32(bytes) {
        Ok(v) => if i8::MIN <= v <= i8::MAX {
            Ok(v as i8)
        } else {
            Err(Error::SignedIntegerCast(v as i128))
        },
        Err(e) => Err(e),
    }
}

/// The `i16` in the first four bytes, which hold an `i32`.
pub open spec fn spec_i16(bytes: Seq<u8>) -> core::result::Result<i16, Error> {
    match spec_i32(bytes) {
        Ok(v) => if i16::MIN <= v <= i16::MAX {
            Ok(v as i16)
        } else {
            Err(Error::SignedIntegerCast(v as i128))
        },
        Err(e) => Err(e),
    }
}

/// The `u8` in the first four bytes, which hold a `u32`.
pub open spec fn spec_u8(bytes: Seq<u8>) -> core::result::Result<u8, Error> {
    match spec_u32(bytes) {
        Ok(v) => if v <= u8::MAX {
            Ok(v as u8)
        } else {
            Err(Error::UnsignedIntegerCast(v as u128))
        },
        Err(e) => Err(e),
    }
}

/// The `u16` in the first four bytes, which hold a `u32`.
pub open spec fn spec_u16(bytes: Seq<u8>) -> core::result::Result<u16, Error> {
    match spec_u32(bytes) {
        Ok(v) => if v <= u16::MAX {
            Ok(v as u16)
        } else {
            Err(Error::UnsignedIntegerCast(v as u128))
        },
        Err(e) => Err(e),
    }
}

/// The `usize` in the first eight bytes, which hold a `u64`.
pub open spec fn spec_usize(bytes: Seq<u8>) -> core::result::Result<usize, Error> {
    match spec_u64(bytes) {
        Ok(v) => if v <= usize::MAX {
            Ok(v as usize)
        } else {
            Err(Error::UnsignedIntegerCast(v as u128))
        },
        Err(e) => Err(e),
    }
}

/// The `isize` in the first eight bytes, which hold an `i64`.
pub open spec fn spec_isize(bytes: Seq<u8>) -> core::result::Result<isize, Error> {
    match spec_i64(bytes) {
        Ok(v) => if isize::MIN <= v <= isize::MAX {
            Ok(v as isize)
        } else {
            Err(Error::SignedIntegerCast(v as i128))
        },
        Err(e) => Err(e),
    }
}

/// What reading a byte string leaves behind: on success its data, with its
/// bytes gone from the source; on failure the error, with nothing read.
pub open spec fn read_bytes(before: Source, r: Result<Vec<u8>>, after: Source) -> bool {
    match spec_byte_buf(before.bytes) {
        Ok((data, total)) => {
            &&& r is Ok
            &&& r.unwrap()@ == data
            &&& after == before.skip(total as int)
        },
        Err(e) => r == Err::<Vec<u8>, Error>(e) && after == before,
    }
}

/// What reading a string leaves behind: on success its characters, with
/// its bytes gone from the source; on failure the error, with nothing
/// read.
pub open spec fn read_chars(before: Source, r: Result<String>, after: Source) -> bool {
    match spec_string(before.bytes) {
        Ok((chars, total)) => {
            &&& r is Ok
            &&& r.unwrap()@ == chars
            &&& after == before.skip(total as int)
        },
        Err(e) => r == Err::<String, Error>(e) && after == before,
    }
}

/// What reading a value of `width` bytes leaves behind: on success the
/// value, with its bytes gone from the source; on failure the error, with
/// nothing read.
pub open spec fn read<T>(
    expected: core::result::Result<T, Error>,
    width: int,
    before: Source,
    r: Result<T>,
    after: Source,
) -> bool {
    match expected {
        Ok(v) => r == Ok::<T, Error>(v) && after == before.skip(width),
        Err(e) => r == Err::<T, Error>(e) && after == before,
    }
}

/// The length prefix of a byte string: how many bytes the prefix takes, and
/// how many bytes of data it announces.
///
/// A first byte up to 253 is the length. The byte 254 is followed by the
/// length in three bytes, which then is 254 at least. The byte 255 is
/// refused.
pub open spec fn spec_str_info(bytes: Seq<u8>) -> core::result::Result<(nat, nat), Error> {
    if bytes.len() < 1 {
        Err(Error::Io(IoErrorKind::UnexpectedEof))
    } else if bytes[0] <= 253 {
        Ok((1, bytes[0] as nat))
    } else if bytes[0] == 254 {
        if bytes.len() < 4 {
            Err(Error::Io(IoErrorKind::UnexpectedEof))
        } else {
            let len = wire::le_value(bytes.subrange(1, 4));
            if len <= 253 {
                Err(Error::De(DeErrorKind::BytesLenPrefix254LessThan254(len as u32)))
            } else {
                Ok((4, len))
            }
        }
    } else {
        Err(Error::De(DeErrorKind::InvalidBytesLenPrefix))
    }
}

/// The byte string at the front: its data, and the number of bytes that it
/// takes with its length prefix and its padding, which has to be zero.
pub open spec fn spec_byte_buf(bytes: Seq<u8>) -> core::result::Result<(Seq<u8>, nat), Error> {
    match spec_str_info(bytes) {
        Ok((prefix, len)) => {
            let padding = wire::padding_len(prefix + len);
            let total = prefix + len + padding;
            if bytes.len() < total {
                Err(Error::Io(IoErrorKind::UnexpectedEof))
            } else if bytes.subrange((prefix + len) as int, total as int) != wire::zeros(padding) {
                Err(Error::De(DeErrorKind::NonZeroBytesPadding))
            } else {
                Ok((bytes.subrange(prefix as int, (prefix + len) as int), total))
            }
        },
        Err(e) => Err(e),
    }
}

/// The string at the front: its characters, and the number of bytes that
/// it takes. Its bytes have to be well-formed UTF-8.
pub open spec fn spec_string(bytes: Seq<u8>) -> core::result::Result<(Seq<char>, nat), Error> {
    match spec_byte_buf(bytes) {
        Ok((data, total)) => if vstd::utf8::valid_utf8(data) {
            Ok((vstd::utf8::decode_utf8(data), total))
        } else {
            Err(Error::FromUtf8)
        },
        Err(e) => Err(e),
    }
}

/// `String::from_utf8`: the string that consists of the given bytes, where
/// they are well-formed UTF-8; nothing otherwise.
#[verifier::external_body]
fn string_from_utf8(bytes: Vec<u8>) -> (r: Option<String>)
    ensures
        r is Some <==> vstd::utf8::valid_utf8(bytes@),
        r is Some ==> vstd::utf8::encode_utf8(r.unwrap()@) == bytes@,
{
    String::from_utf8(bytes).ok()
}

/// Whether all of `bytes` are zero.
fn all_zero(bytes: &[u8]) -> (r: bool)
    ensures
        r == (bytes@ == wire::zeros(bytes@.len())),
{
    let mut i: usize = 0;
    while i < bytes.len()
        invariant
            i <= bytes.len(),
            forall|j: int| 0 <= j < i ==> bytes@[j] == 0,
        decreases bytes.len() - i,
    {
        if bytes[i] != 0 {
            assert(wire::zeros(bytes@.len())[i as int] == 0);
            return false;
        }
        i += 1;
    }
    assert(bytes@ =~= wire::zeros(bytes@.len()));
    true
}

/// A structure that deserializes MTProto binary representation into Rust
/// values.
pub struct Deserializer<'ids, 'a> {
    reader: &'a [u8],
    enum_variant_ids: &'ids [&'static str],
}

impl<'ids, 'a> View for Deserializer<'ids, 'a> {
    type V = Source;

    /// What is still to be read.
    closed spec fn view(&self) -> Source {
        Source {
            bytes: self.reader@,
            hints: crate::identifiable::names_view(self.enum_variant_ids@),
        }
    }
}

impl<'ids, 'a> Deserializer<'ids, 'a> {
    /// Create a MTProto deserializer from the bytes to read and the names
    /// of the enum variants in them.
    pub fn new(reader: &'a [u8], enum_variant_ids: &'ids [&'static str]) -> (de: Deserializer<
        'ids,
        'a,
    >)
        ensures
            de@.bytes == reader@,
            de@.hints == crate::identifiable::names_view(enum_variant_ids@),
    {
        Deserializer { reader, enum_variant_ids }
    }

    /// Unwraps the `Deserializer` and returns the bytes that were not read.
    pub fn into_reader(self) -> (reader: &'a [u8])
        ensures
            reader@ == self@.bytes,
    {
        self.reader
    }

    /// Consumes the `Deserializer` and returns remaining unprocessed bytes.
    pub fn remaining_bytes(self) -> (r: Result<Vec<u8>>)
        ensures
            r is Ok,
            r.unwrap()@ == self@.bytes,
    {
        let mut buf = Vec::new();
        crate::ser::extend(&mut buf, self.reader);
        Ok(buf)
    }

    /// Length of unprocessed data in the byte buffer.
    pub fn remaining_length(&self) -> (len: usize)
        ensures
            len == self@.bytes.len(),
    {
        self.reader.len()
    }

    /// Takes the next `n` bytes; where fewer are left, nothing is read.
    fn take(&mut self, n: usize) -> (r: Result<&'a [u8]>)
        ensures
            old(self)@.bytes.len() >= n ==> r is Ok && r.unwrap()@ == old(self)@.bytes.take(
                n as int,
            ) && final(self)@ == old(self)@.skip(n as int),
            old(self)@.bytes.len() < n ==> r == Err::<&'a [u8], Error>(
                Error::Io(IoErrorKind::UnexpectedEof),
            ) && final(self)@ == old(self)@,
    {
        if self.reader.len() < n {
            return Err(Error::Io(IoErrorKind::UnexpectedEof));
        }
        let front = slice_subrange(self.reader, 0, n);
        self.reader = slice_subrange(self.reader, n, self.reader.len());
        assert(front@ =~= old(self)@.bytes.take(n as int));
        assert(self.reader@ =~= old(self)@.bytes.skip(n as int));
        Ok(front)
    }

    /// Reads the length prefix of a byte string, and returns the number of
    /// bytes of data and of padding that follow it. On an error nothing is
    /// read.
    pub fn get_str_info(&mut self) -> (r: Result<(usize, usize)>)
        ensures
            match spec_str_info(old(self)@.bytes) {
                Ok((prefix, len)) => {
                    &&& r is Ok
                    &&& r.unwrap().0 == len
                    &&& r.unwrap().1 == wire::padding_len(prefix + len)
                    &&& final(self)@ == old(self)@.skip(prefix as int)
                },
                Err(e) => r == Err::<(usize, usize), Error>(e) && final(self)@ == old(self)@,
            },
    {
        if self.reader.len() < 1 {
            return Err(Error::Io(IoErrorKind::UnexpectedEof));
        }
        let first_byte = self.reader[0];
        let len: usize;
        let rem: usize;
        if first_byte <= 253 {
            len = first_byte as usize;
            rem = (len + 1) % 4;
            let _ = self.take(1)?;
        } else if first_byte == wire::LONG_LEN_MARKER {
            if self.reader.len() < 4 {
                return Err(Error::Io(IoErrorKind::UnexpectedEof));
            }
            let uncasted = wire::read_u24(slice_subrange(self.reader, 1, 4));
            proof {
                assert(self.reader@.subrange(1, 4).subrange(0, 3) =~= self.reader@.subrange(1, 4));
                wire::lemma_le_value_bound(self.reader@.subrange(1, 4));
                wire::lemma_pow256_values();
            }
            if uncasted <= 253 {
                return Err(Error::De(DeErrorKind::BytesLenPrefix254LessThan254(uncasted)));
            }
            len = uncasted as usize;
            rem = len % 4;
            let _ = self.take(4)?;
        } else {
            return Err(Error::De(DeErrorKind::InvalidBytesLenPrefix));
        }
        let padding = (4 - rem) % 4;
        Ok((len, padding))
    }

    /// Reads a byte string: its length prefix, its data and its padding,
    /// which has to be zero. On an error nothing is read.
    pub fn read_byte_buf(&mut self) -> (r: Result<Vec<u8>>)
        ensures
            read_bytes(old(self)@, r, final(self)@),
    {
        let saved = self.reader;
        let (len, padding) = self.get_str_info()?;
        let ghost prefix = spec_str_info(old(self)@.bytes).unwrap().0;
        let data = match self.take(len) {
            Ok(data) => data,
            Err(e) => {
                self.reader = saved;
                return Err(e);
            },
        };
        let ps = match self.take(padding) {
            Ok(ps) => ps,
            Err(e) => {
                self.reader = saved;
                return Err(e);
            },
        };
        assert(data@ =~= old(self)@.bytes.subrange(prefix as int, (prefix + len) as int));
        assert(ps@ =~= old(self)@.bytes.subrange(
            (prefix + len) as int,
            (prefix + len + padding) as int,
        ));
        if !all_zero(ps) {
            self.reader = saved;
            return Err(Error::De(DeErrorKind::NonZeroBytesPadding));
        }
        assert(self.reader@ =~= old(self)@.bytes.skip(prefix as int).skip(len as int).skip(
            padding as int,
        ));
        assert(self.reader@ =~= old(self)@.bytes.skip((prefix + len + padding) as int));
        let mut b = Vec::new();
        crate::ser::extend(&mut b, data);
        Ok(b)
    }

    /// Reads a string: a byte string whose data is well-formed UTF-8. On an
    /// error nothing is read.
    pub fn read_string(&mut self) -> (r: Result<String>)
        ensures
            read_chars(old(self)@, r, final(self)@),
    {
        let saved = self.reader;
        let s_bytes = self.read_byte_buf()?;
        match string_from_utf8(s_bytes) {
            Some(s) => {
                proof {
                    vstd::utf8::encode_utf8_decode_utf8(s@);
                }
                Ok(s)
            },
            None => {
                self.reader = saved;
                Err(Error::FromUtf8)
            },
        }
    }

    /// A value of any type cannot be read: the wire does not describe
    /// itself.
    pub fn deserialize_any(&mut self) -> (r: Result<()>)
        ensures
            r == Err::<(), Error>(Error::De(DeErrorKind::UnsupportedSerdeType(DeSerdeType::Any))),
            final(self)@ == old(self)@,
    {
        Err(Error::De(DeErrorKind::UnsupportedSerdeType(DeSerdeType::Any)))
    }

    /// Reads a bool: the id of true or of false.
    pub fn deserialize_bool(&mut self) -> (r: Result<bool>)
        ensures
            read(spec_bool(old(self)@.bytes), 4, old(self)@, r, final(self)@),
    {
        let saved = self.reader;
        let id_value = self.deserialize_u32()?;
        if id_value == BOOL_FALSE_ID {
            Ok(false)
        } else if id_value == BOOL_TRUE_ID {
            Ok(true)
        } else {
            self.reader = saved;
            Err(Error::De(DeErrorKind::InvalidBoolId(id_value)))
        }
    }

    /// Reads an `i8` from the 32 bits that hold it.
    pub fn deserialize_i8(&mut self) -> (r: Result<i8>)
        ensures
            read(spec_i8(old(self)@.bytes), 4, old(self)@, r, final(self)@),
    {
        let saved = self.reader;
        let value = self.deserialize_i32()?;
        match safe_int_cast_i8(value) {
            Ok(casted) => Ok(casted),
            Err(e) => {
                self.reader = saved;
                Err(e)
            },
        }
    }

    /// Reads an `i16` from the 32 bits that hold it.
    pub fn deserialize_i16(&mut self) -> (r: Result<i16>)
        ensures
            read(spec_i16(old(self)@.bytes), 4, old(self)@, r, final(self)@),
    {
        let saved = self.reader;
        let value = self.deserialize_i32()?;
        match safe_int_cast_i16(value) {
            Ok(casted) => Ok(casted),
            Err(e) => {
                self.reader = saved;
                Err(e)
            },
        }
    }

    /// Reads an `i32`.
    pub fn deserialize_i32(&mut self) -> (r: Result<i32>)
        ensures
            read(spec_i32(old(self)@.bytes), 4, old(self)@, r, final(self)@),
    {
        let bytes = self.take(4)?;
        assert(bytes@.subrange(0, 4) =~= old(self)@.bytes.take(4));
        proof {
            wire::lemma_le_value_bound(bytes@);
            wire::lemma_pow256_values();
        }
        Ok(wire::i32_from_bits(wire::read_u32(bytes)))
    }

    /// Reads an `i64`.
    pub fn deserialize_i64(&mut self) -> (r: Result<i64>)
        ensures
            read(spec_i64(old(self)@.bytes), 8, old(self)@, r, final(self)@),
    {
        let bytes = self.take(8)?;
        assert(bytes@.subrange(0, 8) =~= old(self)@.bytes.take(8));
        proof {
            wire::lemma_le_value_bound(bytes@);
            wire::lemma_pow256_values();
        }
        Ok(wire::i64_from_bits(wire::read_u64(bytes)))
    }

    /// Reads an `i128`: its lower half, then its upper half.
    pub fn deserialize_i128(&mut self) -> (r: Result<i128>)
        ensures
            read(spec_i128(old(self)@.bytes), 16, old(self)@, r, final(self)@),
    {
        if self.reader.len() < 16 {
            return Err(Error::Io(IoErrorKind::UnexpectedEof));
        }
        let lo = self.deserialize_u64()?;
        let hi = self.deserialize_i64()?;
        assert(self@.bytes =~= old(self)@.bytes.skip(16));
        Ok(i128_from_parts(hi, lo))
    }

    /// Reads a `u8` from the 32 bits that hold it.
    pub fn deserialize_u8(&mut self) -> (r: Result<u8>)
        ensures
            read(spec_u8(old(self)@.bytes), 4, old(self)@, r, final(self)@),
    {
        let saved = self.reader;
        let value = self.deserialize_u32()?;
        match safe_uint_cast_u8(value) {
            Ok(casted) => Ok(casted),
            Err(e) => {
                self.reader = saved;
                Err(e)
            },
        }
    }

    /// Reads a `u16` from the 32 bits that hold it.
    pub fn deserialize_u16(&mut self) -> (r: Result<u16>)
        ensures
            read(spec_u16(old(self)@.bytes), 4, old(self)@, r, final(self)@),
    {
        let saved = self.reader;
        let value = self.deserialize_u32()?;
        match safe_uint_cast_u16(value) {
            Ok(casted) => Ok(casted),
            Err(e) => {
                self.reader = saved;
                Err(e)
            },
        }
    }

    /// Reads a `u32`.
    pub fn deserialize_u32(&mut self) -> (r: Result<u32>)
        ensures
            read(spec_u32(old(self)@.bytes), 4, old(self)@, r, final(self)@),
    {
        let bytes = self.take(4)?;
        assert(bytes@.subrange(0, 4) =~= old(self)@.bytes.take(4));
        proof {
            wire::lemma_le_value_bound(bytes@);
            wire::lemma_pow256_values();
        }
        Ok(wire::read_u32(bytes))
    }

    /// Reads a `u64`.
    pub fn deserialize_u64(&mut self) -> (r: Result<u64>)
        ensures
            read(spec_u64(old(self)@.bytes), 8, old(self)@, r, final(self)@),
    {
        let bytes = self.take(8)?;
        assert(bytes@.subrange(0, 8) =~= old(self)@.bytes.take(8));
        proof {
            wire::lemma_le_value_bound(bytes@);
            wire::lemma_pow256_values();
        }
        Ok(wire::read_u64(bytes))
    }

    /// Reads a `u128`: its lower half, then its upper half.
    pub fn deserialize_u128(&mut self) -> (r: Result<u128>)
        ensures
            read(spec_u128(old(self)@.bytes), 16, old(self)@, r, final(self)@),
    {
        if self.reader.len() < 16 {
            return Err(Error::Io(IoErrorKind::UnexpectedEof));
        }
        let lo = self.deserialize_u64()?;
        let hi = self.deserialize_u64()?;
        assert(self@.bytes =~= old(self)@.bytes.skip(16));
        Ok(u128_from_parts(hi, lo))
    }

    /// Reads a `usize` from the 64 bits that hold it.
    pub fn deserialize_usize(&mut self) -> (r: Result<usize>)
        ensures
            read(spec_usize(old(self)@.bytes), 8, old(self)@, r, final(self)@),
    {
        let saved = self.reader;
        let value = self.deserialize_u64()?;
        match safe_uint_cast_usize(value) {
            Ok(casted) => Ok(casted),
            Err(e) => {
                self.reader = saved;
                Err(e)
            },
        }
    }

    /// Reads an `isize` from the 64 bits that hold it.
    pub fn deserialize_isize(&mut self) -> (r: Result<isize>)
        ensures
            read(spec_isize(old(self)@.bytes), 8, old(self)@, r, final(self)@),
    {
        let saved = self.reader;
        let value = self.deserialize_i64()?;
        match safe_int_cast_isize(value) {
            Ok(casted) => Ok(casted),
            Err(e) => {
                self.reader = saved;
                Err(e)
            },
        }
    }

    /// Reads a double, as its IEEE-754 bits: the one floating-point type of
    /// the wire.
    pub fn deserialize_f64(&mut self) -> (r: Result<u64>)
        ensures
            read(spec_u64(old(self)@.bytes), 8, old(self)@, r, final(self)@),
    {
        self.deserialize_u64()
    }

    /// A single character has no place on the wire.
    pub fn deserialize_char(&mut self) -> (r: Result<char>)
        ensures
            r == Err::<char, Error>(
                Error::De(DeErrorKind::UnsupportedSerdeType(DeSerdeType::Char)),
            ),
            final(self)@ == old(self)@,
    {
        Err(Error::De(DeErrorKind::UnsupportedSerdeType(DeSerdeType::Char)))
    }

    /// Reads a string.
    pub fn deserialize_str(&mut self) -> (r: Result<String>)
        ensures
            read_chars(old(self)@, r, final(self)@),
    {
        self.read_string()
    }

    /// Reads a string.
    pub fn deserialize_string(&mut self) -> (r: Result<String>)
        ensures
            read_chars(old(self)@, r, final(self)@),
    {
        self.read_string()
    }

    /// Reads a byte string.
    pub fn deserialize_bytes(&mut self) -> (r: Result<Vec<u8>>)
        ensures
            read_bytes(old(self)@, r, final(self)@),
    {
        self.read_byte_buf()
    }

    /// Reads a byte string.
    pub fn deserialize_byte_buf(&mut self) -> (r: Result<Vec<u8>>)
        ensures
            read_bytes(old(self)@, r, final(self)@),
    {
        self.read_byte_buf()
    }

    /// An optional value has no place on the wire.
    pub fn deserialize_option(&mut self) -> (r: Result<()>)
        ensures
            r == Err::<(), Error>(
                Error::De(DeErrorKind::UnsupportedSerdeType(DeSerdeType::Option)),
            ),
            final(self)@ == old(self)@,
    {
        Err(Error::De(DeErrorKind::UnsupportedSerdeType(DeSerdeType::Option)))
    }

    /// The bare unit has no place on the wire.
    pub fn deserialize_unit(&mut self) -> (r: Result<()>)
        ensures
            r == Err::<(), Error>(
                Error::De(DeErrorKind::UnsupportedSerdeType(DeSerdeType::Unit)),
            ),
            final(self)@ == old(self)@,
    {
        Err(Error::De(DeErrorKind::UnsupportedSerdeType(DeSerdeType::Unit)))
    }

    /// A unit struct takes no bytes.
    pub fn deserialize_unit_struct(&mut self, _name: &'static str) -> (r: Result<()>)
        ensures
            r == Ok::<(), Error>(()),
            final(self)@ == old(self)@,
    {
        Ok(())
    }

    /// A newtype struct is read as the value it holds.
    pub fn deserialize_newtype_struct<T: Deserialize>(&mut self, _name: &'static str) -> (r: Result<
        T,
    >)
        ensures
            T::decoded(old(self)@, r, final(self)@),
    {
        T::deserialize(self)
    }

    /// Begins a sequence by reading the number of its elements.
    pub fn deserialize_seq<'s>(&'s mut self) -> (r: Result<SeqAccess<'s, 'ids, 'a>>)
        ensures
            match spec_u32(old(self)@.bytes) {
                Ok(len) => {
                    &&& r is Ok
                    &&& r.unwrap().len == len
                    &&& r.unwrap().next_index == 0
                    &&& r.unwrap().de@ == old(self)@.skip(4)
                    &&& *final(self) == *final(r.unwrap().de)
                },
                Err(e) => r matches Err(err) && err == e && final(self)@ == old(self)@,
            },
    {
        let len = self.deserialize_u32()?;
        Ok(SeqAccess::new(self, len))
    }

    /// Begins a tuple of `len` elements: nothing is read for the tuple
    /// itself.
    pub fn deserialize_tuple<'s>(&'s mut self, len: usize) -> (r: Result<SeqAccess<'s, 'ids, 'a>>)
        ensures
            expecting(old(self)@, len, r),
            r is Ok ==> *final(self) == *final(r.unwrap().de),
            r is Err ==> final(self)@ == old(self)@,
    {
        let len = safe_uint_cast_u32(len)?;
        Ok(SeqAccess::new(self, len))
    }

    /// Begins a tuple struct of `len` fields: nothing is read for the
    /// struct itself.
    pub fn deserialize_tuple_struct<'s>(&'s mut self, _name: &'static str, len: usize) -> (r:
        Result<SeqAccess<'s, 'ids, 'a>>)
        ensures
            expecting(old(self)@, len, r),
            r is Ok ==> *final(self) == *final(r.unwrap().de),
            r is Err ==> final(self)@ == old(self)@,
    {
        let len = safe_uint_cast_u32(len)?;
        Ok(SeqAccess::new(self, len))
    }

    /// Begins a map by reading the number of its entries.
    pub fn deserialize_map<'s>(&'s mut self) -> (r: Result<MapAccess<'s, 'ids, 'a>>)
        ensures
            match spec_u32(old(self)@.bytes) {
                Ok(len) => {
                    &&& r is Ok
                    &&& r.unwrap().len == len
                    &&& r.unwrap().next_index == 0
                    &&& r.unwrap().de@ == old(self)@.skip(4)
                    &&& *final(self) == *final(r.unwrap().de)
                },
                Err(e) => r matches Err(err) && err == e && final(self)@ == old(self)@,
            },
    {
        let len = self.deserialize_u32()?;
        Ok(MapAccess::new(self, len))
    }

    /// Begins a struct with the given fields: nothing is read for the
    /// struct itself.
    pub fn deserialize_struct<'s>(
        &'s mut self,
        _name: &'static str,
        fields: &'static [&'static str],
    ) -> (r: Result<SeqAccess<'s, 'ids, 'a>>)
        ensures
            expecting(old(self)@, fields@.len() as usize, r),
            r is Ok ==> *final(self) == *final(r.unwrap().de),
            r is Err ==> final(self)@ == old(self)@,
    {
        let len = safe_uint_cast_u32(fields.len())?;
        Ok(SeqAccess::new(self, len))
    }

    /// Begins an enum: nothing is read for the enum itself.
    pub fn deserialize_enum<'s>(
        &'s mut self,
        _name: &'static str,
        _variants: &'static [&'static str],
    ) -> (r: Result<EnumVariantAccess<'s, 'ids, 'a>>)
        ensures
            r is Ok,
            r.unwrap().de@ == old(self)@,
            *final(self) == *final(r.unwrap().de),
    {
        Ok(EnumVariantAccess::new(self))
    }

    /// Takes the next of the enum variant names that the deserializer was
    /// given: the variant that stands at this place. The wire holds
    /// nothing for it.
    pub fn deserialize_identifier(&mut self) -> (r: Result<&'static str>)
        ensures
            old(self)@.hints.len() > 0 ==> {
                &&& r is Ok
                &&& r.unwrap()@ == old(self)@.hints[0]
                &&& final(self)@ == old(self)@.advance(0, 1)
            },
            old(self)@.hints.len() == 0 ==> {
                &&& r matches Err(e)
                &&& e == Error::De(DeErrorKind::NoEnumVariantId)
                &&& final(self)@ == old(self)@
            },
    {
        if self.enum_variant_ids.len() == 0 {
            return Err(Error::De(DeErrorKind::NoEnumVariantId));
        }
        let variant_id = self.enum_variant_ids[0];
        self.enum_variant_ids =
        slice_subrange(self.enum_variant_ids, 1, self.enum_variant_ids.len());
        assert(self@.hints =~= old(self)@.hints.skip(1));
        assert(self@.bytes =~= old(self)@.bytes.skip(0));
        Ok(variant_id)
    }

    /// A value cannot be skipped: the wire does not describe itself.
    pub fn deserialize_ignored_any(&mut self) -> (r: Result<()>)
        ensures
            r == Err::<(), Error>(
                Error::De(DeErrorKind::UnsupportedSerdeType(DeSerdeType::IgnoredAny)),
            ),
            final(self)@ == old(self)@,
    {
        Err(Error::De(DeErrorKind::UnsupportedSerdeType(DeSerdeType::IgnoredAny)))
    }
}

/// Putting two things in front of a source at once, or one after the
/// other, gives the same.
pub proof fn lemma_after_after(
    rest: Source,
    a: Seq<u8>,
    b: Seq<u8>,
    ha: Seq<Seq<char>>,
    hb: Seq<Seq<char>>,
)
    ensures
        rest.after(a + b, ha + hb) == rest.after(b, hb).after(a, ha),
{
    assert((a + b) + rest.bytes =~= a + (b + rest.bytes));
    assert((ha + hb) + rest.hints =~= ha + (hb + rest.hints));
}

/// A source is what is left of it after some bytes, behind these bytes.
pub proof fn lemma_source_split(before: Source, n: int)
    requires
        0 <= n <= before.bytes.len(),
    ensures
        before == before.skip(n).after(before.bytes.take(n), Seq::empty()),
{
    assert(before.bytes =~= before.bytes.take(n) + before.bytes.skip(n));
    assert(before.hints =~= Seq::<Seq<char>>::empty() + before.hints);
}

/// What stands behind some bytes is left once they are read.
pub proof fn lemma_source_join(rest: Source, bytes: Seq<u8>)
    ensures
        rest.after(bytes, Seq::empty()).skip(bytes.len() as int) == rest,
        rest.after(bytes, Seq::empty()).bytes.take(bytes.len() as int) == bytes,
        rest.after(bytes, Seq::empty()).bytes.len() >= bytes.len(),
{
    assert((bytes + rest.bytes).skip(bytes.len() as int) =~= rest.bytes);
    assert((bytes + rest.bytes).take(bytes.len() as int) =~= bytes);
    assert(Seq::<Seq<char>>::empty() + rest.hints =~= rest.hints);
}

/// An unsigned 32-bit integer that was read is what stood on the wire.
pub proof fn lemma_u32_decoded(bytes: Seq<u8>)
    requires
        bytes.len() >= 4,
    ensures
        spec_u32(bytes) is Ok,
        wire::uint_wire(spec_u32(bytes).unwrap() as nat) == bytes.take(4),
{
    wire::lemma_le_value_bound(bytes.take(4));
    wire::lemma_le_bytes_of_value(bytes.take(4));
    wire::lemma_pow256_values();
}

/// An unsigned 32-bit integer that was written is read back.
pub proof fn lemma_u32_written(v: u32, rest: Seq<u8>)
    ensures
        spec_u32(wire::uint_wire(v as nat) + rest) == Ok::<u32, Error>(v),
        (wire::uint_wire(v as nat) + rest).skip(4) == rest,
        wire::uint_wire(v as nat).len() == 4,
{
    wire::lemma_pow256_values();
    wire::lemma_read_written(v as nat, 4, rest);
    wire::lemma_le_bytes_len(v as nat, 4);
}

/// An unsigned 64-bit integer that was read is what stood on the wire.
pub proof fn lemma_u64_decoded(bytes: Seq<u8>)
    requires
        bytes.len() >= 8,
    ensures
        spec_u64(bytes) is Ok,
        wire::ulong_wire(spec_u64(bytes).unwrap() as nat) == bytes.take(8),
{
    wire::lemma_le_value_bound(bytes.take(8));
    wire::lemma_le_bytes_of_value(bytes.take(8));
    wire::lemma_pow256_values();
}

/// An unsigned 64-bit integer that was written is read back.
pub proof fn lemma_u64_written(v: u64, rest: Seq<u8>)
    ensures
        spec_u64(wire::ulong_wire(v as nat) + rest) == Ok::<u64, Error>(v),
        (wire::ulong_wire(v as nat) + rest).skip(8) == rest,
        wire::ulong_wire(v as nat).len() == 8,
{
    wire::lemma_pow256_values();
    wire::lemma_read_written(v as nat, 8, rest);
    wire::lemma_le_bytes_len(v as nat, 8);
}

/// A signed 32-bit integer that was read is what stood on the wire.
pub proof fn lemma_i32_decoded(bytes: Seq<u8>)
    requires
        bytes.len() >= 4,
    ensures
        spec_i32(bytes) is Ok,
        wire::int_wire(spec_i32(bytes).unwrap() as int) == bytes.take(4),
{
    lemma_u32_decoded(bytes);
    wire::lemma_pow256_values();
    wire::lemma_from_twos_complement_round_trip(spec_u32(bytes).unwrap() as nat, 4);
}

/// A signed 32-bit integer that was written is read back.
pub proof fn lemma_i32_written(v: i32, rest: Seq<u8>)
    ensures
        spec_i32(wire::int_wire(v as int) + rest) == Ok::<i32, Error>(v),
        (wire::int_wire(v as int) + rest).skip(4) == rest,
        wire::int_wire(v as int).len() == 4,
{
    wire::lemma_pow256_values();
    wire::lemma_twos_complement_round_trip(v as int, 4);
    let bits = wire::twos_complement(v as int, 4);
    wire::lemma_read_written(bits, 4, rest);
    wire::lemma_le_bytes_len(bits, 4);
}

/// A signed 64-bit integer that was read is what stood on the wire.
pub proof fn lemma_i64_decoded(bytes: Seq<u8>)
    requires
        bytes.len() >= 8,
    ensures
        spec_i64(bytes) is Ok,
        wire::long_wire(spec_i64(bytes).unwrap() as int) == bytes.take(8),
{
    lemma_u64_decoded(bytes);
    wire::lemma_pow256_values();
    wire::lemma_from_twos_complement_round_trip(spec_u64(bytes).unwrap() as nat, 8);
}

/// A signed 64-bit integer that was written is read back.
pub proof fn lemma_i64_written(v: i64, rest: Seq<u8>)
    ensures
        spec_i64(wire::long_wire(v as int) + rest) == Ok::<i64, Error>(v),
        (wire::long_wire(v as int) + rest).skip(8) == rest,
        wire::long_wire(v as int).len() == 8,
{
    wire::lemma_pow256_values();
    wire::lemma_twos_complement_round_trip(v as int, 8);
    let bits = wire::twos_complement(v as int, 8);
    wire::lemma_read_written(bits, 8, rest);
    wire::lemma_le_bytes_len(bits, 8);
}

/// A signed 128-bit integer that was read is what stood on the wire.
pub proof fn lemma_i128_decoded(bytes: Seq<u8>)
    requires
        bytes.len() >= 16,
    ensures
        spec_i128(bytes) is Ok,
        wire::int128_wire(spec_i128(bytes).unwrap() as int) == bytes.take(16),
{
    lemma_u64_decoded(bytes);
    lemma_i64_decoded(bytes.skip(8));
    let lo = spec_u64(bytes).unwrap();
    let hi = spec_i64(bytes.skip(8)).unwrap();
    crate::utils::lemma_i128_parts_round_trip(hi, lo);
    assert(bytes.take(16) =~= bytes.take(8) + bytes.skip(8).take(8));
}

/// A signed 128-bit integer that was written is read back.
pub proof fn lemma_i128_written(v: i128, rest: Seq<u8>)
    ensures
        spec_i128(wire::int128_wire(v as int) + rest) == Ok::<i128, Error>(v),
        (wire::int128_wire(v as int) + rest).skip(16) == rest,
        wire::int128_wire(v as int).len() == 16,
{
    let lo = (v as int % 0x1_0000_0000_0000_0000) as u64;
    let hi = (v as int / 0x1_0000_0000_0000_0000) as i64;
    assert(-0x8000_0000_0000_0000 <= v as int / 0x1_0000_0000_0000_0000 < 0x8000_0000_0000_0000
        && 0 <= v as int % 0x1_0000_0000_0000_0000 < 0x1_0000_0000_0000_0000 && v as int == (v as int
        / 0x1_0000_0000_0000_0000) * 0x1_0000_0000_0000_0000 + v as int % 0x1_0000_0000_0000_0000)
        by (nonlinear_arith)
        requires
            -0x8000_0000_0000_0000_0000_0000_0000_0000 <= (v as int),
            (v as int) < 0x8000_0000_0000_0000_0000_0000_0000_0000,
    ;
    let all = wire::int128_wire(v as int) + rest;
    let tail = wire::long_wire(hi as int) + rest;
    assert(all =~= wire::ulong_wire(lo as nat) + tail);
    lemma_u64_written(lo, tail);
    lemma_i64_written(hi, rest);
    assert(all.skip(16) =~= all.skip(8).skip(8));
}

/// An unsigned 128-bit integer that was read is what stood on the wire.
pub proof fn lemma_u128_decoded(bytes: Seq<u8>)
    requires
        bytes.len() >= 16,
    ensures
        spec_u128(bytes) is Ok,
        wire::uint128_wire(spec_u128(bytes).unwrap() as nat) == bytes.take(16),
{
    lemma_u64_decoded(bytes);
    lemma_u64_decoded(bytes.skip(8));
    let lo = spec_u64(bytes).unwrap();
    let hi = spec_u64(bytes.skip(8)).unwrap();
    crate::utils::lemma_u128_parts_round_trip(hi, lo);
    assert(bytes.take(16) =~= bytes.take(8) + bytes.skip(8).take(8));
}

/// An unsigned 128-bit integer that was written is read back.
pub proof fn lemma_u128_written(v: u128, rest: Seq<u8>)
    ensures
        spec_u128(wire::uint128_wire(v as nat) + rest) == Ok::<u128, Error>(v),
        (wire::uint128_wire(v as nat) + rest).skip(16) == rest,
        wire::uint128_wire(v as nat).len() == 16,
{
    let lo = (v as int % 0x1_0000_0000_0000_0000) as u64;
    let hi = (v as int / 0x1_0000_0000_0000_0000) as u64;
    assert(0 <= v as int / 0x1_0000_0000_0000_0000 < 0x1_0000_0000_0000_0000 && 0 <= v as int
        % 0x1_0000_0000_0000_0000 < 0x1_0000_0000_0000_0000 && v as int == (v as int
        / 0x1_0000_0000_0000_0000) * 0x1_0000_0000_0000_0000 + v as int % 0x1_0000_0000_0000_0000)
        by (nonlinear_arith)
        requires
            0 <= (v as int),
            (v as int) < 0x1_0000_0000_0000_0000_0000_0000_0000_0000,
    ;
    let all = wire::uint128_wire(v as nat) + rest;
    let tail = wire::ulong_wire(hi as nat) + rest;
    assert(all =~= wire::ulong_wire(lo as nat) + tail);
    lemma_u64_written(lo, tail);
    lemma_u64_written(hi, rest);
    assert(all.skip(16) =~= all.skip(8).skip(8));
}

/// A byte string that was read is what stood on the wire: the format
/// has one way to write it.
pub proof fn lemma_byte_buf_decoded(bytes: Seq<u8>)
    requires
        spec_byte_buf(bytes) is Ok,
    ensures
        spec_byte_buf(bytes).unwrap().0.len() <= wire::MAX_BYTE_SEQ_LEN,
        spec_byte_buf(bytes).unwrap().1 <= bytes.len(),
        wire::byte_seq_wire(spec_byte_buf(bytes).unwrap().0) == bytes.take(
            spec_byte_buf(bytes).unwrap().1 as int,
        ),
{
    let (prefix, len) = spec_str_info(bytes).unwrap();
    let (data, total) = spec_byte_buf(bytes).unwrap();
    let padding = wire::padding_len(prefix + len);
    if prefix == 4 {
        let digits = bytes.subrange(1, 4);
        wire::lemma_le_value_bound(digits);
        wire::lemma_le_bytes_of_value(digits);
        wire::lemma_pow256_values();
        assert(wire::byte_seq_prefix(len) =~= bytes.take(4));
    } else {
        assert(wire::byte_seq_prefix(len) =~= bytes.take(1));
    }
    assert(data.len() == len);
    assert(wire::byte_seq_wire(data) =~= bytes.take(total as int));
}

/// A byte string that was written is read back.
pub proof fn lemma_byte_buf_written(data: Seq<u8>, rest: Seq<u8>)
    requires
        data.len() <= wire::MAX_BYTE_SEQ_LEN,
    ensures
        spec_byte_buf(wire::byte_seq_wire(data) + rest) == Ok::<(Seq<u8>, nat), Error>(
            (data, wire::byte_seq_wire(data).len()),
        ),
        (wire::byte_seq_wire(data) + rest).skip(wire::byte_seq_wire(data).len() as int) == rest,
{
    let written = wire::byte_seq_wire(data);
    let all = written + rest;
    let len = data.len();
    wire::lemma_le_bytes_len(len, 3);
    wire::lemma_pow256_values();
    if len > 253 {
        assert(all.subrange(1, 4) =~= wire::le_bytes(len, 3));
        wire::lemma_le_value_of_bytes(len, 3);
        assert(all[0] == 254);
    } else {
        assert(all[0] == len as u8);
    }
    let (prefix, info_len) = spec_str_info(all).unwrap();
    assert(info_len == len);
    let padding = wire::padding_len(prefix + len);
    let total = prefix + len + padding;
    assert(total == written.len());
    assert(all.subrange((prefix + len) as int, total as int) =~= wire::zeros(padding));
    assert(all.subrange(prefix as int, (prefix + len) as int) =~= data);
    assert(all.skip(written.len() as int) =~= rest);
}

/// What beginning a tuple or a struct of `len` elements gives: an access
/// that expects `len` elements and has read none, with nothing read; or,
/// where `len` does not fit in 32 bits, that number as an error.
pub open spec fn expecting(before: Source, len: usize, r: Result<SeqAccess<'_, '_, '_>>) -> bool {
    if len <= u32::MAX {
        &&& r is Ok
        &&& r.unwrap().len == len
        &&& r.unwrap().next_index == 0
        &&& r.unwrap().de@ == before
    } else {
        &&& r matches Err(e)
        &&& e == Error::UnsignedIntegerCast(len as u128)
    }
}

/// A data structure that can be read from the MTProto binary
/// representation that `Serialize` writes.
///
/// The function that says what is read has a body that leaves it open, for
/// the types that only read.
pub trait Deserialize: Sized {
    /// Whether reading a value of this type from `before` gives `r` and
    /// leaves `after`.
    open spec fn decoded(before: Source, r: Result<Self>, after: Source) -> bool {
        arbitrary()
    }

    /// Read a value with the given deserializer.
    fn deserialize(de: &mut Deserializer) -> (r: Result<Self>)
        ensures
            Self::decoded(old(de)@, r, final(de)@),
    ;
}

/// What holds of every value of a type that is read as it is written.
pub trait DeserializeLaws: Deserialize + Serialize {
    /// What this value has to satisfy for its own bytes to be read back as
    /// a value with the same bytes. Most types ask nothing.
    spec fn reads_back(&self) -> bool;

    /// A value that was read is what stood at the front of the source:
    /// writing it gives the bytes that were read, and it holds the variant
    /// names that were taken.
    proof fn lemma_decoded_was_written(before: Source, v: Self, after: Source)
        requires
            Self::decoded(before, Ok(v), after),
        ensures
            v.wire() is Ok,
            before == after.after(v.wire().unwrap(), v.variant_hints()),
    ;

    /// What was written is read back, and what follows it is left.
    proof fn lemma_written_is_decoded(v: Self, rest: Source, r: Result<Self>, after: Source)
        requires
            v.wire() is Ok,
            v.reads_back(),
            Self::decoded(rest.after(v.wire().unwrap(), v.variant_hints()), r, after),
        ensures
            r is Ok,
            after == rest,
    ;

    /// Whether this value and another are the same value: equal, where the
    /// type has nothing that equality does not see; with the same content
    /// otherwise.
    spec fn same(&self, other: &Self) -> bool;

    /// What is written tells values apart: where two values stand at the
    /// front of one source, they are the same value, and the same stands
    /// behind them.
    proof fn lemma_one_reading(a: Self, b: Self, rest_a: Source, rest_b: Source)
        requires
            a.wire() is Ok,
            b.wire() is Ok,
            rest_a.after(a.wire().unwrap(), a.variant_hints()) == rest_b.after(
                b.wire().unwrap(),
                b.variant_hints(),
            ),
        ensures
            a.same(&b),
            rest_a == rest_b,
    ;
}

/// Whether reading values of one type from `start`, one after the other,
/// gives `items` and leaves `after`.
pub open spec fn decoded_all<T: Deserialize>(start: Source, items: Seq<T>, after: Source) -> bool
    decreases items.len(),
{
    if items.len() == 0 {
        after == start
    } else {
        exists|mid: Source|
            {
                &&& decoded_all::<T>(start, items.drop_last(), mid)
                &&& #[trigger] T::decoded(mid, Ok(items.last()), after)
            }
    }
}

/// Whether reading up to `len` values of one type from `start` fails with
/// `e` at one of them and leaves `after`: the values before it were read,
/// and this one was not.
pub open spec fn failed_within<T: Deserialize>(
    start: Source,
    len: int,
    e: Error,
    after: Source,
) -> bool {
    exists|done: Seq<T>, mid: Source|
        {
            &&& done.len() < len
            &&& #[trigger] decoded_all::<T>(start, done, mid)
            &&& T::decoded(mid, Err(e), after)
        }
}

/// Values that were read one after the other are what stood at the front
/// of the source, one after the other.
pub proof fn lemma_decoded_all_was_written<T: DeserializeLaws>(
    start: Source,
    items: Seq<T>,
    after: Source,
)
    requires
        decoded_all::<T>(start, items, after),
    ensures
        crate::ser::wire_all(items) is Ok,
        start == after.after(crate::ser::wire_all(items).unwrap(), crate::ser::hints_all(items)),
    decreases items.len(),
{
    if items.len() == 0 {
        assert(Seq::<u8>::empty() + after.bytes =~= after.bytes);
        assert(Seq::<Seq<char>>::empty() + after.hints =~= after.hints);
    } else {
        let front = items.drop_last();
        let mid = choose|mid: Source|
            {
                &&& decoded_all::<T>(start, front, mid)
                &&& #[trigger] T::decoded(mid, Ok(items.last()), after)
            };
        lemma_decoded_all_was_written::<T>(start, front, mid);
        T::lemma_decoded_was_written(mid, items.last(), after);
        let a = crate::ser::wire_all(front).unwrap();
        let b = items.last().wire().unwrap();
        let ha = crate::ser::hints_all(front);
        let hb = items.last().variant_hints();
        assert(start.bytes =~= (a + b) + after.bytes);
        assert(start.hints =~= (ha + hb) + after.hints);
    }
}

/// The bytes of values are those of the first of them, then those of the
/// others.
pub proof fn lemma_wire_all_first<T: Serialize>(items: Seq<T>)
    requires
        items.len() > 0,
    ensures
        crate::ser::wire_all(items) == crate::ser::wire_then(
            items.first().wire(),
            crate::ser::wire_all(items.drop_first()),
        ),
        crate::ser::hints_all(items) == items.first().variant_hints() + crate::ser::hints_all(
            items.drop_first(),
        ),
    decreases items.len(),
{
    let front = items.drop_last();
    let tail = items.drop_first();
    if items.len() == 1 {
        assert(front =~= Seq::<T>::empty());
        assert(tail =~= Seq::<T>::empty());
        match items.first().wire() {
            Ok(w) => {
                assert(Seq::<u8>::empty() + w =~= w + Seq::<u8>::empty());
            },
            Err(_) => {},
        }
        assert(Seq::<Seq<char>>::empty() + items.first().variant_hints()
            =~= items.first().variant_hints() + Seq::<Seq<char>>::empty());
    } else {
        lemma_wire_all_first(front);
        assert(front.drop_first() =~= tail.drop_last());
        assert(front.first() == items.first());
        assert(tail.last() == items.last());
        match (items.first().wire(), crate::ser::wire_all(tail.drop_last()), items.last().wire()) {
            (Ok(a), Ok(b), Ok(c)) => {
                assert((a + b) + c =~= a + (b + c));
            },
            _ => {},
        }
        assert((items.first().variant_hints() + crate::ser::hints_all(tail.drop_last()))
            + items.last().variant_hints() =~= items.first().variant_hints() + (crate::ser::hints_all(
            tail.drop_last(),
        ) + items.last().variant_hints()));
    }
}

/// Where some values were written and as many or fewer values were read
/// back, what is left are the bytes and the variant names of the values
/// that were not read yet, and what follows them.
pub proof fn lemma_decoded_all_of_written<T: DeserializeLaws>(
    items: Seq<T>,
    done: Seq<T>,
    rest: Source,
    mid: Source,
)
    requires
        crate::ser::wire_all(items) is Ok,
        forall|i: int| 0 <= i < items.len() ==> (#[trigger] items[i]).reads_back(),
        done.len() <= items.len(),
        decoded_all::<T>(
            rest.after(crate::ser::wire_all(items).unwrap(), crate::ser::hints_all(items)),
            done,
            mid,
        ),
    ensures
        crate::ser::wire_all(items.skip(done.len() as int)) is Ok,
        mid == rest.after(
            crate::ser::wire_all(items.skip(done.len() as int)).unwrap(),
            crate::ser::hints_all(items.skip(done.len() as int)),
        ),
    decreases done.len(),
{
    let start = rest.after(crate::ser::wire_all(items).unwrap(), crate::ser::hints_all(items));
    if done.len() == 0 {
        assert(items.skip(0) =~= items);
    } else {
        let k = done.len() as int;
        let front = done.drop_last();
        let before_last = choose|before_last: Source|
            {
                &&& decoded_all::<T>(start, front, before_last)
                &&& #[trigger] T::decoded(before_last, Ok(done.last()), mid)
            };
        lemma_decoded_all_of_written::<T>(items, front, rest, before_last);
        let tail = items.skip(k - 1);
        lemma_wire_all_first(tail);
        assert(tail.drop_first() =~= items.skip(k));
        assert(tail.first() == items[k - 1]);
        let behind = rest.after(
            crate::ser::wire_all(items.skip(k)).unwrap(),
            crate::ser::hints_all(items.skip(k)),
        );
        let w = items[k - 1].wire().unwrap();
        let h = items[k - 1].variant_hints();
        assert(before_last.bytes =~= w + behind.bytes);
        assert(before_last.hints =~= h + behind.hints);
        T::lemma_written_is_decoded(items[k - 1], behind, Ok(done.last()), mid);
    }
}

/// Where some values were written and fewer of them were read back, the
/// next one is read.
pub proof fn lemma_next_of_written<T: DeserializeLaws>(
    items: Seq<T>,
    done: Seq<T>,
    rest: Source,
    mid: Source,
    r: Result<T>,
    after: Source,
)
    requires
        crate::ser::wire_all(items) is Ok,
        forall|i: int| 0 <= i < items.len() ==> (#[trigger] items[i]).reads_back(),
        done.len() < items.len(),
        decoded_all::<T>(
            rest.after(crate::ser::wire_all(items).unwrap(), crate::ser::hints_all(items)),
            done,
            mid,
        ),
        T::decoded(mid, r, after),
    ensures
        r is Ok,
{
    let k = done.len() as int;
    lemma_decoded_all_of_written::<T>(items, done, rest, mid);
    let tail = items.skip(k);
    lemma_wire_all_first(tail);
    assert(tail.first() == items[k]);
    let behind = rest.after(
        crate::ser::wire_all(tail.drop_first()).unwrap(),
        crate::ser::hints_all(tail.drop_first()),
    );
    let w = items[k].wire().unwrap();
    let h = items[k].variant_hints();
    assert(mid.bytes =~= w + behind.bytes);
    assert(mid.hints =~= h + behind.hints);
    T::lemma_written_is_decoded(items[k], behind, r, after);
}

/// Whether two sequences of values hold the same values.
pub open spec fn same_all<T: DeserializeLaws>(a: Seq<T>, b: Seq<T>) -> bool {
    a.len() == b.len() && forall|i: int| 0 <= i < a.len() ==> (#[trigger] a[i]).same(&b[i])
}

/// What is written tells sequences of as many values apart: where two of
/// them stand at the front of one source, they hold the same values, and
/// the same stands behind them.
pub proof fn lemma_one_reading_all<T: DeserializeLaws>(
    a: Seq<T>,
    b: Seq<T>,
    rest_a: Source,
    rest_b: Source,
)
    requires
        a.len() == b.len(),
        crate::ser::wire_all(a) is Ok,
        crate::ser::wire_all(b) is Ok,
        rest_a.after(crate::ser::wire_all(a).unwrap(), crate::ser::hints_all(a)) == rest_b.after(
            crate::ser::wire_all(b).unwrap(),
            crate::ser::hints_all(b),
        ),
    ensures
        same_all(a, b),
        rest_a == rest_b,
    decreases a.len(),
{
    if a.len() == 0 {
        assert(Seq::<u8>::empty() + rest_a.bytes =~= rest_a.bytes);
        assert(Seq::<u8>::empty() + rest_b.bytes =~= rest_b.bytes);
        assert(Seq::<Seq<char>>::empty() + rest_a.hints =~= rest_a.hints);
        assert(Seq::<Seq<char>>::empty() + rest_b.hints =~= rest_b.hints);
    } else {
        lemma_wire_all_first(a);
        lemma_wire_all_first(b);
        let tail_a = a.drop_first();
        let tail_b = b.drop_first();
        let behind_a = rest_a.after(
            crate::ser::wire_all(tail_a).unwrap(),
            crate::ser::hints_all(tail_a),
        );
        let behind_b = rest_b.after(
            crate::ser::wire_all(tail_b).unwrap(),
            crate::ser::hints_all(tail_b),
        );
        lemma_after_after(
            rest_a,
            a.first().wire().unwrap(),
            crate::ser::wire_all(tail_a).unwrap(),
            a.first().variant_hints(),
            crate::ser::hints_all(tail_a),
        );
        lemma_after_after(
            rest_b,
            b.first().wire().unwrap(),
            crate::ser::wire_all(tail_b).unwrap(),
            b.first().variant_hints(),
            crate::ser::hints_all(tail_b),
        );
        T::lemma_one_reading(a.first(), b.first(), behind_a, behind_b);
        lemma_one_reading_all::<T>(tail_a, tail_b, rest_a, rest_b);
        assert forall|i: int| 0 <= i < a.len() implies (#[trigger] a[i]).same(&b[i]) by {
            if i > 0 {
                assert(a[i] == tail_a[i - 1]);
                assert(b[i] == tail_b[i - 1]);
            }
        }
    }
}

/// Whether reading `len` values of one type from `start` gives `r` and
/// leaves `after`: all of them, or the error of the first that is not
/// read.
pub open spec fn collected<T: Deserialize>(
    start: Source,
    len: int,
    r: Result<Vec<T>>,
    after: Source,
) -> bool {
    match r {
        Ok(items) => items@.len() == len && decoded_all::<T>(start, items@, after),
        Err(e) => failed_within::<T>(start, len, e, after),
    }
}

/// Where some values were written, reading as many values from what was
/// written succeeds and leaves what stood behind.
pub proof fn lemma_all_written_are_decoded<T: DeserializeLaws>(
    items: Seq<T>,
    rest: Source,
    r: Result<Vec<T>>,
    after: Source,
)
    requires
        crate::ser::wire_all(items) is Ok,
        forall|i: int| 0 <= i < items.len() ==> (#[trigger] items[i]).reads_back(),
        collected::<T>(
            rest.after(crate::ser::wire_all(items).unwrap(), crate::ser::hints_all(items)),
            items.len() as int,
            r,
            after,
        ),
    ensures
        r is Ok,
        after == rest,
{
    let start = rest.after(crate::ser::wire_all(items).unwrap(), crate::ser::hints_all(items));
    match r {
        Ok(read) => {
            lemma_decoded_all_of_written::<T>(items, read@, rest, after);
            assert(items.skip(items.len() as int) =~= Seq::<T>::empty());
            assert(Seq::<u8>::empty() + rest.bytes =~= rest.bytes);
            assert(Seq::<Seq<char>>::empty() + rest.hints =~= rest.hints);
        },
        Err(e) => {
            let (done, mid) = choose|done: Seq<T>, mid: Source|
                {
                    &&& done.len() < items.len()
                    &&& #[trigger] decoded_all::<T>(start, done, mid)
                    &&& T::decoded(mid, Err(e), after)
                };
            lemma_next_of_written::<T>(items, done, rest, mid, Err(e), after);
        },
    }
}

/// Reads the elements that `seq` has still to give, one after the other.
pub fn collect<T: Deserialize>(seq: &mut SeqAccess) -> (r: Result<Vec<T>>)
    ensures
        collected::<T>(
            old(seq).de@,
            spec_elements_left(old(seq).next_index, old(seq).len) as int,
            r,
            final(seq).de@,
        ),
        *final(final(seq).de) == *final(old(seq).de),
{
    let ghost start = seq.de@;
    let ghost left = spec_elements_left(seq.next_index, seq.len);
    let mut items: Vec<T> = Vec::new();
    loop
        invariant
            seq.len == old(seq).len,
            start == old(seq).de@,
            left == spec_elements_left(old(seq).next_index, old(seq).len),
            items@.len() + spec_elements_left(seq.next_index, seq.len) == left,
            decoded_all::<T>(start, items@, seq.de@),
            *final(seq.de) == *final(old(seq).de),
        decreases spec_elements_left(seq.next_index, seq.len),
    {
        let ghost before = seq.de@;
        let ghost done = items@;
        match seq.next_element::<T>() {
            Ok(Some(item)) => {
                items.push(item);
                proof {
                    assert(items@.drop_last() =~= done);
                    assert(decoded_all::<T>(start, items@.drop_last(), before) && T::decoded(
                        before,
                        Ok(items@.last()),
                        seq.de@,
                    ));
                }
            },
            Ok(None) => {
                return Ok(items);
            },
            Err(e) => {
                proof {
                    assert(done.len() < left && decoded_all::<T>(start, done, before)
                        && T::decoded(before, Err(e), seq.de@));
                }
                return Err(e);
            },
        }
    }
}

/// A value that carries what is needed to read another value: where the
/// wire does not tell how far a value goes, the seed does.
pub trait DeserializeSeed: Sized {
    /// The type of the value that is read.
    type Value;

    /// Whether reading a value with this seed from `before` gives `r` and
    /// leaves `after`.
    open spec fn decoded(self, before: Source, r: Result<Self::Value>, after: Source) -> bool {
        arbitrary()
    }

    /// Read a value with the given deserializer.
    fn deserialize(self, de: &mut Deserializer) -> (r: Result<Self::Value>)
        ensures
            self.decoded(old(de)@, r, final(de)@),
    ;
}

/// The number of elements that are still to be read, where `next_index`
/// of `len` were read.
pub open spec fn spec_elements_left(next_index: u32, len: u32) -> u32 {
    if next_index < len {
        (len - next_index) as u32
    } else {
        0
    }
}

/// The number of elements that are still to be read, where `next_index`
/// of `len` were read.
pub fn elements_left(next_index: u32, len: u32) -> (left: u32)
    ensures
        left == spec_elements_left(next_index, len),
{
    if next_index < len {
        len - next_index
    } else {
        0
    }
}

/// Access to the elements of a sequence, a tuple or a struct: it counts
/// the elements that are read against the number that is there.
pub struct SeqAccess<'s, 'ids, 'a> {
    /// The deserializer that the elements are read with.
    pub de: &'s mut Deserializer<'ids, 'a>,
    /// The number of elements that are there.
    pub len: u32,
    /// The number of elements read so far.
    pub next_index: u32,
}

impl<'s, 'ids, 'a> SeqAccess<'s, 'ids, 'a> {
    fn new(de: &'s mut Deserializer<'ids, 'a>, len: u32) -> (s: SeqAccess<'s, 'ids, 'a>)
        ensures
            s.len == len,
            s.next_index == 0,
            s.de@ == old(de)@,
            *final(de) == *final(s.de),
    {
        SeqAccess { de, len, next_index: 0 }
    }

    /// Reads the next element; where all were read, nothing is read and
    /// there is none.
    pub fn next_element<T: Deserialize>(&mut self) -> (r: Result<Option<T>>)
        ensures
            final(self).len == old(self).len,
            old(self).next_index < old(self).len ==> {
                &&& final(self).next_index == old(self).next_index + 1
                &&& match r {
                    Ok(Some(v)) => T::decoded(old(self).de@, Ok(v), final(self).de@),
                    Ok(None) => false,
                    Err(e) => T::decoded(old(self).de@, Err(e), final(self).de@),
                }
            },
            old(self).next_index >= old(self).len ==> {
                &&& final(self).next_index == old(self).next_index
                &&& r matches Ok(None)
                &&& final(self).de@ == old(self).de@
            },
            *final(final(self).de) == *final(old(self).de),
    {
        if elements_left(self.next_index, self.len) == 0 {
            return Ok(None);
        }
        self.next_index += 1;
        match T::deserialize(self.de) {
            Ok(v) => Ok(Some(v)),
            Err(e) => Err(e),
        }
    }

    /// Reads the next element with a seed; where all were read, nothing is
    /// read and there is none.
    pub fn next_element_seed<S: DeserializeSeed>(&mut self, seed: S) -> (r: Result<
        Option<S::Value>,
    >)
        ensures
            final(self).len == old(self).len,
            old(self).next_index < old(self).len ==> {
                &&& final(self).next_index == old(self).next_index + 1
                &&& match r {
                    Ok(Some(v)) => seed.decoded(old(self).de@, Ok(v), final(self).de@),
                    Ok(None) => false,
                    Err(e) => seed.decoded(old(self).de@, Err(e), final(self).de@),
                }
            },
            old(self).next_index >= old(self).len ==> {
                &&& final(self).next_index == old(self).next_index
                &&& r matches Ok(None)
                &&& final(self).de@ == old(self).de@
            },
            *final(final(self).de) == *final(old(self).de),
    {
        if elements_left(self.next_index, self.len) == 0 {
            return Ok(None);
        }
        self.next_index += 1;
        match seed.deserialize(self.de) {
            Ok(v) => Ok(Some(v)),
            Err(e) => Err(e),
        }
    }

    /// The number of elements that are still to be read.
    pub fn size_hint(&self) -> (r: Option<usize>)
        ensures
            self.next_index <= self.len ==> r == Some((self.len - self.next_index) as usize),
            self.next_index > self.len ==> r == Some(0usize),
    {
        Some(elements_left(self.next_index, self.len) as usize)
    }
}

/// Access to the entries of a map: it counts the keys that are read
/// against the number of entries that are there.
pub struct MapAccess<'s, 'ids, 'a> {
    /// The deserializer that the entries are read with.
    pub de: &'s mut Deserializer<'ids, 'a>,
    /// The number of entries that are there.
    pub len: u32,
    /// The number of keys read so far.
    pub next_index: u32,
}

impl<'s, 'ids, 'a> MapAccess<'s, 'ids, 'a> {
    fn new(de: &'s mut Deserializer<'ids, 'a>, len: u32) -> (s: MapAccess<'s, 'ids, 'a>)
        ensures
            s.len == len,
            s.next_index == 0,
            s.de@ == old(de)@,
            *final(de) == *final(s.de),
    {
        MapAccess { de, len, next_index: 0 }
    }

    /// Reads the key of the next entry; where all were read, nothing is
    /// read and there is none.
    pub fn next_key<K: Deserialize>(&mut self) -> (r: Result<Option<K>>)
        ensures
            final(self).len == old(self).len,
            old(self).next_index < old(self).len ==> {
                &&& final(self).next_index == old(self).next_index + 1
                &&& match r {
                    Ok(Some(v)) => K::decoded(old(self).de@, Ok(v), final(self).de@),
                    Ok(None) => false,
                    Err(e) => K::decoded(old(self).de@, Err(e), final(self).de@),
                }
            },
            old(self).next_index >= old(self).len ==> {
                &&& final(self).next_index == old(self).next_index
                &&& r matches Ok(None)
                &&& final(self).de@ == old(self).de@
            },
            *final(final(self).de) == *final(old(self).de),
    {
        if elements_left(self.next_index, self.len) == 0 {
            return Ok(None);
        }
        self.next_index += 1;
        match K::deserialize(self.de) {
            Ok(v) => Ok(Some(v)),
            Err(e) => Err(e),
        }
    }

    /// Reads the value of an entry.
    pub fn next_value<V: Deserialize>(&mut self) -> (r: Result<V>)
        ensures
            final(self).len == old(self).len,
            final(self).next_index == old(self).next_index,
            V::decoded(old(self).de@, r, final(self).de@),
            *final(final(self).de) == *final(old(self).de),
    {
        V::deserialize(self.de)
    }

    /// The number of entries that are still to be read.
    pub fn size_hint(&self) -> (r: Option<usize>)
        ensures
            self.next_index <= self.len ==> r == Some((self.len - self.next_index) as usize),
            self.next_index > self.len ==> r == Some(0usize),
    {
        Some(elements_left(self.next_index, self.len) as usize)
    }
}

/// Access to the variant of an enum and to what it holds.
pub struct EnumVariantAccess<'s, 'ids, 'a> {
    /// The deserializer that the variant is read with.
    pub de: &'s mut Deserializer<'ids, 'a>,
}

impl<'s, 'ids, 'a> EnumVariantAccess<'s, 'ids, 'a> {
    fn new(de: &'s mut Deserializer<'ids, 'a>) -> (s: EnumVariantAccess<'s, 'ids, 'a>)
        ensures
            s.de@ == old(de)@,
            *final(de) == *final(s.de),
    {
        EnumVariantAccess { de }
    }

    /// Takes the name of the variant that stands at this place.
    pub fn variant(&mut self) -> (r: Result<&'static str>)
        ensures
            old(self).de@.hints.len() > 0 ==> {
                &&& r is Ok
                &&& r.unwrap()@ == old(self).de@.hints[0]
                &&& final(self).de@ == old(self).de@.advance(0, 1)
            },
            old(self).de@.hints.len() == 0 ==> {
                &&& r matches Err(e)
                &&& e == Error::De(DeErrorKind::NoEnumVariantId)
                &&& final(self).de@ == old(self).de@
            },
            *final(final(self).de) == *final(old(self).de),
    {
        self.de.deserialize_identifier()
    }

    /// A unit variant takes no bytes.
    pub fn unit_variant(self) -> (r: Result<()>)
        ensures
            r == Ok::<(), Error>(()),
            final(self.de)@ == old(self.de)@,
    {
        Ok(())
    }

    /// A newtype variant is read as the value it holds.
    pub fn newtype_variant<T: Deserialize>(self) -> (r: Result<T>)
        ensures
            T::decoded(old(self.de)@, r, final(self.de)@),
    {
        T::deserialize(self.de)
    }

    /// Begins a tuple variant of `len` fields.
    pub fn tuple_variant(self, len: usize) -> (r: Result<SeqAccess<'s, 'ids, 'a>>)
        ensures
            expecting(old(self.de)@, len, r),
            r is Ok ==> *final(self.de) == *final(r.unwrap().de),
            r is Err ==> final(self.de)@ == old(self.de)@,
    {
        self.de.deserialize_tuple_struct("", len)
    }

    /// Begins a struct variant with the given fields.
    pub fn struct_variant(self, fields: &'static [&'static str]) -> (r: Result<
        SeqAccess<'s, 'ids, 'a>,
    >)
        ensures
            expecting(old(self.de)@, fields@.len() as usize, r),
            r is Ok ==> *final(self.de) == *final(r.unwrap().de),
            r is Err ==> final(self.de)@ == old(self.de)@,
    {
        self.de.deserialize_struct("", fields)
    }
}

/// Two sequences with the same end are equal where they are so with that
/// end behind them.
pub proof fn lemma_same_front<A>(a: Seq<A>, b: Seq<A>, end: Seq<A>)
    requires
        a + end == b + end,
    ensures
        a == b,
{
    let x = a + end;
    let y = b + end;
    assert(x.len() == a.len() + end.len());
    assert(y.len() == b.len() + end.len());
    assert forall|i: int| 0 <= i < a.len() implies a[i] == b[i] by {
        assert(x[i] == a[i]);
        assert(y[i] == b[i]);
    }
    assert(a =~= b);
}

/// Whether two values have the same bytes on the wire and the same variant
/// names: the deserializer cannot tell them apart.
pub open spec fn same_encoding<T: Serialize>(a: T, b: T) -> bool {
    a.wire() == b.wire() && a.variant_hints() == b.variant_hints()
}

/// Where a value was read from what another value had been written to,
/// with the same rest behind both, the two have the same encoding.
pub proof fn lemma_same_encoding<T: DeserializeLaws>(v: T, read: T, rest: Source)
    requires
        v.wire() is Ok,
        T::decoded(rest.after(v.wire().unwrap(), v.variant_hints()), Ok(read), rest),
    ensures
        same_encoding(read, v),
{
    T::lemma_decoded_was_written(rest.after(v.wire().unwrap(), v.variant_hints()), read, rest);
    lemma_same_front(read.wire().unwrap(), v.wire().unwrap(), rest.bytes);
    lemma_same_front(read.variant_hints(), v.variant_hints(), rest.hints);
}

/// Round trip: where a value was written and a value is read from what
/// was written, the reading succeeds, it leaves what stood behind, and the
/// value that was read is the value that was written.
pub proof fn lemma_round_trip<T: DeserializeLaws>(v: T, rest: Source, r: Result<T>, after: Source)
    requires
        v.wire() is Ok,
        v.reads_back(),
        T::decoded(rest.after(v.wire().unwrap(), v.variant_hints()), r, after),
    ensures
        r is Ok,
        after == rest,
        r.unwrap().same(&v),
        same_encoding(r.unwrap(), v),
{
    T::lemma_written_is_decoded(v, rest, r, after);
    lemma_same_encoding(v, r.unwrap(), rest);
    T::lemma_decoded_was_written(
        rest.after(v.wire().unwrap(), v.variant_hints()),
        r.unwrap(),
        rest,
    );
    T::lemma_one_reading(r.unwrap(), v, rest, rest);
}

/// What was read is written back as it stood: the format has one way to
/// write a value.
pub proof fn lemma_decoded_is_canonical<T: DeserializeLaws>(before: Source, v: T, after: Source)
    requires
        T::decoded(before, Ok(v), after),
    ensures
        v.wire() is Ok,
        before.bytes == v.wire().unwrap() + after.bytes,
        before.hints == v.variant_hints() + after.hints,
{
    T::lemma_decoded_was_written(before, v, after);
}

/// A wire `i32` outside the range of `i8` is refused where an `i8` is
/// read: it is neither wrapped nor truncated.
pub proof fn lemma_i8_out_of_range_is_refused(v: i32, rest: Seq<u8>)
    requires
        v < i8::MIN || v > i8::MAX,
    ensures
        spec_i8(wire::int_wire(v as int) + rest) == Err::<i8, Error>(
            Error::SignedIntegerCast(v as i128),
        ),
{
    lemma_i32_written(v, rest);
}

/// A byte string with one byte of its padding changed to another than zero
/// is refused.
pub proof fn lemma_corrupt_padding_is_refused(data: Seq<u8>, rest: Seq<u8>, at: int, byte: u8)
    requires
        data.len() <= wire::MAX_BYTE_SEQ_LEN,
        wire::byte_seq_prefix(data.len()).len() + data.len() <= at,
        at < wire::byte_seq_wire(data).len(),
        byte != 0,
    ensures
        spec_byte_buf((wire::byte_seq_wire(data) + rest).update(at, byte)) == Err::<
            (Seq<u8>, nat),
            Error,
        >(Error::De(DeErrorKind::NonZeroBytesPadding)),
{
    let written = wire::byte_seq_wire(data);
    let all = written + rest;
    let bad = all.update(at, byte);
    lemma_byte_buf_written(data, rest);
    let len = data.len();
    wire::lemma_le_bytes_len(len, 3);
    wire::lemma_pow256_values();
    if len > 253 {
        assert(all.subrange(1, 4) =~= wire::le_bytes(len, 3));
        assert(bad.subrange(1, 4) =~= all.subrange(1, 4));
        wire::lemma_le_value_of_bytes(len, 3);
    }
    assert(bad[0] == all[0]);
    assert(spec_str_info(bad) == spec_str_info(all));
    let (prefix, _len) = spec_str_info(all).unwrap();
    let padding = wire::padding_len(prefix + len);
    let total = prefix + len + padding;
    let region = bad.subrange((prefix + len) as int, total as int);
    assert(region[at - (prefix + len)] == byte);
    assert(wire::zeros(padding)[at - (prefix + len)] == 0);
}

/// The byte 254 followed by a length of less than 254 is refused: the
/// short form of the length prefix is the only one for such a length.
pub proof fn lemma_long_prefix_of_short_length_is_refused(bytes: Seq<u8>)
    requires
        bytes.len() >= 4,
        bytes[0] == 254,
        wire::le_value(bytes.subrange(1, 4)) < 254,
    ensures
        spec_byte_buf(bytes) == Err::<(Seq<u8>, nat), Error>(
            Error::De(
                DeErrorKind::BytesLenPrefix254LessThan254(
                    wire::le_value(bytes.subrange(1, 4)) as u32,
                ),
            ),
        ),
{
}

/// The source that a deserializer of `bytes` with the variant names
/// `enum_variant_ids` begins with.
pub open spec fn source_of(bytes: &[u8], enum_variant_ids: &[&'static str]) -> Source {
    Source { bytes: bytes@, hints: crate::identifiable::names_view(enum_variant_ids@) }
}

/// Deserialize an instance of type `T` from bytes of binary MTProto.
pub fn from_bytes<T: Deserialize>(bytes: &[u8], enum_variant_ids: &[&'static str]) -> (r: Result<T>)
    ensures
        exists|after: Source| T::decoded(source_of(bytes, enum_variant_ids), r, after),
{
    let mut de = Deserializer::new(bytes, enum_variant_ids);
    let r = T::deserialize(&mut de);
    assert(T::decoded(source_of(bytes, enum_variant_ids), r, de@));
    r
}

/// Deserialize an instance of type `T` from bytes of binary MTProto and return unused bytes.
pub fn from_bytes_reuse<'a, T: Deserialize>(
    bytes: &'a [u8],
    enum_variant_ids: &[&'static str],
) -> (r: Result<(T, &'a [u8])>)
    ensures
        r is Ok ==> exists|after: Source|
            {
                &&& #[trigger] T::decoded(
                    source_of(bytes, enum_variant_ids),
                    Ok(r.unwrap().0),
                    after,
                )
                &&& after.bytes == r.unwrap().1@
            },
        r matches Err(e) ==> exists|after: Source|
            T::decoded(source_of(bytes, enum_variant_ids), Err(e), after),
{
    let mut de = Deserializer::new(bytes, enum_variant_ids);
    let outcome = T::deserialize(&mut de);
    let ghost after = de@;
    assert(T::decoded(source_of(bytes, enum_variant_ids), outcome, after));
    match outcome {
        Ok(value) => {
            let unused = de.into_reader();
            let pair = (value, unused);
            assert(T::decoded(source_of(bytes, enum_variant_ids), Ok(pair.0), after));
            let out: Result<(T, &'a [u8])> = Ok(pair);
            assert(out is Ok);
            assert(out.unwrap() == pair);
            assert(out.unwrap().0 == pair.0);
            assert(T::decoded(source_of(bytes, enum_variant_ids), Ok(out.unwrap().0), after));
            out
        },
        Err(e) => {
            assert(T::decoded(source_of(bytes, enum_variant_ids), Err(e), after));
            Err(e)
        },
    }
}

/// Deserialize an instance of type `T` from bytes of binary MTProto using a seed.
pub fn from_bytes_seed<S: DeserializeSeed>(
    seed: S,
    bytes: &[u8],
    enum_variant_ids: &[&'static str],
) -> (r: Result<S::Value>)
    ensures
        exists|after: Source| seed.decoded(source_of(bytes, enum_variant_ids), r, after),
{
    let mut de = Deserializer::new(bytes, enum_variant_ids);
    let r = seed.deserialize(&mut de);
    assert(seed.decoded(source_of(bytes, enum_variant_ids), r, de@));
    r
}

/// Deserialize an instance of type `T` from a reader of binary MTProto that
/// is held in memory.
pub fn from_reader<T: Deserialize>(reader: &[u8], enum_variant_ids: &[&'static str]) -> (r: Result<
    T,
>)
    ensures
        exists|after: Source| T::decoded(source_of(reader, enum_variant_ids), r, after),
{
    from_bytes(reader, enum_variant_ids)
}

/// Deserialize an instance of type `T` from a reader of binary MTProto that
/// is held in memory, and return the unused part of it.
pub fn from_reader_reuse<'a, T: Deserialize>(
    reader: &'a [u8],
    enum_variant_ids: &[&'static str],
) -> (r: Result<(T, &'a [u8])>)
    ensures
        r is Ok ==> exists|after: Source|
            {
                &&& #[trigger] T::decoded(
                    source_of(reader, enum_variant_ids),
                    Ok(r.unwrap().0),
                    after,
                )
                &&& after.bytes == r.unwrap().1@
            },
        r matches Err(e) ==> exists|after: Source|
            T::decoded(source_of(reader, enum_variant_ids), Err(e), after),
{
    from_bytes_reuse(reader, enum_variant_ids)
}

/// Deserialize an instance of type `T` from a reader of binary MTProto that
/// is held in memory, using a seed.
pub fn from_reader_seed<S: DeserializeSeed>(
    seed: S,
    reader: &[u8],
    enum_variant_ids: &[&'static str],
) -> (r: Result<S::Value>)
    ensures
        exists|after: Source| seed.decoded(source_of(reader, enum_variant_ids), r, after),
{
    from_bytes_seed(seed, reader, enum_variant_ids)
}

} // verus!
