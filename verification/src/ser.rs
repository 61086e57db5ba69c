//! Serialize a Rust data structure into its MTProto binary representation.

use crate::error::{Error, Result, SerErrorKind, SerSerdeType};
use crate::identifiable::Identifiable;
use crate::sized::MtProtoSized;
use crate::utils::{i128_to_parts, safe_uint_cast_u32, u128_to_parts};
use crate::wire;
use vstd::prelude::*;

verus! {

/// Appends `bytes` to `out`.
pub(crate) fn extend(out: &mut Vec<u8>, bytes: &[u8])
    ensures
        final(out)@ == old(out)@ + bytes@,
{
    let mut i: usize = 0;
    while i < bytes.len()
        invariant
            i <= bytes.len(),
            out@ == old(out)@ + bytes@.take(i as int),
        decreases bytes.len() - i,
    {
        out.push(bytes[i]);
        i += 1;
        assert(bytes@.take(i as int) =~= bytes@.take(i as int - 1).push(bytes@[i as int - 1]));
        assert(out@ =~= old(out)@ + bytes@.take(i as int));
    }
    assert(bytes@.take(i as int) =~= bytes@);
}

/// Appends `count` zero bytes to `out`.
pub(crate) fn extend_zeros(out: &mut Vec<u8>, count: usize)
    ensures
        final(out)@ == old(out)@ + wire::zeros(count as nat),
{
    let mut i: usize = 0;
    while i < count
        invariant
            i <= count,
            out@ == old(out)@ + wire::zeros(i as nat),
        decreases count - i,
    {
        out.push(0);
        i += 1;
        assert(out@ =~= old(out)@ + wire::zeros(i as nat));
    }
}

/// What a call that writes a value leaves behind: on success the value's
/// bytes after what was there; on failure the value's error, with what was
/// there still in front.
pub open spec fn serialized(
    wire: core::result::Result<Seq<u8>, Error>,
    before: Seq<u8>,
    r: Result<()>,
    after: Seq<u8>,
) -> bool {
    match wire {
        Ok(bytes) => r == Ok::<(), Error>(()) && after == before + bytes,
        Err(e) => r == Err::<(), Error>(e) && before.is_prefix_of(after),
    }
}

/// A data structure that can be written in the MTProto binary
/// representation.
///
/// The functions that say what is written have a body that leaves it open,
/// for the types that only write.
pub trait Serialize {
    /// The bytes that stand for this value on the wire, or the reason why
    /// it cannot be written.
    open spec fn wire(&self) -> core::result::Result<Seq<u8>, Error> {
        arbitrary()
    }

    /// The names of the enum variants in this value, in the order in which
    /// a deserializer meets them: what it has to be given to read the value
    /// back, since the wire holds no discriminant.
    open spec fn variant_hints(&self) -> Seq<Seq<char>> {
        arbitrary()
    }

    /// Write this value with the given serializer.
    fn serialize(&self, ser: &mut Serializer) -> (r: Result<()>)
        ensures
            serialized(self.wire(), old(ser)@, r, final(ser)@),
    ;
}

/// What holds of the bytes of every value of a type that is written as the
/// format asks.
pub trait SerializeLaws: Serialize + MtProtoSized {
    /// What is written is a whole number of 32-bit words.
    proof fn lemma_wire_aligned(&self)
        ensures
            self.wire() is Ok ==> self.wire().unwrap().len() % 4 == 0,
    ;

    /// The size that is predicted for a value is the number of bytes that
    /// are written for it.
    proof fn lemma_size_is_wire_len(&self)
        ensures
            self.wire() is Ok && self.spec_size_hint() is Ok ==> self.spec_size_hint().unwrap()
                == self.wire().unwrap().len(),
    ;
}

/// A structure for serializing Rust values into MTProto binary
/// representation.
pub struct Serializer {
    writer: Vec<u8>,
}

impl View for Serializer {
    type V = Seq<u8>;

    /// The bytes written so far.
    closed spec fn view(&self) -> Seq<u8> {
        self.writer@
    }
}

impl Serializer {
    /// Create a MTProto serializer that appends to `writer`.
    pub fn new(writer: Vec<u8>) -> (ser: Serializer)
        ensures
            ser@ == writer@,
    {
        Serializer { writer }
    }

    /// Unwraps the `Serializer` and returns the bytes written.
    pub fn into_writer(self) -> (writer: Vec<u8>)
        ensures
            writer@ == self@,
    {
        self.writer
    }

    /// Writes a byte string: its length prefix, its bytes and the padding.
    /// One of more than `0xff_ff_ff` bytes is refused, and nothing is
    /// written.
    pub fn impl_serialize_bytes(&mut self, value: &[u8]) -> (r: Result<()>)
        ensures
            value@.len() <= wire::MAX_BYTE_SEQ_LEN ==> r == Ok::<(), Error>(()) && final(self)@
                == old(self)@ + wire::byte_seq_wire(value@),
            value@.len() > wire::MAX_BYTE_SEQ_LEN ==> r == Err::<(), Error>(
                Error::Ser(SerErrorKind::StringTooLong(value@.len() as usize)),
            ) && final(self)@ == old(self)@,
    {
        let len = value.len();
        let prefix_len: usize;
        if len <= wire::MAX_SHORT_LEN {
            self.writer.push(len as u8);
            prefix_len = 1;
        } else if len <= wire::MAX_BYTE_SEQ_LEN {
            self.writer.push(wire::LONG_LEN_MARKER);
            let len_bytes = wire::write_u24(len as u32);
            extend(&mut self.writer, len_bytes.as_slice());
            prefix_len = 4;
        } else {
            return Err(Error::Ser(SerErrorKind::StringTooLong(len)));
        }
        assert(self.writer@ =~= old(self)@ + wire::byte_seq_prefix(len as nat));
        proof {
            wire::lemma_le_bytes_len(len as nat, 3);
        }
        extend(&mut self.writer, value);
        extend_zeros(&mut self.writer, wire::padding_for(prefix_len + len));
        assert(self.writer@ =~= old(self)@ + wire::byte_seq_wire(value@));
        Ok(())
    }

    /// Writes a bool as its type id.
    pub fn serialize_bool(&mut self, value: bool) -> (r: Result<()>)
        ensures
            r == Ok::<(), Error>(()),
            final(self)@ == old(self)@ + wire::uint_wire(value.spec_type_id() as nat),
    {
        let bytes = wire::write_u32(value.type_id());
        extend(&mut self.writer, bytes.as_slice());
        Ok(())
    }

    /// Writes an `i8`, widened to 32 bits.
    pub fn serialize_i8(&mut self, value: i8) -> (r: Result<()>)
        ensures
            r == Ok::<(), Error>(()),
            final(self)@ == old(self)@ + wire::int_wire(value as int),
    {
        self.serialize_i32(value as i32)
    }

    /// Writes an `i16`, widened to 32 bits.
    pub fn serialize_i16(&mut self, value: i16) -> (r: Result<()>)
        ensures
            r == Ok::<(), Error>(()),
            final(self)@ == old(self)@ + wire::int_wire(value as int),
    {
        self.serialize_i32(value as i32)
    }

    /// Writes an `i32`.
    pub fn serialize_i32(&mut self, value: i32) -> (r: Result<()>)
        ensures
            r == Ok::<(), Error>(()),
            final(self)@ == old(self)@ + wire::int_wire(value as int),
    {
        let bytes = wire::write_u32(wire::i32_to_bits(value));
        extend(&mut self.writer, bytes.as_slice());
        Ok(())
    }

    /// Writes an `i64`.
    pub fn serialize_i64(&mut self, value: i64) -> (r: Result<()>)
        ensures
            r == Ok::<(), Error>(()),
            final(self)@ == old(self)@ + wire::long_wire(value as int),
    {
        let bytes = wire::write_u64(wire::i64_to_bits(value));
        extend(&mut self.writer, bytes.as_slice());
        Ok(())
    }

    /// Writes an `i128`: its lower half, then its upper half.
    pub fn serialize_i128(&mut self, value: i128) -> (r: Result<()>)
        ensures
            r == Ok::<(), Error>(()),
            final(self)@ == old(self)@ + wire::int128_wire(value as int),
    {
        let (hi, lo) = i128_to_parts(value);
        self.serialize_u64(lo)?;
        self.serialize_i64(hi)?;
        assert(self@ =~= old(self)@ + wire::int128_wire(value as int));
        Ok(())
    }

    /// Writes a `u8`, widened to 32 bits.
    pub fn serialize_u8(&mut self, value: u8) -> (r: Result<()>)
        ensures
            r == Ok::<(), Error>(()),
            final(self)@ == old(self)@ + wire::uint_wire(value as nat),
    {
        self.serialize_u32(value as u32)
    }

    /// Writes a `u16`, widened to 32 bits.
    pub fn serialize_u16(&mut self, value: u16) -> (r: Result<()>)
        ensures
            r == Ok::<(), Error>(()),
            final(self)@ == old(self)@ + wire::uint_wire(value as nat),
    {
        self.serialize_u32(value as u32)
    }

    /// Writes a `u32`.
    pub fn serialize_u32(&mut self, value: u32) -> (r: Result<()>)
        ensures
            r == Ok::<(), Error>(()),
            final(self)@ == old(self)@ + wire::uint_wire(value as nat),
    {
        let bytes = wire::write_u32(value);
        extend(&mut self.writer, bytes.as_slice());
        Ok(())
    }

    /// Writes a `u64`.
    pub fn serialize_u64(&mut self, value: u64) -> (r: Result<()>)
        ensures
            r == Ok::<(), Error>(()),
            final(self)@ == old(self)@ + wire::ulong_wire(value as nat),
    {
        let bytes = wire::write_u64(value);
        extend(&mut self.writer, bytes.as_slice());
        Ok(())
    }

    /// Writes a `u128`: its lower half, then its upper half.
    pub fn serialize_u128(&mut self, value: u128) -> (r: Result<()>)
        ensures
            r == Ok::<(), Error>(()),
            final(self)@ == old(self)@ + wire::uint128_wire(value as nat),
    {
        let (hi, lo) = u128_to_parts(value);
        self.serialize_u64(lo)?;
        self.serialize_u64(hi)?;
        assert(self@ =~= old(self)@ + wire::uint128_wire(value as nat));
        Ok(())
    }

    /// Writes a double, given by its IEEE-754 bits: the one floating-point
    /// type of the wire.
    pub fn serialize_f64(&mut self, bits: u64) -> (r: Result<()>)
        ensures
            r == Ok::<(), Error>(()),
            final(self)@ == old(self)@ + wire::ulong_wire(bits as nat),
    {
        self.serialize_u64(bits)
    }

    /// A single character has no place on the wire.
    pub fn serialize_char(&mut self, _value: char) -> (r: Result<()>)
        ensures
            r == Err::<(), Error>(
                Error::Ser(SerErrorKind::UnsupportedSerdeType(SerSerdeType::Char)),
            ),
            final(self)@ == old(self)@,
    {
        Err(Error::Ser(SerErrorKind::UnsupportedSerdeType(SerSerdeType::Char)))
    }

    /// Writes a string as the byte string of its UTF-8 encoding.
    pub fn serialize_str(&mut self, value: &str) -> (r: Result<()>)
        ensures
            serialized(str_wire(value@), old(self)@, r, final(self)@),
            r is Err ==> final(self)@ == old(self)@,
    {
        self.impl_serialize_bytes(value.as_bytes())
    }

    /// Writes a byte string.
    pub fn serialize_bytes(&mut self, value: &[u8]) -> (r: Result<()>)
        ensures
            serialized(bytes_wire(value@), old(self)@, r, final(self)@),
            r is Err ==> final(self)@ == old(self)@,
    {
        self.impl_serialize_bytes(value)
    }

    /// An absent value has no place on the wire.
    pub fn serialize_none(&mut self) -> (r: Result<()>)
        ensures
            r == Err::<(), Error>(
                Error::Ser(SerErrorKind::UnsupportedSerdeType(SerSerdeType::NoneValue)),
            ),
            final(self)@ == old(self)@,
    {
        Err(Error::Ser(SerErrorKind::UnsupportedSerdeType(SerSerdeType::NoneValue)))
    }

    /// An optional value has no place on the wire.
    pub fn serialize_some<T: Serialize>(&mut self, _value: &T) -> (r: Result<()>)
        ensures
            r == Err::<(), Error>(
                Error::Ser(SerErrorKind::UnsupportedSerdeType(SerSerdeType::SomeValue)),
            ),
            final(self)@ == old(self)@,
    {
        Err(Error::Ser(SerErrorKind::UnsupportedSerdeType(SerSerdeType::SomeValue)))
    }

    /// The bare unit has no place on the wire.
    pub fn serialize_unit(&mut self) -> (r: Result<()>)
        ensures
            r == Err::<(), Error>(
                Error::Ser(SerErrorKind::UnsupportedSerdeType(SerSerdeType::Unit)),
            ),
            final(self)@ == old(self)@,
    {
        Err(Error::Ser(SerErrorKind::UnsupportedSerdeType(SerSerdeType::Unit)))
    }

    /// A unit struct takes no bytes.
    pub fn serialize_unit_struct(&mut self, _name: &'static str) -> (r: Result<()>)
        ensures
            r == Ok::<(), Error>(()),
            final(self)@ == old(self)@,
    {
        Ok(())
    }

    /// A unit variant takes no bytes: the wire holds no discriminant.
    pub fn serialize_unit_variant(
        &mut self,
        _name: &'static str,
        _variant_index: u32,
        _variant: &'static str,
    ) -> (r: Result<()>)
        ensures
            r == Ok::<(), Error>(()),
            final(self)@ == old(self)@,
    {
        Ok(())
    }

    /// A newtype struct is written as the value it holds.
    pub fn serialize_newtype_struct<T: Serialize>(&mut self, _name: &'static str, value: &T) -> (r:
        Result<()>)
        ensures
            serialized(value.wire(), old(self)@, r, final(self)@),
    {
        value.serialize(self)
    }

    /// A newtype variant is written as the value it holds.
    pub fn serialize_newtype_variant<T: Serialize>(
        &mut self,
        _name: &'static str,
        _variant_index: u32,
        _variant: &'static str,
        value: &T,
    ) -> (r: Result<()>)
        ensures
            serialized(value.wire(), old(self)@, r, final(self)@),
    {
        value.serialize(self)
    }

    /// Begins a sequence by writing its length, which has to be known and
    /// to fit in 32 bits.
    pub fn serialize_seq<'a>(&'a mut self, len: Option<usize>) -> (r: Result<
        SerializeFixedLengthSeq<'a>,
    >)
        ensures
            match len {
                Some(len) => if len <= u32::MAX {
                    &&& r is Ok
                    &&& r.unwrap().len == len
                    &&& r.unwrap().next_index == 0
                    &&& r.unwrap().ser@ == old(self)@ + wire::uint_wire(len as nat)
                    &&& final(self)@ == final(r.unwrap().ser)@
                } else {
                    &&& r matches Err(e)
                    &&& e == Error::UnsignedIntegerCast(len as u128)
                    &&& final(self)@ == old(self)@
                },
                None => {
                    &&& r matches Err(e)
                    &&& e == Error::Ser(SerErrorKind::SeqsWithUnknownLengthUnsupported)
                    &&& final(self)@ == old(self)@
                },
            },
    {
        match len {
            Some(len) => {
                let len = safe_uint_cast_u32(len)?;
                SerializeFixedLengthSeq::with_serialize_len(self, len)
            },
            None => Err(Error::Ser(SerErrorKind::SeqsWithUnknownLengthUnsupported)),
        }
    }

    /// Begins a tuple of `len` elements: nothing is written for the tuple
    /// itself.
    pub fn serialize_tuple<'a>(&'a mut self, len: usize) -> (r: Result<SerializeFixedLengthSeq<'a>>)
        ensures
            begun(old(self)@, len, r),
            r is Ok ==> final(self)@ == final(r.unwrap().ser)@,
            r is Err ==> final(self)@ == old(self)@,
    {
        let len = safe_uint_cast_u32(len)?;
        Ok(SerializeFixedLengthSeq::new(self, len))
    }

    /// Begins a tuple struct of `len` fields: nothing is written for the
    /// struct itself.
    pub fn serialize_tuple_struct<'a>(&'a mut self, _name: &'static str, len: usize) -> (r: Result<
        SerializeFixedLengthSeq<'a>,
    >)
        ensures
            begun(old(self)@, len, r),
            r is Ok ==> final(self)@ == final(r.unwrap().ser)@,
            r is Err ==> final(self)@ == old(self)@,
    {
        let len = safe_uint_cast_u32(len)?;
        Ok(SerializeFixedLengthSeq::new(self, len))
    }

    /// Begins a tuple variant of `len` fields: nothing is written for the
    /// variant itself.
    pub fn serialize_tuple_variant<'a>(
        &'a mut self,
        _name: &'static str,
        _variant_index: u32,
        _variant: &'static str,
        len: usize,
    ) -> (r: Result<SerializeFixedLengthSeq<'a>>)
        ensures
            begun(old(self)@, len, r),
            r is Ok ==> final(self)@ == final(r.unwrap().ser)@,
            r is Err ==> final(self)@ == old(self)@,
    {
        let len = safe_uint_cast_u32(len)?;
        Ok(SerializeFixedLengthSeq::new(self, len))
    }

    /// Begins a map by writing the number of its entries, which has to be
    /// known and to fit in 32 bits.
    pub fn serialize_map<'a>(&'a mut self, len: Option<usize>) -> (r: Result<
        SerializeFixedLengthMap<'a>,
    >)
        ensures
            match len {
                Some(len) => if len <= u32::MAX {
                    &&& r is Ok
                    &&& r.unwrap().len == len
                    &&& r.unwrap().next_index == 0
                    &&& r.unwrap().ser@ == old(self)@ + wire::uint_wire(len as nat)
                    &&& final(self)@ == final(r.unwrap().ser)@
                } else {
                    &&& r matches Err(e)
                    &&& e == Error::UnsignedIntegerCast(len as u128)
                    &&& final(self)@ == old(self)@
                },
                None => {
                    &&& r matches Err(e)
                    &&& e == Error::Ser(SerErrorKind::MapsWithUnknownLengthUnsupported)
                    &&& final(self)@ == old(self)@
                },
            },
    {
        match len {
            Some(len) => {
                let len = safe_uint_cast_u32(len)?;
                SerializeFixedLengthMap::with_serialize_len(self, len)
            },
            None => Err(Error::Ser(SerErrorKind::MapsWithUnknownLengthUnsupported)),
        }
    }

    /// Begins a struct of `len` fields: nothing is written for the struct
    /// itself.
    pub fn serialize_struct<'a>(&'a mut self, _name: &'static str, len: usize) -> (r: Result<
        SerializeFixedLengthSeq<'a>,
    >)
        ensures
            begun(old(self)@, len, r),
            r is Ok ==> final(self)@ == final(r.unwrap().ser)@,
            r is Err ==> final(self)@ == old(self)@,
    {
        let len = safe_uint_cast_u32(len)?;
        Ok(SerializeFixedLengthSeq::new(self, len))
    }

    /// Begins a struct variant of `len` fields: nothing is written for the
    /// variant itself.
    pub fn serialize_struct_variant<'a>(
        &'a mut self,
        _name: &'static str,
        _variant_index: u32,
        _variant: &'static str,
        len: usize,
    ) -> (r: Result<SerializeFixedLengthSeq<'a>>)
        ensures
            begun(old(self)@, len, r),
            r is Ok ==> final(self)@ == final(r.unwrap().ser)@,
            r is Err ==> final(self)@ == old(self)@,
    {
        let len = safe_uint_cast_u32(len)?;
        Ok(SerializeFixedLengthSeq::new(self, len))
    }
}

/// A string on the wire: the byte string of its UTF-8 encoding, where that
/// has at most `0xff_ff_ff` bytes.
pub open spec fn str_wire(chars: Seq<char>) -> core::result::Result<Seq<u8>, Error> {
    bytes_wire(vstd::utf8::encode_utf8(chars))
}

/// A byte string on the wire, where it has at most `0xff_ff_ff` bytes.
pub open spec fn bytes_wire(data: Seq<u8>) -> core::result::Result<Seq<u8>, Error> {
    if data.len() <= wire::MAX_BYTE_SEQ_LEN {
        Ok(wire::byte_seq_wire(data))
    } else {
        Err(Error::Ser(SerErrorKind::StringTooLong(data.len() as usize)))
    }
}

/// What beginning a tuple or a struct of `len` elements gives: a helper
/// that expects `len` elements and has none yet, with nothing written;
/// or, where `len` does not fit in 32 bits, that number as an error.
pub open spec fn begun(
    before: Seq<u8>,
    len: usize,
    r: Result<SerializeFixedLengthSeq<'_>>,
) -> bool {
    if len <= u32::MAX {
        &&& r is Ok
        &&& r.unwrap().len == len
        &&& r.unwrap().next_index == 0
        &&& r.unwrap().ser@ == before
    } else {
        &&& r matches Err(e)
        &&& e == Error::UnsignedIntegerCast(len as u128)
    }
}

/// Counts one more element against the number that was announced: the
/// new count, or the number announced where that many were counted
/// already.
pub fn count_element(next_index: u32, len: u32) -> (r: Result<u32>)
    ensures
        next_index < len ==> r == Ok::<u32, Error>((next_index + 1) as u32),
        next_index >= len ==> r == Err::<u32, Error>(
            Error::Ser(SerErrorKind::ExcessElements(len)),
        ),
{
    if next_index < len {
        Ok(next_index + 1)
    } else {
        Err(Error::Ser(SerErrorKind::ExcessElements(len)))
    }
}

/// Checks at the end that as many elements were counted as were announced:
/// fewer are reported with both numbers.
pub fn check_all_counted(next_index: u32, len: u32) -> (r: Result<()>)
    ensures
        next_index < len ==> r == Err::<(), Error>(
            Error::Ser(SerErrorKind::NotEnoughElements(next_index, len)),
        ),
        next_index >= len ==> r == Ok::<(), Error>(()),
{
    if next_index < len {
        return Err(Error::Ser(SerErrorKind::NotEnoughElements(next_index, len)));
    }
    Ok(())
}

/// Helper structure for serializing fixed-length sequences: it counts the
/// elements that are written against the number that was announced.
pub struct SerializeFixedLengthSeq<'a> {
    /// The serializer that the elements are written with.
    pub ser: &'a mut Serializer,
    /// The number of elements announced.
    pub len: u32,
    /// The number of elements written so far.
    pub next_index: u32,
}

impl<'a> SerializeFixedLengthSeq<'a> {
    fn new(ser: &'a mut Serializer, len: u32) -> (s: SerializeFixedLengthSeq<'a>)
        ensures
            s.len == len,
            s.next_index == 0,
            s.ser@ == old(ser)@,
            final(ser)@ == final(s.ser)@,
    {
        SerializeFixedLengthSeq { ser, len, next_index: 0 }
    }

    fn with_serialize_len(ser: &'a mut Serializer, len: u32) -> (r: Result<
        SerializeFixedLengthSeq<'a>,
    >)
        ensures
            r is Ok,
            r.unwrap().len == len,
            r.unwrap().next_index == 0,
            r.unwrap().ser@ == old(ser)@ + wire::uint_wire(len as nat),
            final(ser)@ == final(r.unwrap().ser)@,
    {
        ser.serialize_u32(len)?;
        Ok(SerializeFixedLengthSeq::new(ser, len))
    }

    /// Writes the next element, where one is still expected; an element
    /// too many is refused, and nothing is written for it.
    pub fn impl_serialize_seq_value<T: Serialize>(
        &mut self,
        _key: Option<&'static str>,
        value: &T,
        _serializer_type: &'static str,
    ) -> (r: Result<()>)
        ensures
            final(self).len == old(self).len,
            old(self).next_index < old(self).len ==> {
                &&& final(self).next_index == old(self).next_index + 1
                &&& serialized(value.wire(), old(self).ser@, r, final(self).ser@)
            },
            old(self).next_index >= old(self).len ==> {
                &&& final(self).next_index == old(self).next_index
                &&& r == Err::<(), Error>(Error::Ser(SerErrorKind::ExcessElements(old(self).len)))
                &&& final(self).ser@ == old(self).ser@
            },
            *final(final(self).ser) == *final(old(self).ser),
    {
        self.next_index = count_element(self.next_index, self.len)?;
        value.serialize(self.ser)
    }

    /// Ends the sequence: fewer elements than announced are an error.
    pub fn impl_serialize_end(self, _data_type: &'static str) -> (r: Result<()>)
        ensures
            self.next_index < self.len ==> r == Err::<(), Error>(
                Error::Ser(SerErrorKind::NotEnoughElements(self.next_index, self.len)),
            ),
            self.next_index >= self.len ==> r == Ok::<(), Error>(()),
            final(self.ser)@ == old(self.ser)@,
    {
        check_all_counted(self.next_index, self.len)
    }

    /// Writes the next element of a sequence or a tuple.
    pub fn serialize_element<T: Serialize>(&mut self, value: &T) -> (r: Result<()>)
        ensures
            final(self).len == old(self).len,
            old(self).next_index < old(self).len ==> {
                &&& final(self).next_index == old(self).next_index + 1
                &&& serialized(value.wire(), old(self).ser@, r, final(self).ser@)
            },
            old(self).next_index >= old(self).len ==> {
                &&& final(self).next_index == old(self).next_index
                &&& r == Err::<(), Error>(Error::Ser(SerErrorKind::ExcessElements(old(self).len)))
                &&& final(self).ser@ == old(self).ser@
            },
            *final(final(self).ser) == *final(old(self).ser),
    {
        self.impl_serialize_seq_value(None, value, "SerializeSeq")
    }

    /// Writes the next field of a struct: the wire holds no field names.
    pub fn serialize_field<T: Serialize>(&mut self, key: &'static str, value: &T) -> (r: Result<()>)
        ensures
            final(self).len == old(self).len,
            old(self).next_index < old(self).len ==> {
                &&& final(self).next_index == old(self).next_index + 1
                &&& serialized(value.wire(), old(self).ser@, r, final(self).ser@)
            },
            old(self).next_index >= old(self).len ==> {
                &&& final(self).next_index == old(self).next_index
                &&& r == Err::<(), Error>(Error::Ser(SerErrorKind::ExcessElements(old(self).len)))
                &&& final(self).ser@ == old(self).ser@
            },
            *final(final(self).ser) == *final(old(self).ser),
    {
        self.impl_serialize_seq_value(Some(key), value, "SerializeStruct")
    }

    /// Ends the sequence, the tuple or the struct: fewer elements than
    /// announced are an error.
    pub fn end(self) -> (r: Result<()>)
        ensures
            self.next_index < self.len ==> r == Err::<(), Error>(
                Error::Ser(SerErrorKind::NotEnoughElements(self.next_index, self.len)),
            ),
            self.next_index >= self.len ==> r == Ok::<(), Error>(()),
            final(self.ser)@ == old(self.ser)@,
    {
        self.impl_serialize_end("seq")
    }
}

/// Helper structure for serializing maps: it counts the keys that are
/// written against the number of entries that was announced.
pub struct SerializeFixedLengthMap<'a> {
    /// The serializer that the entries are written with.
    pub ser: &'a mut Serializer,
    /// The number of entries announced.
    pub len: u32,
    /// The number of keys written so far.
    pub next_index: u32,
}

impl<'a> SerializeFixedLengthMap<'a> {
    fn with_serialize_len(ser: &'a mut Serializer, len: u32) -> (r: Result<
        SerializeFixedLengthMap<'a>,
    >)
        ensures
            r is Ok,
            r.unwrap().len == len,
            r.unwrap().next_index == 0,
            r.unwrap().ser@ == old(ser)@ + wire::uint_wire(len as nat),
            final(ser)@ == final(r.unwrap().ser)@,
    {
        ser.serialize_u32(len)?;
        Ok(SerializeFixedLengthMap { ser, len, next_index: 0 })
    }

    /// Writes the key of the next entry, where one is still expected; an
    /// entry too many is refused, and nothing is written for it.
    pub fn serialize_key<T: Serialize>(&mut self, key: &T) -> (r: Result<()>)
        ensures
            final(self).len == old(self).len,
            old(self).next_index < old(self).len ==> {
                &&& final(self).next_index == old(self).next_index + 1
                &&& serialized(key.wire(), old(self).ser@, r, final(self).ser@)
            },
            old(self).next_index >= old(self).len ==> {
                &&& final(self).next_index == old(self).next_index
                &&& r == Err::<(), Error>(Error::Ser(SerErrorKind::ExcessElements(old(self).len)))
                &&& final(self).ser@ == old(self).ser@
            },
            *final(final(self).ser) == *final(old(self).ser),
    {
        self.next_index = count_element(self.next_index, self.len)?;
        key.serialize(self.ser)
    }

    /// Writes the value of an entry.
    pub fn serialize_value<T: Serialize>(&mut self, value: &T) -> (r: Result<()>)
        ensures
            final(self).len == old(self).len,
            final(self).next_index == old(self).next_index,
            serialized(value.wire(), old(self).ser@, r, final(self).ser@),
            *final(final(self).ser) == *final(old(self).ser),
    {
        value.serialize(self.ser)
    }

    /// Ends the map.
    pub fn end(self) -> (r: Result<()>)
        ensures
            r == Ok::<(), Error>(()),
            final(self.ser)@ == old(self.ser)@,
    {
        Ok(())
    }
}

/// The bytes of one value after those of another; or the first error of
/// the two.
pub open spec fn wire_then(
    front: core::result::Result<Seq<u8>, Error>,
    next: core::result::Result<Seq<u8>, Error>,
) -> core::result::Result<Seq<u8>, Error> {
    match front {
        Ok(front) => match next {
            Ok(next) => Ok(front + next),
            Err(e) => Err(e),
        },
        Err(e) => Err(e),
    }
}

/// Bytes that are each a whole number of words are so together.
pub proof fn lemma_wire_then_aligned(
    front: core::result::Result<Seq<u8>, Error>,
    next: core::result::Result<Seq<u8>, Error>,
)
    requires
        front is Ok ==> front.unwrap().len() % 4 == 0,
        next is Ok ==> next.unwrap().len() % 4 == 0,
    ensures
        wire_then(front, next) is Ok ==> wire_then(front, next).unwrap().len() % 4 == 0,
{
}

/// Where the sizes of two values are the lengths of their bytes, they are
/// so together.
pub proof fn lemma_size_then_is_len(
    front_size: core::result::Result<usize, Error>,
    front: core::result::Result<Seq<u8>, Error>,
    next_size: core::result::Result<usize, Error>,
    next: core::result::Result<Seq<u8>, Error>,
)
    requires
        front_size is Ok && front is Ok ==> front_size.unwrap() == front.unwrap().len(),
        next_size is Ok && next is Ok ==> next_size.unwrap() == next.unwrap().len(),
    ensures
        crate::sized::size_then(front_size, next_size) is Ok && wire_then(front, next) is Ok
            ==> crate::sized::size_then(
            front_size,
            next_size,
        ).unwrap() == wire_then(front, next).unwrap().len(),
{
}

/// The bytes of the values of `items`, one after the other; or the error of
/// the first of them that cannot be written.
pub open spec fn wire_all<T: Serialize>(items: Seq<T>) -> core::result::Result<Seq<u8>, Error>
    decreases items.len(),
{
    if items.len() == 0 {
        Ok(Seq::<u8>::empty())
    } else {
        wire_then(wire_all(items.drop_last()), items.last().wire())
    }
}

/// The variant names of the values of `items`, one after the other.
pub open spec fn hints_all<T: Serialize>(items: Seq<T>) -> Seq<Seq<char>>
    decreases items.len(),
{
    if items.len() == 0 {
        Seq::<Seq<char>>::empty()
    } else {
        hints_all(items.drop_last()) + items.last().variant_hints()
    }
}

/// An error among the first elements is the error of the whole.
pub proof fn lemma_wire_all_err<T: Serialize>(items: Seq<T>, k: int)
    requires
        0 <= k <= items.len(),
        wire_all(items.take(k)) is Err,
    ensures
        wire_all(items) == wire_all(items.take(k)),
    decreases items.len() - k,
{
    if k < items.len() {
        assert(items.take(k + 1).drop_last() =~= items.take(k));
        lemma_wire_all_err(items, k + 1);
    } else {
        assert(items.take(k) =~= items);
    }
}

/// Values that are each a whole number of words are so together.
pub proof fn lemma_wire_all_aligned<T: SerializeLaws>(items: Seq<T>)
    ensures
        wire_all(items) is Ok ==> wire_all(items).unwrap().len() % 4 == 0,
    decreases items.len(),
{
    if items.len() > 0 {
        lemma_wire_all_aligned(items.drop_last());
        items.last().lemma_wire_aligned();
    }
}

/// Where the sizes of values are the lengths of their bytes, they are so
/// together.
pub proof fn lemma_sum_sizes_is_wire_len<T: SerializeLaws>(start: usize, items: Seq<T>)
    ensures
        wire_all(items) is Ok && crate::sized::spec_sum_sizes(start, items) is Ok
            ==> crate::sized::spec_sum_sizes(start, items).unwrap() == start + wire_all(
            items,
        ).unwrap().len(),
    decreases items.len(),
{
    if items.len() > 0 {
        lemma_sum_sizes_is_wire_len(start, items.drop_last());
        items.last().lemma_size_is_wire_len();
    }
}

/// A sequence on the wire: the number of its elements in 32 bits, then the
/// elements.
pub open spec fn seq_wire<T: Serialize>(items: Seq<T>) -> core::result::Result<Seq<u8>, Error> {
    if items.len() > u32::MAX {
        Err(Error::UnsignedIntegerCast(items.len() as u128))
    } else {
        match wire_all(items) {
            Ok(bytes) => Ok(wire::uint_wire(items.len()) + bytes),
            Err(e) => Err(e),
        }
    }
}

/// Serialize the given data structure as a byte vector of binary MTProto.
pub fn to_bytes<T: Serialize>(value: &T) -> (r: Result<Vec<u8>>)
    ensures
        match value.wire() {
            Ok(bytes) => r is Ok && r.unwrap()@ == bytes,
            Err(e) => r == Err::<Vec<u8>, Error>(e),
        },
{
    let mut ser = Serializer::new(Vec::new());
    value.serialize(&mut ser)?;
    assert(ser@ =~= value.wire().unwrap());
    Ok(ser.into_writer())
}

/// How many zero bytes follow `len` bytes to reach a multiple of sixteen.
pub open spec fn unsized_padding_len(len: nat) -> nat {
    ((16 - len % 16) % 16) as nat
}

/// Serialize bytes with padding to 16 bytes as a byte vector of binary MTProto.
pub fn unsized_bytes_pad_to_bytes(value: &[u8]) -> (r: Result<Vec<u8>>)
    ensures
        r is Ok,
        r.unwrap()@ == value@ + wire::zeros(unsized_padding_len(value@.len())),
{
    let padding = (16 - value.len() % 16) % 16;
    let mut result = Vec::new();
    extend(&mut result, value);
    extend_zeros(&mut result, padding);
    assert(result@ =~= value@ + wire::zeros(unsized_padding_len(value@.len())));
    Ok(result)
}

/// Serialize the given data structure as binary MTProto behind what
/// `writer` holds.
pub fn to_writer<T: Serialize>(writer: &mut Vec<u8>, value: &T) -> (r: Result<()>)
    ensures
        serialized(value.wire(), old(writer)@, r, final(writer)@),
{
    let mut taken = Vec::new();
    core::mem::swap(writer, &mut taken);
    let mut ser = Serializer::new(taken);
    let r = value.serialize(&mut ser);
    *writer = ser.into_writer();
    r
}

/// Serialize bytes with padding to 16 bytes behind what `writer` holds.
pub fn unsized_bytes_pad_to_writer(writer: &mut Vec<u8>, value: &[u8]) -> (r: Result<()>)
    ensures
        r == Ok::<(), Error>(()),
        final(writer)@ == old(writer)@ + value@ + wire::zeros(unsized_padding_len(value@.len())),
{
    let padding = (16 - value.len() % 16) % 16;
    extend(writer, value);
    extend_zeros(writer, padding);
    Ok(())
}

/// Every value that can be written takes a whole number of 32-bit words.
pub proof fn lemma_serialized_is_aligned<T: SerializeLaws>(value: T)
    requires
        value.wire() is Ok,
    ensures
        value.wire().unwrap().len() % 4 == 0,
{
    value.lemma_wire_aligned();
}

/// The size that is predicted for a value is the number of bytes that are
/// written for it, where the value has both.
pub proof fn lemma_size_hint_is_serialized_len<T: SerializeLaws>(value: T)
    requires
        value.wire() is Ok,
        value.spec_size_hint() is Ok,
    ensures
        value.spec_size_hint().unwrap() == value.wire().unwrap().len(),
{
    value.lemma_size_is_wire_len();
}

} // verus!
