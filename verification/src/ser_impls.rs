//! How the types of the standard library are written.

use crate::error::{Error, Result, SerErrorKind, SerSerdeType};
use crate::identifiable::Identifiable;
use crate::ser::{Serialize, SerializeLaws, Serializer};
use crate::sized::MtProtoSized;
use crate::wire;
use vstd::prelude::*;

verus! {

impl Serialize for bool {
    open spec fn wire(&self) -> core::result::Result<Seq<u8>, Error> {
        Ok(wire::uint_wire(self.spec_type_id() as nat))
    }

    open spec fn variant_hints(&self) -> Seq<Seq<char>> {
        Seq::empty()
    }

    fn serialize(&self, ser: &mut Serializer) -> (r: Result<()>) {
        ser.serialize_bool(*self)
    }
}

impl SerializeLaws for bool {
    proof fn lemma_wire_aligned(&self) {
        wire::lemma_int_wire_len(self.spec_type_id() as int);
    }

    proof fn lemma_size_is_wire_len(&self) {
        wire::lemma_int_wire_len(self.spec_type_id() as int);
    }
}

impl Serialize for i8 {
    open spec fn wire(&self) -> core::result::Result<Seq<u8>, Error> {
        Ok(wire::int_wire(*self as int))
    }

    open spec fn variant_hints(&self) -> Seq<Seq<char>> {
        Seq::empty()
    }

    fn serialize(&self, ser: &mut Serializer) -> (r: Result<()>) {
        ser.serialize_i8(*self)
    }
}

impl SerializeLaws for i8 {
    proof fn lemma_wire_aligned(&self) {
        wire::lemma_int_wire_len(*self as int);
    }

    proof fn lemma_size_is_wire_len(&self) {
        wire::lemma_int_wire_len(*self as int);
    }
}

impl Serialize for i16 {
    open spec fn wire(&self) -> core::result::Result<Seq<u8>, Error> {
        Ok(wire::int_wire(*self as int))
    }

    open spec fn variant_hints(&self) -> Seq<Seq<char>> {
        Seq::empty()
    }

    fn serialize(&self, ser: &mut Serializer) -> (r: Result<()>) {
        ser.serialize_i16(*self)
    }
}

impl SerializeLaws for i16 {
    proof fn lemma_wire_aligned(&self) {
        wire::lemma_int_wire_len(*self as int);
    }

    proof fn lemma_size_is_wire_len(&self) {
        wire::lemma_int_wire_len(*self as int);
    }
}

impl Serialize for i32 {
    open spec fn wire(&self) -> core::result::Result<Seq<u8>, Error> {
        Ok(wire::int_wire(*self as int))
    }

    open spec fn variant_hints(&self) -> Seq<Seq<char>> {
        Seq::empty()
    }

    fn serialize(&self, ser: &mut Serializer) -> (r: Result<()>) {
        ser.serialize_i32(*self)
    }
}

impl SerializeLaws for i32 {
    proof fn lemma_wire_aligned(&self) {
        wire::lemma_int_wire_len(*self as int);
    }

    proof fn lemma_size_is_wire_len(&self) {
        wire::lemma_int_wire_len(*self as int);
    }
}

impl Serialize for i64 {
    open spec fn wire(&self) -> core::result::Result<Seq<u8>, Error> {
        Ok(wire::long_wire(*self as int))
    }

    open spec fn variant_hints(&self) -> Seq<Seq<char>> {
        Seq::empty()
    }

    fn serialize(&self, ser: &mut Serializer) -> (r: Result<()>) {
        ser.serialize_i64(*self)
    }
}

impl SerializeLaws for i64 {
    proof fn lemma_wire_aligned(&self) {
        wire::lemma_int_wire_len(*self as int);
    }

    proof fn lemma_size_is_wire_len(&self) {
        wire::lemma_int_wire_len(*self as int);
    }
}

impl Serialize for i128 {
    open spec fn wire(&self) -> core::result::Result<Seq<u8>, Error> {
        Ok(wire::int128_wire(*self as int))
    }

    open spec fn variant_hints(&self) -> Seq<Seq<char>> {
        Seq::empty()
    }

    fn serialize(&self, ser: &mut Serializer) -> (r: Result<()>) {
        ser.serialize_i128(*self)
    }
}

impl SerializeLaws for i128 {
    proof fn lemma_wire_aligned(&self) {
        wire::lemma_int_wire_len(*self as int);
    }

    proof fn lemma_size_is_wire_len(&self) {
        wire::lemma_int_wire_len(*self as int);
    }
}

impl Serialize for isize {
    open spec fn wire(&self) -> core::result::Result<Seq<u8>, Error> {
        Ok(wire::long_wire(*self as int))
    }

    open spec fn variant_hints(&self) -> Seq<Seq<char>> {
        Seq::empty()
    }

    fn serialize(&self, ser: &mut Serializer) -> (r: Result<()>) {
        ser.serialize_i64(*self as i64)
    }
}

impl SerializeLaws for isize {
    proof fn lemma_wire_aligned(&self) {
        wire::lemma_int_wire_len(*self as int);
    }

    proof fn lemma_size_is_wire_len(&self) {
        wire::lemma_int_wire_len(*self as int);
    }
}

impl Serialize for u8 {
    open spec fn wire(&self) -> core::result::Result<Seq<u8>, Error> {
        Ok(wire::uint_wire(*self as nat))
    }

    open spec fn variant_hints(&self) -> Seq<Seq<char>> {
        Seq::empty()
    }

    fn serialize(&self, ser: &mut Serializer) -> (r: Result<()>) {
        ser.serialize_u8(*self)
    }
}

impl SerializeLaws for u8 {
    proof fn lemma_wire_aligned(&self) {
        wire::lemma_int_wire_len(*self as int);
    }

    proof fn lemma_size_is_wire_len(&self) {
        wire::lemma_int_wire_len(*self as int);
    }
}

impl Serialize for u16 {
    open spec fn wire(&self) -> core::result::Result<Seq<u8>, Error> {
        Ok(wire::uint_wire(*self as nat))
    }

    open spec fn variant_hints(&self) -> Seq<Seq<char>> {
        Seq::empty()
    }

    fn serialize(&self, ser: &mut Serializer) -> (r: Result<()>) {
        ser.serialize_u16(*self)
    }
}

impl SerializeLaws for u16 {
    proof fn lemma_wire_aligned(&self) {
        wire::lemma_int_wire_len(*self as int);
    }

    proof fn lemma_size_is_wire_len(&self) {
        wire::lemma_int_wire_len(*self as int);
    }
}

impl Serialize for u32 {
    open spec fn wire(&self) -> core::result::Result<Seq<u8>, Error> {
        Ok(wire::uint_wire(*self as nat))
    }

    open spec fn variant_hints(&self) -> Seq<Seq<char>> {
        Seq::empty()
    }

    fn serialize(&self, ser: &mut Serializer) -> (r: Result<()>) {
        ser.serialize_u32(*self)
    }
}

impl SerializeLaws for u32 {
    proof fn lemma_wire_aligned(&self) {
        wire::lemma_int_wire_len(*self as int);
    }

    proof fn lemma_size_is_wire_len(&self) {
        wire::lemma_int_wire_len(*self as int);
    }
}

impl Serialize for u64 {
    open spec fn wire(&self) -> core::result::Result<Seq<u8>, Error> {
        Ok(wire::ulong_wire(*self as nat))
    }

    open spec fn variant_hints(&self) -> Seq<Seq<char>> {
        Seq::empty()
    }

    fn serialize(&self, ser: &mut Serializer) -> (r: Result<()>) {
        ser.serialize_u64(*self)
    }
}

impl SerializeLaws for u64 {
    proof fn lemma_wire_aligned(&self) {
        wire::lemma_int_wire_len(*self as int);
    }

    proof fn lemma_size_is_wire_len(&self) {
        wire::lemma_int_wire_len(*self as int);
    }
}

impl Serialize for u128 {
    open spec fn wire(&self) -> core::result::Result<Seq<u8>, Error> {
        Ok(wire::uint128_wire(*self as nat))
    }

    open spec fn variant_hints(&self) -> Seq<Seq<char>> {
        Seq::empty()
    }

    fn serialize(&self, ser: &mut Serializer) -> (r: Result<()>) {
        ser.serialize_u128(*self)
    }
}

impl SerializeLaws for u128 {
    proof fn lemma_wire_aligned(&self) {
        wire::lemma_int_wire_len(*self as int);
    }

    proof fn lemma_size_is_wire_len(&self) {
        wire::lemma_int_wire_len(*self as int);
    }
}

impl Serialize for usize {
    open spec fn wire(&self) -> core::result::Result<Seq<u8>, Error> {
        Ok(wire::ulong_wire(*self as nat))
    }

    open spec fn variant_hints(&self) -> Seq<Seq<char>> {
        Seq::empty()
    }

    fn serialize(&self, ser: &mut Serializer) -> (r: Result<()>) {
        ser.serialize_u64(*self as u64)
    }
}

impl SerializeLaws for usize {
    proof fn lemma_wire_aligned(&self) {
        wire::lemma_int_wire_len(*self as int);
    }

    proof fn lemma_size_is_wire_len(&self) {
        wire::lemma_int_wire_len(*self as int);
    }
}

impl Serialize for String {
    open spec fn wire(&self) -> core::result::Result<Seq<u8>, Error> {
        crate::ser::str_wire(self@)
    }

    open spec fn variant_hints(&self) -> Seq<Seq<char>> {
        Seq::empty()
    }

    fn serialize(&self, ser: &mut Serializer) -> (r: Result<()>) {
        ser.serialize_str(self.as_str())
    }
}

impl SerializeLaws for String {
    proof fn lemma_wire_aligned(&self) {
        if self.wire() is Ok {
            wire::lemma_byte_seq_wire_len(vstd::utf8::encode_utf8(self@));
        }
    }

    proof fn lemma_size_is_wire_len(&self) {
        if self.wire() is Ok {
            wire::lemma_byte_seq_wire_len(vstd::utf8::encode_utf8(self@));
        }
    }
}

impl<'a> Serialize for &'a str {
    open spec fn wire(&self) -> core::result::Result<Seq<u8>, Error> {
        crate::ser::str_wire(self@)
    }

    open spec fn variant_hints(&self) -> Seq<Seq<char>> {
        Seq::empty()
    }

    fn serialize(&self, ser: &mut Serializer) -> (r: Result<()>) {
        ser.serialize_str(*self)
    }
}

impl<'a> SerializeLaws for &'a str {
    proof fn lemma_wire_aligned(&self) {
        if self.wire() is Ok {
            wire::lemma_byte_seq_wire_len(vstd::utf8::encode_utf8(self@));
        }
    }

    proof fn lemma_size_is_wire_len(&self) {
        if self.wire() is Ok {
            wire::lemma_byte_seq_wire_len(vstd::utf8::encode_utf8(self@));
        }
    }
}

impl Serialize for () {
    open spec fn wire(&self) -> core::result::Result<Seq<u8>, Error> {
        Err(Error::Ser(SerErrorKind::UnsupportedSerdeType(SerSerdeType::Unit)))
    }

    open spec fn variant_hints(&self) -> Seq<Seq<char>> {
        Seq::empty()
    }

    fn serialize(&self, ser: &mut Serializer) -> (r: Result<()>) {
        ser.serialize_unit()
    }
}

impl SerializeLaws for () {
    proof fn lemma_wire_aligned(&self) {
    }

    proof fn lemma_size_is_wire_len(&self) {
    }
}

impl<'a, T: Serialize> Serialize for &'a T {
    open spec fn wire(&self) -> core::result::Result<Seq<u8>, Error> {
        (**self).wire()
    }

    open spec fn variant_hints(&self) -> Seq<Seq<char>> {
        (**self).variant_hints()
    }

    fn serialize(&self, ser: &mut Serializer) -> (r: Result<()>) {
        (**self).serialize(ser)
    }
}

impl<'a, T: SerializeLaws> SerializeLaws for &'a T {
    proof fn lemma_wire_aligned(&self) {
        (**self).lemma_wire_aligned();
    }

    proof fn lemma_size_is_wire_len(&self) {
        (**self).lemma_size_is_wire_len();
    }
}

impl<T: Serialize> Serialize for Box<T> {
    open spec fn wire(&self) -> core::result::Result<Seq<u8>, Error> {
        (**self).wire()
    }

    open spec fn variant_hints(&self) -> Seq<Seq<char>> {
        (**self).variant_hints()
    }

    fn serialize(&self, ser: &mut Serializer) -> (r: Result<()>) {
        (**self).serialize(ser)
    }
}

impl<T: SerializeLaws> SerializeLaws for Box<T> {
    proof fn lemma_wire_aligned(&self) {
        (**self).lemma_wire_aligned();
    }

    proof fn lemma_size_is_wire_len(&self) {
        (**self).lemma_size_is_wire_len();
    }
}

impl<'a, T: Serialize> Serialize for &'a [T] {
    open spec fn wire(&self) -> core::result::Result<Seq<u8>, Error> {
        crate::ser::seq_wire(self@)
    }

    open spec fn variant_hints(&self) -> Seq<Seq<char>> {
        crate::ser::hints_all(self@)
    }

    #[verifier::loop_isolation(false)]
    fn serialize(&self, ser: &mut Serializer) -> (r: Result<()>) {
        let ghost after = *final(ser);
        let mut seq = ser.serialize_seq(Some(self.len()))?;
        let ghost start = seq.ser@;
        let mut i: usize = 0;
        while i < self.len()
            invariant
                i <= self.len(),
                seq.len == self.len(),
                seq.next_index == i,
                crate::ser::wire_all(self@.take(i as int)) is Ok,
                seq.ser@ == start + crate::ser::wire_all(self@.take(i as int)).unwrap(),
                after@ == final(seq.ser)@,
            decreases self.len() - i,
        {
            let ghost before = seq.ser@;
            proof {
                assert(self@.take(i as int + 1).drop_last() =~= self@.take(i as int));
                assert(self@.take(i as int + 1).last() == self@[i as int]);
                assert(old(ser)@.is_prefix_of(before));
            }
            match seq.serialize_element(&self[i]) {
                Ok(()) => {},
                Err(e) => {
                    proof {
                        crate::ser::lemma_wire_all_err(self@, i as int + 1);
                        assert(before.is_prefix_of(seq.ser@));
                    }
                    return Err(e);
                },
            }
            i += 1;
        }
        assert(self@.take(i as int) =~= self@);
        assert(seq.ser@ =~= old(ser)@ + (wire::uint_wire(self@.len()) + crate::ser::wire_all(
            self@,
        ).unwrap()));
        seq.end()
    }
}

impl<'a, T: SerializeLaws> SerializeLaws for &'a [T] {
    proof fn lemma_wire_aligned(&self) {
        crate::ser::lemma_wire_all_aligned(self@);
        wire::lemma_int_wire_len(self@.len() as int);
    }

    proof fn lemma_size_is_wire_len(&self) {
        crate::ser::lemma_sum_sizes_is_wire_len(4, self@);
        wire::lemma_int_wire_len(self@.len() as int);
    }
}

impl<T: Serialize> Serialize for Vec<T> {
    open spec fn wire(&self) -> core::result::Result<Seq<u8>, Error> {
        crate::ser::seq_wire(self@)
    }

    open spec fn variant_hints(&self) -> Seq<Seq<char>> {
        crate::ser::hints_all(self@)
    }

    fn serialize(&self, ser: &mut Serializer) -> (r: Result<()>) {
        self.as_slice().serialize(ser)
    }
}

impl<T: SerializeLaws> SerializeLaws for Vec<T> {
    proof fn lemma_wire_aligned(&self) {
        crate::ser::lemma_wire_all_aligned(self@);
        wire::lemma_int_wire_len(self@.len() as int);
    }

    proof fn lemma_size_is_wire_len(&self) {
        crate::ser::lemma_sum_sizes_is_wire_len(4, self@);
        wire::lemma_int_wire_len(self@.len() as int);
    }
}

impl<T: Serialize, const N: usize> Serialize for [T; N] {
    open spec fn wire(&self) -> core::result::Result<Seq<u8>, Error> {
        if N > u32::MAX {
            Err(Error::UnsignedIntegerCast(N as u128))
        } else {
            crate::ser::wire_all(self@)
        }
    }

    open spec fn variant_hints(&self) -> Seq<Seq<char>> {
        crate::ser::hints_all(self@)
    }

    #[verifier::loop_isolation(false)]
    fn serialize(&self, ser: &mut Serializer) -> (r: Result<()>) {
        let ghost after = *final(ser);
        let mut seq = ser.serialize_tuple(N)?;
        let ghost start = seq.ser@;
        let mut i: usize = 0;
        while i < N
            invariant
                i <= N,
                seq.len == N,
                seq.next_index == i,
                crate::ser::wire_all(self@.take(i as int)) is Ok,
                seq.ser@ == start + crate::ser::wire_all(self@.take(i as int)).unwrap(),
                after@ == final(seq.ser)@,
            decreases N - i,
        {
            let ghost before = seq.ser@;
            proof {
                assert(self@.take(i as int + 1).drop_last() =~= self@.take(i as int));
                assert(self@.take(i as int + 1).last() == self@[i as int]);
                assert(old(ser)@.is_prefix_of(before));
            }
            match seq.serialize_element(&self[i]) {
                Ok(()) => {},
                Err(e) => {
                    proof {
                        crate::ser::lemma_wire_all_err(self@, i as int + 1);
                        assert(before.is_prefix_of(seq.ser@));
                    }
                    return Err(e);
                },
            }
            i += 1;
        }
        assert(self@.take(i as int) =~= self@);
        seq.end()
    }
}

impl<T: SerializeLaws, const N: usize> SerializeLaws for [T; N] {
    proof fn lemma_wire_aligned(&self) {
        crate::ser::lemma_wire_all_aligned(self@);
    }

    proof fn lemma_size_is_wire_len(&self) {
        crate::ser::lemma_sum_sizes_is_wire_len(0, self@);
    }
}

impl<T1: Serialize> Serialize for (T1,) {
    open spec fn wire(&self) -> core::result::Result<Seq<u8>, Error> {
        self.0.wire()
    }

    open spec fn variant_hints(&self) -> Seq<Seq<char>> {
        self.0.variant_hints()
    }

    fn serialize(&self, ser: &mut Serializer) -> (r: Result<()>) {
        let mut tuple = ser.serialize_tuple(1)?;
        tuple.serialize_element(&self.0)?;
        tuple.end()
    }
}

impl<T1: SerializeLaws> SerializeLaws for (T1,) {
    proof fn lemma_wire_aligned(&self) {
        self.0.lemma_wire_aligned();
    }

    proof fn lemma_size_is_wire_len(&self) {
        self.0.lemma_size_is_wire_len();
    }
}

impl<T1: Serialize, T2: Serialize> Serialize for (T1, T2) {
    open spec fn wire(&self) -> core::result::Result<Seq<u8>, Error> {
        crate::ser::wire_then(
            (self.0,).wire(),
            self.1.wire(),
        )
    }

    open spec fn variant_hints(&self) -> Seq<Seq<char>> {
        (self.0,).variant_hints()
            + self.1.variant_hints()
    }

    fn serialize(&self, ser: &mut Serializer) -> (r: Result<()>) {
        let mut tuple = ser.serialize_tuple(2)?;
        tuple.serialize_element(&self.0)?;
        tuple.serialize_element(&self.1)?;
        assert(tuple.ser@ =~= old(ser)@ + (self.0, self.1).wire().unwrap());
        tuple.end()
    }
}

impl<T1: SerializeLaws, T2: SerializeLaws> SerializeLaws for (T1, T2) {
    proof fn lemma_wire_aligned(&self) {
        let front = (self.0,);
        front.lemma_wire_aligned();
        self.1.lemma_wire_aligned();
        crate::ser::lemma_wire_then_aligned(front.wire(), self.1.wire());
    }

    proof fn lemma_size_is_wire_len(&self) {
        let front = (self.0,);
        front.lemma_size_is_wire_len();
        self.1.lemma_size_is_wire_len();
        crate::ser::lemma_size_then_is_len(
            front.spec_size_hint(),
            front.wire(),
            self.1.spec_size_hint(),
            self.1.wire(),
        );
    }
}

impl<T1: Serialize, T2: Serialize, T3: Serialize> Serialize for (T1, T2, T3) {
    open spec fn wire(&self) -> core::result::Result<Seq<u8>, Error> {
        crate::ser::wire_then(
            (self.0, self.1).wire(),
            self.2.wire(),
        )
    }

    open spec fn variant_hints(&self) -> Seq<Seq<char>> {
        (self.0, self.1).variant_hints()
            + self.2.variant_hints()
    }

    fn serialize(&self, ser: &mut Serializer) -> (r: Result<()>) {
        let mut tuple = ser.serialize_tuple(3)?;
        tuple.serialize_element(&self.0)?;
        tuple.serialize_element(&self.1)?;
        assert(tuple.ser@ =~= old(ser)@ + (self.0, self.1).wire().unwrap());
        tuple.serialize_element(&self.2)?;
        assert(tuple.ser@ =~= old(ser)@ + (self.0, self.1, self.2).wire().unwrap());
        tuple.end()
    }
}

impl<T1: SerializeLaws, T2: SerializeLaws, T3: SerializeLaws> SerializeLaws for (T1, T2, T3) {
    proof fn lemma_wire_aligned(&self) {
        let front = (self.0, self.1);
        front.lemma_wire_aligned();
        self.2.lemma_wire_aligned();
        crate::ser::lemma_wire_then_aligned(front.wire(), self.2.wire());
    }

    proof fn lemma_size_is_wire_len(&self) {
        let front = (self.0, self.1);
        front.lemma_size_is_wire_len();
        self.2.lemma_size_is_wire_len();
        crate::ser::lemma_size_then_is_len(
            front.spec_size_hint(),
            front.wire(),
            self.2.spec_size_hint(),
            self.2.wire(),
        );
    }
}

impl<T1: Serialize, T2: Serialize, T3: Serialize, T4: Serialize> Serialize for (T1, T2, T3, T4) {
    open spec fn wire(&self) -> core::result::Result<Seq<u8>, Error> {
        crate::ser::wire_then(
            (self.0, self.1, self.2).wire(),
            self.3.wire(),
        )
    }

    open spec fn variant_hints(&self) -> Seq<Seq<char>> {
        (self.0, self.1, self.2).variant_hints()
            + self.3.variant_hints()
    }

    fn serialize(&self, ser: &mut Serializer) -> (r: Result<()>) {
        let mut tuple = ser.serialize_tuple(4)?;
        tuple.serialize_element(&self.0)?;
        tuple.serialize_element(&self.1)?;
        assert(tuple.ser@ =~= old(ser)@ + (self.0, self.1).wire().unwrap());
        tuple.serialize_element(&self.2)?;
        assert(tuple.ser@ =~= old(ser)@ + (self.0, self.1, self.2).wire().unwrap());
        tuple.serialize_element(&self.3)?;
        assert(tuple.ser@ =~= old(ser)@ + (self.0, self.1, self.2, self.3).wire().unwrap());
        tuple.end()
    }
}

impl<
    T1: SerializeLaws,
    T2: SerializeLaws,
    T3: SerializeLaws,
    T4: SerializeLaws,
> SerializeLaws for (T1, T2, T3, T4) {
    proof fn lemma_wire_aligned(&self) {
        let front = (self.0, self.1, self.2);
        front.lemma_wire_aligned();
        self.3.lemma_wire_aligned();
        crate::ser::lemma_wire_then_aligned(front.wire(), self.3.wire());
    }

    proof fn lemma_size_is_wire_len(&self) {
        let front = (self.0, self.1, self.2);
        front.lemma_size_is_wire_len();
        self.3.lemma_size_is_wire_len();
        crate::ser::lemma_size_then_is_len(
            front.spec_size_hint(),
            front.wire(),
            self.3.spec_size_hint(),
            self.3.wire(),
        );
    }
}

impl<
    T1: Serialize,
    T2: Serialize,
    T3: Serialize,
    T4: Serialize,
    T5: Serialize,
> Serialize for (T1, T2, T3, T4, T5) {
    open spec fn wire(&self) -> core::result::Result<Seq<u8>, Error> {
        crate::ser::wire_then(
            (self.0, self.1, self.2, self.3).wire(),
            self.4.wire(),
        )
    }

    open spec fn variant_hints(&self) -> Seq<Seq<char>> {
        (self.0, self.1, self.2, self.3).variant_hints()
            + self.4.variant_hints()
    }

    fn serialize(&self, ser: &mut Serializer) -> (r: Result<()>) {
        let mut tuple = ser.serialize_tuple(5)?;
        tuple.serialize_element(&self.0)?;
        tuple.serialize_element(&self.1)?;
        assert(tuple.ser@ =~= old(ser)@ + (self.0, self.1).wire().unwrap());
        tuple.serialize_element(&self.2)?;
        assert(tuple.ser@ =~= old(ser)@ + (self.0, self.1, self.2).wire().unwrap());
        tuple.serialize_element(&self.3)?;
        assert(tuple.ser@ =~= old(ser)@ + (self.0, self.1, self.2, self.3).wire().unwrap());
        tuple.serialize_element(&self.4)?;
        assert(tuple.ser@ =~= old(ser)@ + (self.0, self.1, self.2, self.3, self.4).wire().unwrap());
        tuple.end()
    }
}

impl<
    T1: SerializeLaws,
    T2: SerializeLaws,
    T3: SerializeLaws,
    T4: SerializeLaws,
    T5: SerializeLaws,
> SerializeLaws for (T1, T2, T3, T4, T5) {
    proof fn lemma_wire_aligned(&self) {
        let front = (self.0, self.1, self.2, self.3);
        front.lemma_wire_aligned();
        self.4.lemma_wire_aligned();
        crate::ser::lemma_wire_then_aligned(front.wire(), self.4.wire());
    }

    proof fn lemma_size_is_wire_len(&self) {
        let front = (self.0, self.1, self.2, self.3);
        front.lemma_size_is_wire_len();
        self.4.lemma_size_is_wire_len();
        crate::ser::lemma_size_then_is_len(
            front.spec_size_hint(),
            front.wire(),
            self.4.spec_size_hint(),
            self.4.wire(),
        );
    }
}

impl<
    T1: Serialize,
    T2: Serialize,
    T3: Serialize,
    T4: Serialize,
    T5: Serialize,
    T6: Serialize,
> Serialize for (T1, T2, T3, T4, T5, T6) {
    open spec fn wire(&self) -> core::result::Result<Seq<u8>, Error> {
        crate::ser::wire_then(
            (self.0, self.1, self.2, self.3, self.4).wire(),
            self.5.wire(),
        )
    }

    open spec fn variant_hints(&self) -> Seq<Seq<char>> {
        (self.0, self.1, self.2, self.3, self.4).variant_hints()
            + self.5.variant_hints()
    }

    fn serialize(&self, ser: &mut Serializer) -> (r: Result<()>) {
        let mut tuple = ser.serialize_tuple(6)?;
        tuple.serialize_element(&self.0)?;
        tuple.serialize_element(&self.1)?;
        assert(tuple.ser@ =~= old(ser)@ + (self.0, self.1).wire().unwrap());
        tuple.serialize_element(&self.2)?;
        assert(tuple.ser@ =~= old(ser)@ + (self.0, self.1, self.2).wire().unwrap());
        tuple.serialize_element(&self.3)?;
        assert(tuple.ser@ =~= old(ser)@ + (self.0, self.1, self.2, self.3).wire().unwrap());
        tuple.serialize_element(&self.4)?;
        assert(tuple.ser@ =~= old(ser)@ + (self.0, self.1, self.2, self.3, self.4).wire().unwrap());
        tuple.serialize_element(&self.5)?;
        assert(tuple.ser@ =~= old(ser)@ + (
            self.0,
            self.1,
            self.2,
            self.3,
            self.4,
            self.5,
        ).wire().unwrap());
        tuple.end()
    }
}

impl<
    T1: SerializeLaws,
    T2: SerializeLaws,
    T3: SerializeLaws,
    T4: SerializeLaws,
    T5: SerializeLaws,
    T6: SerializeLaws,
> SerializeLaws for (T1, T2, T3, T4, T5, T6) {
    proof fn lemma_wire_aligned(&self) {
        let front = (self.0, self.1, self.2, self.3, self.4);
        front.lemma_wire_aligned();
        self.5.lemma_wire_aligned();
        crate::ser::lemma_wire_then_aligned(front.wire(), self.5.wire());
    }

    proof fn lemma_size_is_wire_len(&self) {
        let front = (self.0, self.1, self.2, self.3, self.4);
        front.lemma_size_is_wire_len();
        self.5.lemma_size_is_wire_len();
        crate::ser::lemma_size_then_is_len(
            front.spec_size_hint(),
            front.wire(),
            self.5.spec_size_hint(),
            self.5.wire(),
        );
    }
}

impl<
    T1: Serialize,
    T2: Serialize,
    T3: Serialize,
    T4: Serialize,
    T5: Serialize,
    T6: Serialize,
    T7: Serialize,
> Serialize for (T1, T2, T3, T4, T5, T6, T7) {
    open spec fn wire(&self) -> core::result::Result<Seq<u8>, Error> {
        crate::ser::wire_then(
            (self.0, self.1, self.2, self.3, self.4, self.5).wire(),
            self.6.wire(),
        )
    }

    open spec fn variant_hints(&self) -> Seq<Seq<char>> {
        (self.0, self.1, self.2, self.3, self.4, self.5).variant_hints()
            + self.6.variant_hints()
    }

    fn serialize(&self, ser: &mut Serializer) -> (r: Result<()>) {
        let mut tuple = ser.serialize_tuple(7)?;
        tuple.serialize_element(&self.0)?;
        tuple.serialize_element(&self.1)?;
        assert(tuple.ser@ =~= old(ser)@ + (self.0, self.1).wire().unwrap());
        tuple.serialize_element(&self.2)?;
        assert(tuple.ser@ =~= old(ser)@ + (self.0, self.1, self.2).wire().unwrap());
        tuple.serialize_element(&self.3)?;
        assert(tuple.ser@ =~= old(ser)@ + (self.0, self.1, self.2, self.3).wire().unwrap());
        tuple.serialize_element(&self.4)?;
        assert(tuple.ser@ =~= old(ser)@ + (self.0, self.1, self.2, self.3, self.4).wire().unwrap());
        tuple.serialize_element(&self.5)?;
        assert(tuple.ser@ =~= old(ser)@ + (
            self.0,
            self.1,
            self.2,
            self.3,
            self.4,
            self.5,
        ).wire().unwrap());
        tuple.serialize_element(&self.6)?;
        assert(tuple.ser@ =~= old(ser)@ + (
            self.0,
            self.1,
            self.2,
            self.3,
            self.4,
            self.5,
            self.6,
        ).wire().unwrap());
        tuple.end()
    }
}

impl<
    T1: SerializeLaws,
    T2: SerializeLaws,
    T3: SerializeLaws,
    T4: SerializeLaws,
    T5: SerializeLaws,
    T6: SerializeLaws,
    T7: SerializeLaws,
> SerializeLaws for (T1, T2, T3, T4, T5, T6, T7) {
    proof fn lemma_wire_aligned(&self) {
        let front = (self.0, self.1, self.2, self.3, self.4, self.5);
        front.lemma_wire_aligned();
        self.6.lemma_wire_aligned();
        crate::ser::lemma_wire_then_aligned(front.wire(), self.6.wire());
    }

    proof fn lemma_size_is_wire_len(&self) {
        let front = (self.0, self.1, self.2, self.3, self.4, self.5);
        front.lemma_size_is_wire_len();
        self.6.lemma_size_is_wire_len();
        crate::ser::lemma_size_then_is_len(
            front.spec_size_hint(),
            front.wire(),
            self.6.spec_size_hint(),
            self.6.wire(),
        );
    }
}

impl<
    T1: Serialize,
    T2: Serialize,
    T3: Serialize,
    T4: Serialize,
    T5: Serialize,
    T6: Serialize,
    T7: Serialize,
    T8: Serialize,
> Serialize for (T1, T2, T3, T4, T5, T6, T7, T8) {
    open spec fn wire(&self) -> core::result::Result<Seq<u8>, Error> {
        crate::ser::wire_then(
            (self.0, self.1, self.2, self.3, self.4, self.5, self.6).wire(),
            self.7.wire(),
        )
    }

    open spec fn variant_hints(&self) -> Seq<Seq<char>> {
        (self.0, self.1, self.2, self.3, self.4, self.5, self.6).variant_hints()
            + self.7.variant_hints()
    }

    fn serialize(&self, ser: &mut Serializer) -> (r: Result<()>) {
        let mut tuple = ser.serialize_tuple(8)?;
        tuple.serialize_element(&self.0)?;
        tuple.serialize_element(&self.1)?;
        assert(tuple.ser@ =~= old(ser)@ + (self.0, self.1).wire().unwrap());
        tuple.serialize_element(&self.2)?;
        assert(tuple.ser@ =~= old(ser)@ + (self.0, self.1, self.2).wire().unwrap());
        tuple.serialize_element(&self.3)?;
        assert(tuple.ser@ =~= old(ser)@ + (self.0, self.1, self.2, self.3).wire().unwrap());
        tuple.serialize_element(&self.4)?;
        assert(tuple.ser@ =~= old(ser)@ + (self.0, self.1, self.2, self.3, self.4).wire().unwrap());
        tuple.serialize_element(&self.5)?;
        assert(tuple.ser@ =~= old(ser)@ + (
            self.0,
            self.1,
            self.2,
            self.3,
            self.4,
            self.5,
        ).wire().unwrap());
        tuple.serialize_element(&self.6)?;
        assert(tuple.ser@ =~= old(ser)@ + (
            self.0,
            self.1,
            self.2,
            self.3,
            self.4,
            self.5,
            self.6,
        ).wire().unwrap());
        tuple.serialize_element(&self.7)?;
        assert(tuple.ser@ =~= old(ser)@ + (
            self.0,
            self.1,
            self.2,
            self.3,
            self.4,
            self.5,
            self.6,
            self.7,
        ).wire().unwrap());
        tuple.end()
    }
}

impl<
    T1: SerializeLaws,
    T2: SerializeLaws,
    T3: SerializeLaws,
    T4: SerializeLaws,
    T5: SerializeLaws,
    T6: SerializeLaws,
    T7: SerializeLaws,
    T8: SerializeLaws,
> SerializeLaws for (T1, T2, T3, T4, T5, T6, T7, T8) {
    proof fn lemma_wire_aligned(&self) {
        let front = (self.0, self.1, self.2, self.3, self.4, self.5, self.6);
        front.lemma_wire_aligned();
        self.7.lemma_wire_aligned();
        crate::ser::lemma_wire_then_aligned(front.wire(), self.7.wire());
    }

    proof fn lemma_size_is_wire_len(&self) {
        let front = (self.0, self.1, self.2, self.3, self.4, self.5, self.6);
        front.lemma_size_is_wire_len();
        self.7.lemma_size_is_wire_len();
        crate::ser::lemma_size_then_is_len(
            front.spec_size_hint(),
            front.wire(),
            self.7.spec_size_hint(),
            self.7.wire(),
        );
    }
}

impl<
    T1: Serialize,
    T2: Serialize,
    T3: Serialize,
    T4: Serialize,
    T5: Serialize,
    T6: Serialize,
    T7: Serialize,
    T8: Serialize,
    T9: Serialize,
> Serialize for (T1, T2, T3, T4, T5, T6, T7, T8, T9) {
    open spec fn wire(&self) -> core::result::Result<Seq<u8>, Error> {
        crate::ser::wire_then(
            (self.0, self.1, self.2, self.3, self.4, self.5, self.6, self.7).wire(),
            self.8.wire(),
        )
    }

    open spec fn variant_hints(&self) -> Seq<Seq<char>> {
        (self.0, self.1, self.2, self.3, self.4, self.5, self.6, self.7).variant_hints()
            + self.8.variant_hints()
    }

    fn serialize(&self, ser: &mut Serializer) -> (r: Result<()>) {
        let mut tuple = ser.serialize_tuple(9)?;
        tuple.serialize_element(&self.0)?;
        tuple.serialize_element(&self.1)?;
        assert(tuple.ser@ =~= old(ser)@ + (self.0, self.1).wire().unwrap());
        tuple.serialize_element(&self.2)?;
        assert(tuple.ser@ =~= old(ser)@ + (self.0, self.1, self.2).wire().unwrap());
        tuple.serialize_element(&self.3)?;
        assert(tuple.ser@ =~= old(ser)@ + (self.0, self.1, self.2, self.3).wire().unwrap());
        tuple.serialize_element(&self.4)?;
        assert(tuple.ser@ =~= old(ser)@ + (self.0, self.1, self.2, self.3, self.4).wire().unwrap());
        tuple.serialize_element(&self.5)?;
        assert(tuple.ser@ =~= old(ser)@ + (
            self.0,
            self.1,
            self.2,
            self.3,
            self.4,
            self.5,
        ).wire().unwrap());
        tuple.serialize_element(&self.6)?;
        assert(tuple.ser@ =~= old(ser)@ + (
            self.0,
            self.1,
            self.2,
            self.3,
            self.4,
            self.5,
            self.6,
        ).wire().unwrap());
        tuple.serialize_element(&self.7)?;
        assert(tuple.ser@ =~= old(ser)@ + (
            self.0,
            self.1,
            self.2,
            self.3,
            self.4,
            self.5,
            self.6,
            self.7,
        ).wire().unwrap());
        tuple.serialize_element(&self.8)?;
        assert(tuple.ser@ =~= old(ser)@ + (
            self.0,
            self.1,
            self.2,
            self.3,
            self.4,
            self.5,
            self.6,
            self.7,
            self.8,
        ).wire().unwrap());
        tuple.end()
    }
}

impl<
    T1: SerializeLaws,
    T2: SerializeLaws,
    T3: SerializeLaws,
    T4: SerializeLaws,
    T5: SerializeLaws,
    T6: SerializeLaws,
    T7: SerializeLaws,
    T8: SerializeLaws,
    T9: SerializeLaws,
> SerializeLaws for (T1, T2, T3, T4, T5, T6, T7, T8, T9) {
    proof fn lemma_wire_aligned(&self) {
        let front = (self.0, self.1, self.2, self.3, self.4, self.5, self.6, self.7);
        front.lemma_wire_aligned();
        self.8.lemma_wire_aligned();
        crate::ser::lemma_wire_then_aligned(front.wire(), self.8.wire());
    }

    proof fn lemma_size_is_wire_len(&self) {
        let front = (self.0, self.1, self.2, self.3, self.4, self.5, self.6, self.7);
        front.lemma_size_is_wire_len();
        self.8.lemma_size_is_wire_len();
        crate::ser::lemma_size_then_is_len(
            front.spec_size_hint(),
            front.wire(),
            self.8.spec_size_hint(),
            self.8.wire(),
        );
    }
}

impl<
    T1: Serialize,
    T2: Serialize,
    T3: Serialize,
    T4: Serialize,
    T5: Serialize,
    T6: Serialize,
    T7: Serialize,
    T8: Serialize,
    T9: Serialize,
    T10: Serialize,
> Serialize for (T1, T2, T3, T4, T5, T6, T7, T8, T9, T10) {
    open spec fn wire(&self) -> core::result::Result<Seq<u8>, Error> {
        crate::ser::wire_then(
            (self.0, self.1, self.2, self.3, self.4, self.5, self.6, self.7, self.8).wire(),
            self.9.wire(),
        )
    }

    open spec fn variant_hints(&self) -> Seq<Seq<char>> {
        (self.0, self.1, self.2, self.3, self.4, self.5, self.6, self.7, self.8).variant_hints()
            + self.9.variant_hints()
    }

    fn serialize(&self, ser: &mut Serializer) -> (r: Result<()>) {
        let mut tuple = ser.serialize_tuple(10)?;
        tuple.serialize_element(&self.0)?;
        tuple.serialize_element(&self.1)?;
        assert(tuple.ser@ =~= old(ser)@ + (self.0, self.1).wire().unwrap());
        tuple.serialize_element(&self.2)?;
        assert(tuple.ser@ =~= old(ser)@ + (self.0, self.1, self.2).wire().unwrap());
        tuple.serialize_element(&self.3)?;
        assert(tuple.ser@ =~= old(ser)@ + (self.0, self.1, self.2, self.3).wire().unwrap());
        tuple.serialize_element(&self.4)?;
        assert(tuple.ser@ =~= old(ser)@ + (self.0, self.1, self.2, self.3, self.4).wire().unwrap());
        tuple.serialize_element(&self.5)?;
        assert(tuple.ser@ =~= old(ser)@ + (
            self.0,
            self.1,
            self.2,
            self.3,
            self.4,
            self.5,
        ).wire().unwrap());
        tuple.serialize_element(&self.6)?;
        assert(tuple.ser@ =~= old(ser)@ + (
            self.0,
            self.1,
            self.2,
            self.3,
            self.4,
            self.5,
            self.6,
        ).wire().unwrap());
        tuple.serialize_element(&self.7)?;
        assert(tuple.ser@ =~= old(ser)@ + (
            self.0,
            self.1,
            self.2,
            self.3,
            self.4,
            self.5,
            self.6,
            self.7,
        ).wire().unwrap());
        tuple.serialize_element(&self.8)?;
        assert(tuple.ser@ =~= old(ser)@ + (
            self.0,
            self.1,
            self.2,
            self.3,
            self.4,
            self.5,
            self.6,
            self.7,
            self.8,
        ).wire().unwrap());
        tuple.serialize_element(&self.9)?;
        assert(tuple.ser@ =~= old(ser)@ + (
            self.0,
            self.1,
            self.2,
            self.3,
            self.4,
            self.5,
            self.6,
            self.7,
            self.8,
            self.9,
        ).wire().unwrap());
        tuple.end()
    }
}

impl<
    T1: SerializeLaws,
    T2: SerializeLaws,
    T3: SerializeLaws,
    T4: SerializeLaws,
    T5: SerializeLaws,
    T6: SerializeLaws,
    T7: SerializeLaws,
    T8: SerializeLaws,
    T9: SerializeLaws,
    T10: SerializeLaws,
> SerializeLaws for (T1, T2, T3, T4, T5, T6, T7, T8, T9, T10) {
    proof fn lemma_wire_aligned(&self) {
        let front = (self.0, self.1, self.2, self.3, self.4, self.5, self.6, self.7, self.8);
        front.lemma_wire_aligned();
        self.9.lemma_wire_aligned();
        crate::ser::lemma_wire_then_aligned(front.wire(), self.9.wire());
    }

    proof fn lemma_size_is_wire_len(&self) {
        let front = (self.0, self.1, self.2, self.3, self.4, self.5, self.6, self.7, self.8);
        front.lemma_size_is_wire_len();
        self.9.lemma_size_is_wire_len();
        crate::ser::lemma_size_then_is_len(
            front.spec_size_hint(),
            front.wire(),
            self.9.spec_size_hint(),
            self.9.wire(),
        );
    }
}

impl<
    T1: Serialize,
    T2: Serialize,
    T3: Serialize,
    T4: Serialize,
    T5: Serialize,
    T6: Serialize,
    T7: Serialize,
    T8: Serialize,
    T9: Serialize,
    T10: Serialize,
    T11: Serialize,
> Serialize for (T1, T2, T3, T4, T5, T6, T7, T8, T9, T10, T11) {
    open spec fn wire(&self) -> core::result::Result<Seq<u8>, Error> {
        crate::ser::wire_then(
            (self.0, self.1, self.2, self.3, self.4, self.5, self.6, self.7, self.8, self.9).wire(),
            self.10.wire(),
        )
    }

    open spec fn variant_hints(&self) -> Seq<Seq<char>> {
        (
            self.0,
            self.1,
            self.2,
            self.3,
            self.4,
            self.5,
            self.6,
            self.7,
            self.8,
            self.9,
        ).variant_hints()
            + self.10.variant_hints()
    }

    fn serialize(&self, ser: &mut Serializer) -> (r: Result<()>) {
        let mut tuple = ser.serialize_tuple(11)?;
        tuple.serialize_element(&self.0)?;
        tuple.serialize_element(&self.1)?;
        assert(tuple.ser@ =~= old(ser)@ + (self.0, self.1).wire().unwrap());
        tuple.serialize_element(&self.2)?;
        assert(tuple.ser@ =~= old(ser)@ + (self.0, self.1, self.2).wire().unwrap());
        tuple.serialize_element(&self.3)?;
        assert(tuple.ser@ =~= old(ser)@ + (self.0, self.1, self.2, self.3).wire().unwrap());
        tuple.serialize_element(&self.4)?;
        assert(tuple.ser@ =~= old(ser)@ + (self.0, self.1, self.2, self.3, self.4).wire().unwrap());
        tuple.serialize_element(&self.5)?;
        assert(tuple.ser@ =~= old(ser)@ + (
            self.0,
            self.1,
            self.2,
            self.3,
            self.4,
            self.5,
        ).wire().unwrap());
        tuple.serialize_element(&self.6)?;
        assert(tuple.ser@ =~= old(ser)@ + (
            self.0,
            self.1,
            self.2,
            self.3,
            self.4,
            self.5,
            self.6,
        ).wire().unwrap());
        tuple.serialize_element(&self.7)?;
        assert(tuple.ser@ =~= old(ser)@ + (
            self.0,
            self.1,
            self.2,
            self.3,
            self.4,
            self.5,
            self.6,
            self.7,
        ).wire().unwrap());
        tuple.serialize_element(&self.8)?;
        assert(tuple.ser@ =~= old(ser)@ + (
            self.0,
            self.1,
            self.2,
            self.3,
            self.4,
            self.5,
            self.6,
            self.7,
            self.8,
        ).wire().unwrap());
        tuple.serialize_element(&self.9)?;
        assert(tuple.ser@ =~= old(ser)@ + (
            self.0,
            self.1,
            self.2,
            self.3,
            self.4,
            self.5,
            self.6,
            self.7,
            self.8,
            self.9,
        ).wire().unwrap());
        tuple.serialize_element(&self.10)?;
        assert(tuple.ser@ =~= old(ser)@ + (
            self.0,
            self.1,
            self.2,
            self.3,
            self.4,
            self.5,
            self.6,
            self.7,
            self.8,
            self.9,
            self.10,
        ).wire().unwrap());
        tuple.end()
    }
}

impl<
    T1: SerializeLaws,
    T2: SerializeLaws,
    T3: SerializeLaws,
    T4: SerializeLaws,
    T5: SerializeLaws,
    T6: SerializeLaws,
    T7: SerializeLaws,
    T8: SerializeLaws,
    T9: SerializeLaws,
    T10: SerializeLaws,
    T11: SerializeLaws,
> SerializeLaws for (T1, T2, T3, T4, T5, T6, T7, T8, T9, T10, T11) {
    proof fn lemma_wire_aligned(&self) {
        let front = (
            self.0,
            self.1,
            self.2,
            self.3,
            self.4,
            self.5,
            self.6,
            self.7,
            self.8,
            self.9,
        );
        front.lemma_wire_aligned();
        self.10.lemma_wire_aligned();
        crate::ser::lemma_wire_then_aligned(front.wire(), self.10.wire());
    }

    proof fn lemma_size_is_wire_len(&self) {
        let front = (
            self.0,
            self.1,
            self.2,
            self.3,
            self.4,
            self.5,
            self.6,
            self.7,
            self.8,
            self.9,
        );
        front.lemma_size_is_wire_len();
        self.10.lemma_size_is_wire_len();
        crate::ser::lemma_size_then_is_len(
            front.spec_size_hint(),
            front.wire(),
            self.10.spec_size_hint(),
            self.10.wire(),
        );
    }
}

impl<
    T1: Serialize,
    T2: Serialize,
    T3: Serialize,
    T4: Serialize,
    T5: Serialize,
    T6: Serialize,
    T7: Serialize,
    T8: Serialize,
    T9: Serialize,
    T10: Serialize,
    T11: Serialize,
    T12: Serialize,
> Serialize for (T1, T2, T3, T4, T5, T6, T7, T8, T9, T10, T11, T12) {
    open spec fn wire(&self) -> core::result::Result<Seq<u8>, Error> {
        crate::ser::wire_then(
            (
                self.0,
                self.1,
                self.2,
                self.3,
                self.4,
                self.5,
                self.6,
                self.7,
                self.8,
                self.9,
                self.10,
            ).wire(),
            self.11.wire(),
        )
    }

    open spec fn variant_hints(&self) -> Seq<Seq<char>> {
        (
            self.0,
            self.1,
            self.2,
            self.3,
            self.4,
            self.5,
            self.6,
            self.7,
            self.8,
            self.9,
            self.10,
        ).variant_hints()
            + self.11.variant_hints()
    }

    fn serialize(&self, ser: &mut Serializer) -> (r: Result<()>) {
        let mut tuple = ser.serialize_tuple(12)?;
        tuple.serialize_element(&self.0)?;
        tuple.serialize_element(&self.1)?;
        assert(tuple.ser@ =~= old(ser)@ + (self.0, self.1).wire().unwrap());
        tuple.serialize_element(&self.2)?;
        assert(tuple.ser@ =~= old(ser)@ + (self.0, self.1, self.2).wire().unwrap());
        tuple.serialize_element(&self.3)?;
        assert(tuple.ser@ =~= old(ser)@ + (self.0, self.1, self.2, self.3).wire().unwrap());
        tuple.serialize_element(&self.4)?;
        assert(tuple.ser@ =~= old(ser)@ + (self.0, self.1, self.2, self.3, self.4).wire().unwrap());
        tuple.serialize_element(&self.5)?;
        assert(tuple.ser@ =~= old(ser)@ + (
            self.0,
            self.1,
            self.2,
            self.3,
            self.4,
            self.5,
        ).wire().unwrap());
        tuple.serialize_element(&self.6)?;
        assert(tuple.ser@ =~= old(ser)@ + (
            self.0,
            self.1,
            self.2,
            self.3,
            self.4,
            self.5,
            self.6,
        ).wire().unwrap());
        tuple.serialize_element(&self.7)?;
        assert(tuple.ser@ =~= old(ser)@ + (
            self.0,
            self.1,
            self.2,
            self.3,
            self.4,
            self.5,
            self.6,
            self.7,
        ).wire().unwrap());
        tuple.serialize_element(&self.8)?;
        assert(tuple.ser@ =~= old(ser)@ + (
            self.0,
            self.1,
            self.2,
            self.3,
            self.4,
            self.5,
            self.6,
            self.7,
            self.8,
        ).wire().unwrap());
        tuple.serialize_element(&self.9)?;
        assert(tuple.ser@ =~= old(ser)@ + (
            self.0,
            self.1,
            self.2,
            self.3,
            self.4,
            self.5,
            self.6,
            self.7,
            self.8,
            self.9,
        ).wire().unwrap());
        tuple.serialize_element(&self.10)?;
        assert(tuple.ser@ =~= old(ser)@ + (
            self.0,
            self.1,
            self.2,
            self.3,
            self.4,
            self.5,
            self.6,
            self.7,
            self.8,
            self.9,
            self.10,
        ).wire().unwrap());
        tuple.serialize_element(&self.11)?;
        assert(tuple.ser@ =~= old(ser)@ + (
            self.0,
            self.1,
            self.2,
            self.3,
            self.4,
            self.5,
            self.6,
            self.7,
            self.8,
            self.9,
            self.10,
            self.11,
        ).wire().unwrap());
        tuple.end()
    }
}

impl<
    T1: SerializeLaws,
    T2: SerializeLaws,
    T3: SerializeLaws,
    T4: SerializeLaws,
    T5: SerializeLaws,
    T6: SerializeLaws,
    T7: SerializeLaws,
    T8: SerializeLaws,
    T9: SerializeLaws,
    T10: SerializeLaws,
    T11: SerializeLaws,
    T12: SerializeLaws,
> SerializeLaws for (T1, T2, T3, T4, T5, T6, T7, T8, T9, T10, T11, T12) {
    proof fn lemma_wire_aligned(&self) {
        let front = (
            self.0,
            self.1,
            self.2,
            self.3,
            self.4,
            self.5,
            self.6,
            self.7,
            self.8,
            self.9,
            self.10,
        );
        front.lemma_wire_aligned();
        self.11.lemma_wire_aligned();
        crate::ser::lemma_wire_then_aligned(front.wire(), self.11.wire());
    }

    proof fn lemma_size_is_wire_len(&self) {
        let front = (
            self.0,
            self.1,
            self.2,
            self.3,
            self.4,
            self.5,
            self.6,
            self.7,
            self.8,
            self.9,
            self.10,
        );
        front.lemma_size_is_wire_len();
        self.11.lemma_size_is_wire_len();
        crate::ser::lemma_size_then_is_len(
            front.spec_size_hint(),
            front.wire(),
            self.11.spec_size_hint(),
            self.11.wire(),
        );
    }
}

} // verus!
