//! How the types of the standard library are read.

use crate::de::{collect, Deserialize, DeserializeLaws, Deserializer, Source};
use crate::error::{Error, Result};
use crate::identifiable::Identifiable;
use crate::ser::Serialize;
use crate::wire;
use vstd::prelude::*;

verus! {

impl Deserialize for bool {
    open spec fn decoded(before: Source, r: Result<Self>, after: Source) -> bool {
        crate::de::read(crate::de::spec_bool(before.bytes), 4, before, r, after)
    }

    fn deserialize(de: &mut Deserializer) -> (r: Result<Self>) {
        de.deserialize_bool()
    }
}

impl DeserializeLaws for bool {
    open spec fn reads_back(&self) -> bool {
        true
    }

    proof fn lemma_decoded_was_written(before: Source, v: Self, after: Source) {
        crate::de::lemma_u32_decoded(before.bytes);
        crate::de::lemma_source_split(before, 4);
    }

    proof fn lemma_written_is_decoded(v: Self, rest: Source, r: Result<Self>, after: Source) {
        crate::de::lemma_u32_written(v.spec_type_id(), rest.bytes);
        crate::de::lemma_source_join(rest, wire::uint_wire(v.spec_type_id() as nat));
    }

    open spec fn same(&self, other: &Self) -> bool {
        *self == *other
    }

    proof fn lemma_one_reading(a: Self, b: Self, rest_a: Source, rest_b: Source) {
        crate::de::lemma_u32_written(a.spec_type_id(), rest_a.bytes);
        crate::de::lemma_u32_written(b.spec_type_id(), rest_b.bytes);
        crate::de::lemma_source_join(rest_a, wire::uint_wire(a.spec_type_id() as nat));
        crate::de::lemma_source_join(rest_b, wire::uint_wire(b.spec_type_id() as nat));
    }
}

impl Deserialize for i8 {
    open spec fn decoded(before: Source, r: Result<Self>, after: Source) -> bool {
        crate::de::read(crate::de::spec_i8(before.bytes), 4, before, r, after)
    }

    fn deserialize(de: &mut Deserializer) -> (r: Result<Self>) {
        de.deserialize_i8()
    }
}

impl DeserializeLaws for i8 {
    open spec fn reads_back(&self) -> bool {
        true
    }

    proof fn lemma_decoded_was_written(before: Source, v: Self, after: Source) {
        crate::de::lemma_i32_decoded(before.bytes);
        crate::de::lemma_source_split(before, 4);
    }

    proof fn lemma_written_is_decoded(v: Self, rest: Source, r: Result<Self>, after: Source) {
        crate::de::lemma_i32_written(v as i32, rest.bytes);
        crate::de::lemma_source_join(rest, wire::int_wire(v as int));
    }

    open spec fn same(&self, other: &Self) -> bool {
        *self == *other
    }

    proof fn lemma_one_reading(a: Self, b: Self, rest_a: Source, rest_b: Source) {
        crate::de::lemma_i32_written(a as i32, rest_a.bytes);
        crate::de::lemma_i32_written(b as i32, rest_b.bytes);
        crate::de::lemma_source_join(rest_a, wire::int_wire(a as int));
        crate::de::lemma_source_join(rest_b, wire::int_wire(b as int));
    }
}

impl Deserialize for i16 {
    open spec fn decoded(before: Source, r: Result<Self>, after: Source) -> bool {
        crate::de::read(crate::de::spec_i16(before.bytes), 4, before, r, after)
    }

    fn deserialize(de: &mut Deserializer) -> (r: Result<Self>) {
        de.deserialize_i16()
    }
}

impl DeserializeLaws for i16 {
    open spec fn reads_back(&self) -> bool {
        true
    }

    proof fn lemma_decoded_was_written(before: Source, v: Self, after: Source) {
        crate::de::lemma_i32_decoded(before.bytes);
        crate::de::lemma_source_split(before, 4);
    }

    proof fn lemma_written_is_decoded(v: Self, rest: Source, r: Result<Self>, after: Source) {
        crate::de::lemma_i32_written(v as i32, rest.bytes);
        crate::de::lemma_source_join(rest, wire::int_wire(v as int));
    }

    open spec fn same(&self, other: &Self) -> bool {
        *self == *other
    }

    proof fn lemma_one_reading(a: Self, b: Self, rest_a: Source, rest_b: Source) {
        crate::de::lemma_i32_written(a as i32, rest_a.bytes);
        crate::de::lemma_i32_written(b as i32, rest_b.bytes);
        crate::de::lemma_source_join(rest_a, wire::int_wire(a as int));
        crate::de::lemma_source_join(rest_b, wire::int_wire(b as int));
    }
}

impl Deserialize for i32 {
    open spec fn decoded(before: Source, r: Result<Self>, after: Source) -> bool {
        crate::de::read(crate::de::spec_i32(before.bytes), 4, before, r, after)
    }

    fn deserialize(de: &mut Deserializer) -> (r: Result<Self>) {
        de.deserialize_i32()
    }
}

impl DeserializeLaws for i32 {
    open spec fn reads_back(&self) -> bool {
        true
    }

    proof fn lemma_decoded_was_written(before: Source, v: Self, after: Source) {
        crate::de::lemma_i32_decoded(before.bytes);
        crate::de::lemma_source_split(before, 4);
    }

    proof fn lemma_written_is_decoded(v: Self, rest: Source, r: Result<Self>, after: Source) {
        crate::de::lemma_i32_written(v, rest.bytes);
        crate::de::lemma_source_join(rest, wire::int_wire(v as int));
    }

    open spec fn same(&self, other: &Self) -> bool {
        *self == *other
    }

    proof fn lemma_one_reading(a: Self, b: Self, rest_a: Source, rest_b: Source) {
        crate::de::lemma_i32_written(a, rest_a.bytes);
        crate::de::lemma_i32_written(b, rest_b.bytes);
        crate::de::lemma_source_join(rest_a, wire::int_wire(a as int));
        crate::de::lemma_source_join(rest_b, wire::int_wire(b as int));
    }
}

impl Deserialize for i64 {
    open spec fn decoded(before: Source, r: Result<Self>, after: Source) -> bool {
        crate::de::read(crate::de::spec_i64(before.bytes), 8, before, r, after)
    }

    fn deserialize(de: &mut Deserializer) -> (r: Result<Self>) {
        de.deserialize_i64()
    }
}

impl DeserializeLaws for i64 {
    open spec fn reads_back(&self) -> bool {
        true
    }

    proof fn lemma_decoded_was_written(before: Source, v: Self, after: Source) {
        crate::de::lemma_i64_decoded(before.bytes);
        crate::de::lemma_source_split(before, 8);
    }

    proof fn lemma_written_is_decoded(v: Self, rest: Source, r: Result<Self>, after: Source) {
        crate::de::lemma_i64_written(v, rest.bytes);
        crate::de::lemma_source_join(rest, wire::long_wire(v as int));
    }

    open spec fn same(&self, other: &Self) -> bool {
        *self == *other
    }

    proof fn lemma_one_reading(a: Self, b: Self, rest_a: Source, rest_b: Source) {
        crate::de::lemma_i64_written(a, rest_a.bytes);
        crate::de::lemma_i64_written(b, rest_b.bytes);
        crate::de::lemma_source_join(rest_a, wire::long_wire(a as int));
        crate::de::lemma_source_join(rest_b, wire::long_wire(b as int));
    }
}

impl Deserialize for i128 {
    open spec fn decoded(before: Source, r: Result<Self>, after: Source) -> bool {
        crate::de::read(crate::de::spec_i128(before.bytes), 16, before, r, after)
    }

    fn deserialize(de: &mut Deserializer) -> (r: Result<Self>) {
        de.deserialize_i128()
    }
}

impl DeserializeLaws for i128 {
    open spec fn reads_back(&self) -> bool {
        true
    }

    proof fn lemma_decoded_was_written(before: Source, v: Self, after: Source) {
        crate::de::lemma_i128_decoded(before.bytes);
        crate::de::lemma_source_split(before, 16);
    }

    proof fn lemma_written_is_decoded(v: Self, rest: Source, r: Result<Self>, after: Source) {
        crate::de::lemma_i128_written(v, rest.bytes);
        crate::de::lemma_source_join(rest, wire::int128_wire(v as int));
    }

    open spec fn same(&self, other: &Self) -> bool {
        *self == *other
    }

    proof fn lemma_one_reading(a: Self, b: Self, rest_a: Source, rest_b: Source) {
        crate::de::lemma_i128_written(a, rest_a.bytes);
        crate::de::lemma_i128_written(b, rest_b.bytes);
        crate::de::lemma_source_join(rest_a, wire::int128_wire(a as int));
        crate::de::lemma_source_join(rest_b, wire::int128_wire(b as int));
    }
}

impl Deserialize for isize {
    open spec fn decoded(before: Source, r: Result<Self>, after: Source) -> bool {
        crate::de::read(crate::de::spec_isize(before.bytes), 8, before, r, after)
    }

    fn deserialize(de: &mut Deserializer) -> (r: Result<Self>) {
        de.deserialize_isize()
    }
}

impl DeserializeLaws for isize {
    open spec fn reads_back(&self) -> bool {
        true
    }

    proof fn lemma_decoded_was_written(before: Source, v: Self, after: Source) {
        crate::de::lemma_i64_decoded(before.bytes);
        crate::de::lemma_source_split(before, 8);
    }

    proof fn lemma_written_is_decoded(v: Self, rest: Source, r: Result<Self>, after: Source) {
        crate::de::lemma_i64_written(v as i64, rest.bytes);
        crate::de::lemma_source_join(rest, wire::long_wire(v as int));
    }

    open spec fn same(&self, other: &Self) -> bool {
        *self == *other
    }

    proof fn lemma_one_reading(a: Self, b: Self, rest_a: Source, rest_b: Source) {
        crate::de::lemma_i64_written(a as i64, rest_a.bytes);
        crate::de::lemma_i64_written(b as i64, rest_b.bytes);
        crate::de::lemma_source_join(rest_a, wire::long_wire(a as int));
        crate::de::lemma_source_join(rest_b, wire::long_wire(b as int));
    }
}

impl Deserialize for u8 {
    open spec fn decoded(before: Source, r: Result<Self>, after: Source) -> bool {
        crate::de::read(crate::de::spec_u8(before.bytes), 4, before, r, after)
    }

    fn deserialize(de: &mut Deserializer) -> (r: Result<Self>) {
        de.deserialize_u8()
    }
}

impl DeserializeLaws for u8 {
    open spec fn reads_back(&self) -> bool {
        true
    }

    proof fn lemma_decoded_was_written(before: Source, v: Self, after: Source) {
        crate::de::lemma_u32_decoded(before.bytes);
        crate::de::lemma_source_split(before, 4);
    }

    proof fn lemma_written_is_decoded(v: Self, rest: Source, r: Result<Self>, after: Source) {
        crate::de::lemma_u32_written(v as u32, rest.bytes);
        crate::de::lemma_source_join(rest, wire::uint_wire(v as nat));
    }

    open spec fn same(&self, other: &Self) -> bool {
        *self == *other
    }

    proof fn lemma_one_reading(a: Self, b: Self, rest_a: Source, rest_b: Source) {
        crate::de::lemma_u32_written(a as u32, rest_a.bytes);
        crate::de::lemma_u32_written(b as u32, rest_b.bytes);
        crate::de::lemma_source_join(rest_a, wire::uint_wire(a as nat));
        crate::de::lemma_source_join(rest_b, wire::uint_wire(b as nat));
    }
}

impl Deserialize for u16 {
    open spec fn decoded(before: Source, r: Result<Self>, after: Source) -> bool {
        crate::de::read(crate::de::spec_u16(before.bytes), 4, before, r, after)
    }

    fn deserialize(de: &mut Deserializer) -> (r: Result<Self>) {
        de.deserialize_u16()
    }
}

impl DeserializeLaws for u16 {
    open spec fn reads_back(&self) -> bool {
        true
    }

    proof fn lemma_decoded_was_written(before: Source, v: Self, after: Source) {
        crate::de::lemma_u32_decoded(before.bytes);
        crate::de::lemma_source_split(before, 4);
    }

    proof fn lemma_written_is_decoded(v: Self, rest: Source, r: Result<Self>, after: Source) {
        crate::de::lemma_u32_written(v as u32, rest.bytes);
        crate::de::lemma_source_join(rest, wire::uint_wire(v as nat));
    }

    open spec fn same(&self, other: &Self) -> bool {
        *self == *other
    }

    proof fn lemma_one_reading(a: Self, b: Self, rest_a: Source, rest_b: Source) {
        crate::de::lemma_u32_written(a as u32, rest_a.bytes);
        crate::de::lemma_u32_written(b as u32, rest_b.bytes);
        crate::de::lemma_source_join(rest_a, wire::uint_wire(a as nat));
        crate::de::lemma_source_join(rest_b, wire::uint_wire(b as nat));
    }
}

impl Deserialize for u32 {
    open spec fn decoded(before: Source, r: Result<Self>, after: Source) -> bool {
        crate::de::read(crate::de::spec_u32(before.bytes), 4, before, r, after)
    }

    fn deserialize(de: &mut Deserializer) -> (r: Result<Self>) {
        de.deserialize_u32()
    }
}

impl DeserializeLaws for u32 {
    open spec fn reads_back(&self) -> bool {
        true
    }

    proof fn lemma_decoded_was_written(before: Source, v: Self, after: Source) {
        crate::de::lemma_u32_decoded(before.bytes);
        crate::de::lemma_source_split(before, 4);
    }

    proof fn lemma_written_is_decoded(v: Self, rest: Source, r: Result<Self>, after: Source) {
        crate::de::lemma_u32_written(v, rest.bytes);
        crate::de::lemma_source_join(rest, wire::uint_wire(v as nat));
    }

    open spec fn same(&self, other: &Self) -> bool {
        *self == *other
    }

    proof fn lemma_one_reading(a: Self, b: Self, rest_a: Source, rest_b: Source) {
        crate::de::lemma_u32_written(a, rest_a.bytes);
        crate::de::lemma_u32_written(b, rest_b.bytes);
        crate::de::lemma_source_join(rest_a, wire::uint_wire(a as nat));
        crate::de::lemma_source_join(rest_b, wire::uint_wire(b as nat));
    }
}

impl Deserialize for u64 {
    open spec fn decoded(before: Source, r: Result<Self>, after: Source) -> bool {
        crate::de::read(crate::de::spec_u64(before.bytes), 8, before, r, after)
    }

    fn deserialize(de: &mut Deserializer) -> (r: Result<Self>) {
        de.deserialize_u64()
    }
}

impl DeserializeLaws for u64 {
    open spec fn reads_back(&self) -> bool {
        true
    }

    proof fn lemma_decoded_was_written(before: Source, v: Self, after: Source) {
        crate::de::lemma_u64_decoded(before.bytes);
        crate::de::lemma_source_split(before, 8);
    }

    proof fn lemma_written_is_decoded(v: Self, rest: Source, r: Result<Self>, after: Source) {
        crate::de::lemma_u64_written(v, rest.bytes);
        crate::de::lemma_source_join(rest, wire::ulong_wire(v as nat));
    }

    open spec fn same(&self, other: &Self) -> bool {
        *self == *other
    }

    proof fn lemma_one_reading(a: Self, b: Self, rest_a: Source, rest_b: Source) {
        crate::de::lemma_u64_written(a, rest_a.bytes);
        crate::de::lemma_u64_written(b, rest_b.bytes);
        crate::de::lemma_source_join(rest_a, wire::ulong_wire(a as nat));
        crate::de::lemma_source_join(rest_b, wire::ulong_wire(b as nat));
    }
}

impl Deserialize for u128 {
    open spec fn decoded(before: Source, r: Result<Self>, after: Source) -> bool {
        crate::de::read(crate::de::spec_u128(before.bytes), 16, before, r, after)
    }

    fn deserialize(de: &mut Deserializer) -> (r: Result<Self>) {
        de.deserialize_u128()
    }
}

impl DeserializeLaws for u128 {
    open spec fn reads_back(&self) -> bool {
        true
    }

    proof fn lemma_decoded_was_written(before: Source, v: Self, after: Source) {
        crate::de::lemma_u128_decoded(before.bytes);
        crate::de::lemma_source_split(before, 16);
    }

    proof fn lemma_written_is_decoded(v: Self, rest: Source, r: Result<Self>, after: Source) {
        crate::de::lemma_u128_written(v, rest.bytes);
        crate::de::lemma_source_join(rest, wire::uint128_wire(v as nat));
    }

    open spec fn same(&self, other: &Self) -> bool {
        *self == *other
    }

    proof fn lemma_one_reading(a: Self, b: Self, rest_a: Source, rest_b: Source) {
        crate::de::lemma_u128_written(a, rest_a.bytes);
        crate::de::lemma_u128_written(b, rest_b.bytes);
        crate::de::lemma_source_join(rest_a, wire::uint128_wire(a as nat));
        crate::de::lemma_source_join(rest_b, wire::uint128_wire(b as nat));
    }
}

impl Deserialize for usize {
    open spec fn decoded(before: Source, r: Result<Self>, after: Source) -> bool {
        crate::de::read(crate::de::spec_usize(before.bytes), 8, before, r, after)
    }

    fn deserialize(de: &mut Deserializer) -> (r: Result<Self>) {
        de.deserialize_usize()
    }
}

impl DeserializeLaws for usize {
    open spec fn reads_back(&self) -> bool {
        true
    }

    proof fn lemma_decoded_was_written(before: Source, v: Self, after: Source) {
        crate::de::lemma_u64_decoded(before.bytes);
        crate::de::lemma_source_split(before, 8);
    }

    proof fn lemma_written_is_decoded(v: Self, rest: Source, r: Result<Self>, after: Source) {
        crate::de::lemma_u64_written(v as u64, rest.bytes);
        crate::de::lemma_source_join(rest, wire::ulong_wire(v as nat));
    }

    open spec fn same(&self, other: &Self) -> bool {
        *self == *other
    }

    proof fn lemma_one_reading(a: Self, b: Self, rest_a: Source, rest_b: Source) {
        crate::de::lemma_u64_written(a as u64, rest_a.bytes);
        crate::de::lemma_u64_written(b as u64, rest_b.bytes);
        crate::de::lemma_source_join(rest_a, wire::ulong_wire(a as nat));
        crate::de::lemma_source_join(rest_b, wire::ulong_wire(b as nat));
    }
}

impl Deserialize for String {
    open spec fn decoded(before: Source, r: Result<Self>, after: Source) -> bool {
        crate::de::read_chars(before, r, after)
    }

    fn deserialize(de: &mut Deserializer) -> (r: Result<Self>) {
        de.deserialize_string()
    }
}

impl DeserializeLaws for String {
    open spec fn reads_back(&self) -> bool {
        true
    }

    proof fn lemma_decoded_was_written(before: Source, v: Self, after: Source) {
        let (data, total) = crate::de::spec_byte_buf(before.bytes).unwrap();
        crate::de::lemma_byte_buf_decoded(before.bytes);
        vstd::utf8::decode_utf8_encode_utf8(data);
        crate::de::lemma_source_split(before, total as int);
    }

    proof fn lemma_written_is_decoded(v: Self, rest: Source, r: Result<Self>, after: Source) {
        let data = vstd::utf8::encode_utf8(v@);
        crate::de::lemma_byte_buf_written(data, rest.bytes);
        vstd::utf8::encode_utf8_valid_utf8(v@);
        vstd::utf8::encode_utf8_decode_utf8(v@);
        crate::de::lemma_source_join(rest, wire::byte_seq_wire(data));
    }

    open spec fn same(&self, other: &Self) -> bool {
        self@ == other@
    }

    proof fn lemma_one_reading(a: Self, b: Self, rest_a: Source, rest_b: Source) {
        let data_a = vstd::utf8::encode_utf8(a@);
        let data_b = vstd::utf8::encode_utf8(b@);
        crate::de::lemma_byte_buf_written(data_a, rest_a.bytes);
        crate::de::lemma_byte_buf_written(data_b, rest_b.bytes);
        vstd::utf8::encode_utf8_decode_utf8(a@);
        vstd::utf8::encode_utf8_decode_utf8(b@);
        crate::de::lemma_source_join(rest_a, wire::byte_seq_wire(data_a));
        crate::de::lemma_source_join(rest_b, wire::byte_seq_wire(data_b));
    }
}

impl<T: Deserialize> Deserialize for Box<T> {
    open spec fn decoded(before: Source, r: Result<Self>, after: Source) -> bool {
        match r {
            Ok(v) => T::decoded(before, Ok(*v), after),
            Err(e) => T::decoded(before, Err(e), after),
        }
    }

    fn deserialize(de: &mut Deserializer) -> (r: Result<Self>) {
        match T::deserialize(de) {
            Ok(v) => Ok(Box::new(v)),
            Err(e) => Err(e),
        }
    }
}

impl<T: DeserializeLaws> DeserializeLaws for Box<T> {
    open spec fn reads_back(&self) -> bool {
        (**self).reads_back()
    }

    proof fn lemma_decoded_was_written(before: Source, v: Self, after: Source) {
        T::lemma_decoded_was_written(before, *v, after);
    }

    proof fn lemma_written_is_decoded(v: Self, rest: Source, r: Result<Self>, after: Source) {
        match r {
            Ok(b) => T::lemma_written_is_decoded(*v, rest, Ok(*b), after),
            Err(e) => T::lemma_written_is_decoded(*v, rest, Err(e), after),
        }
    }

    open spec fn same(&self, other: &Self) -> bool {
        (**self).same(&**other)
    }

    proof fn lemma_one_reading(a: Self, b: Self, rest_a: Source, rest_b: Source) {
        T::lemma_one_reading(*a, *b, rest_a, rest_b);
    }
}

impl<T: Deserialize> Deserialize for Vec<T> {
    open spec fn decoded(before: Source, r: Result<Self>, after: Source) -> bool {
        match crate::de::spec_u32(before.bytes) {
            Ok(len) => crate::de::collected::<T>(before.skip(4), len as int, r, after),
            Err(e) => r == Err::<Self, Error>(e) && after == before,
        }
    }

    fn deserialize(de: &mut Deserializer) -> (r: Result<Self>) {
        let mut seq = de.deserialize_seq()?;
        collect::<T>(&mut seq)
    }
}

impl<T: DeserializeLaws> DeserializeLaws for Vec<T> {
    open spec fn reads_back(&self) -> bool {
        forall|i: int| 0 <= i < self@.len() ==> (#[trigger] self@[i]).reads_back()
    }

    proof fn lemma_decoded_was_written(before: Source, v: Self, after: Source) {
        crate::de::lemma_u32_decoded(before.bytes);
        crate::de::lemma_decoded_all_was_written::<T>(before.skip(4), v@, after);
        let len = wire::uint_wire(v@.len());
        let items = crate::ser::wire_all(v@).unwrap();
        assert(before.bytes =~= before.bytes.take(4) + before.bytes.skip(4));
        assert(before.bytes =~= (len + items) + after.bytes);
    }

    proof fn lemma_written_is_decoded(v: Self, rest: Source, r: Result<Self>, after: Source) {
        let len = wire::uint_wire(v@.len());
        let items = crate::ser::wire_all(v@).unwrap();
        let before = rest.after(v.wire().unwrap(), v.variant_hints());
        let start = rest.after(items, crate::ser::hints_all(v@));
        crate::de::lemma_u32_written(v@.len() as u32, items + rest.bytes);
        assert(before.bytes =~= len + (items + rest.bytes));
        assert(before.skip(4) == start);
        crate::de::lemma_all_written_are_decoded::<T>(v@, rest, r, after);
    }

    open spec fn same(&self, other: &Self) -> bool {
        crate::de::same_all(self@, other@)
    }

    proof fn lemma_one_reading(a: Self, b: Self, rest_a: Source, rest_b: Source) {
        let items_a = crate::ser::wire_all(a@).unwrap();
        let items_b = crate::ser::wire_all(b@).unwrap();
        let behind_a = rest_a.after(items_a, crate::ser::hints_all(a@));
        let behind_b = rest_b.after(items_b, crate::ser::hints_all(b@));
        crate::de::lemma_u32_written(a@.len() as u32, behind_a.bytes);
        crate::de::lemma_u32_written(b@.len() as u32, behind_b.bytes);
        crate::de::lemma_after_after(
            rest_a,
            wire::uint_wire(a@.len()),
            items_a,
            Seq::empty(),
            crate::ser::hints_all(a@),
        );
        crate::de::lemma_after_after(
            rest_b,
            wire::uint_wire(b@.len()),
            items_b,
            Seq::empty(),
            crate::ser::hints_all(b@),
        );
        assert(Seq::<Seq<char>>::empty() + crate::ser::hints_all(a@) =~= crate::ser::hints_all(a@));
        assert(Seq::<Seq<char>>::empty() + crate::ser::hints_all(b@) =~= crate::ser::hints_all(b@));
        crate::de::lemma_source_join(behind_a, wire::uint_wire(a@.len()));
        crate::de::lemma_source_join(behind_b, wire::uint_wire(b@.len()));
        crate::de::lemma_one_reading_all::<T>(a@, b@, rest_a, rest_b);
    }
}

/// `<[T; N]>::try_from` on a `Vec`: the array of the elements of the
/// vector, in their order, where there are `N` of them; nothing otherwise.
#[verifier::external_body]
fn array_from_vec<T, const N: usize>(items: Vec<T>) -> (r: Option<[T; N]>)
    ensures
        r is Some <==> items@.len() == N,
        r is Some ==> r.unwrap()@ == items@,
{
    <[T; N]>::try_from(items).ok()
}

/// Whether reading the `len` elements of an array from `start` gives `r`
/// and leaves `after`.
pub open spec fn array_decoded<T: Deserialize, const N: usize>(
    start: Source,
    r: Result<[T; N]>,
    after: Source,
) -> bool {
    match r {
        Ok(items) => crate::de::decoded_all::<T>(start, items@, after),
        Err(e) => crate::de::failed_within::<T>(start, N as int, e, after),
    }
}

impl<T: Deserialize, const N: usize> Deserialize for [T; N] {
    open spec fn decoded(before: Source, r: Result<Self>, after: Source) -> bool {
        if N > u32::MAX {
            r == Err::<Self, Error>(Error::UnsignedIntegerCast(N as u128)) && after == before
        } else {
            array_decoded::<T, N>(before, r, after)
        }
    }

    fn deserialize(de: &mut Deserializer) -> (r: Result<Self>) {
        let mut seq = de.deserialize_tuple(N)?;
        let items = collect::<T>(&mut seq)?;
        let read = items.len();
        match array_from_vec::<T, N>(items) {
            Some(array) => Ok(array),
            None => Err(Error::SeqTooLong(read)),
        }
    }
}

impl<T: DeserializeLaws, const N: usize> DeserializeLaws for [T; N] {
    open spec fn reads_back(&self) -> bool {
        forall|i: int| 0 <= i < self@.len() ==> (#[trigger] self@[i]).reads_back()
    }

    proof fn lemma_decoded_was_written(before: Source, v: Self, after: Source) {
        crate::de::lemma_decoded_all_was_written::<T>(before, v@, after);
    }

    proof fn lemma_written_is_decoded(v: Self, rest: Source, r: Result<Self>, after: Source) {
        let start = rest.after(crate::ser::wire_all(v@).unwrap(), crate::ser::hints_all(v@));
        match r {
            Ok(read) => {
                crate::de::lemma_decoded_all_of_written::<T>(v@, read@, rest, after);
                assert(v@.skip(v@.len() as int) =~= Seq::<T>::empty());
                assert(Seq::<u8>::empty() + rest.bytes =~= rest.bytes);
                assert(Seq::<Seq<char>>::empty() + rest.hints =~= rest.hints);
            },
            Err(e) => {
                let (done, mid) = choose|done: Seq<T>, mid: Source|
                    {
                        &&& done.len() < v@.len()
                        &&& #[trigger] crate::de::decoded_all::<T>(start, done, mid)
                        &&& T::decoded(mid, Err(e), after)
                    };
                crate::de::lemma_next_of_written::<T>(v@, done, rest, mid, Err(e), after);
            },
        }
    }

    open spec fn same(&self, other: &Self) -> bool {
        crate::de::same_all(self@, other@)
    }

    proof fn lemma_one_reading(a: Self, b: Self, rest_a: Source, rest_b: Source) {
        crate::de::lemma_one_reading_all::<T>(a@, b@, rest_a, rest_b);
    }
}

} // verus!
