//! A wrapper struct that attaches both the type id and the serialized
//! size to a value: it is laid out as (id, size, data).

use crate::de::{Deserialize, DeserializeLaws, Deserializer, Source};
use crate::error::{DeErrorKind, Error, Result};
use crate::identifiable::Identifiable;
use crate::ser::{Serialize, SerializeLaws, Serializer};
use crate::sized::{add_size, MtProtoSized};
use crate::wire;
use crate::wrappers::{check_size, check_type_id, next_seq_element, size_field};
use vstd::prelude::*;

verus! {

/// Size of the id and the size that stand in front of the value.
pub const ENVELOPE_SIZE: usize = 8;

/// A struct that wraps an `Identifiable` and `MtProtoSized` type value
/// to serialize and deserialize as a boxed MTProto data type with the
/// size of its serialized value.
#[derive(Clone, Debug, Eq, Hash, PartialEq)]
pub struct BoxedWithLength<T> {
    inner: T,
}

impl<T> View for BoxedWithLength<T> {
    type V = T;

    /// The value in the box.
    closed spec fn view(&self) -> T {
        self.inner
    }
}

impl<T: Identifiable + MtProtoSized> BoxedWithLength<T> {
    /// Wrap a value along with its id and serialized length. A value that
    /// has no predicted size is refused, with the reason why it has none.
    pub fn new(inner: T) -> (r: Result<BoxedWithLength<T>>)
        ensures
            match inner.spec_size_hint() {
                Ok(_) => r is Ok && r.unwrap()@ == inner,
                Err(e) => r == Err::<BoxedWithLength<T>, Error>(e),
            },
    {
        let _ = inner.size_hint()?;
        Ok(BoxedWithLength { inner })
    }

    /// Return an immutable reference to the underlying data.
    pub fn inner(&self) -> (inner: &T)
        ensures
            *inner == self@,
    {
        &self.inner
    }

    /// Return a mutable reference to the underlying data.
    pub fn inner_mut(&mut self) -> (inner: &mut T)
        ensures
            *inner == old(self)@,
            final(self)@ == *final(inner),
    {
        &mut self.inner
    }

    /// Unwrap the box and return the wrapped value.
    pub fn into_inner(self) -> (inner: T)
        ensures
            inner == self@,
    {
        self.inner
    }
}

/// What checking a value that was read against the id and the size that
/// were read in front of it gives. A wrong id is reported in preference to
/// a wrong size: with another id the size means nothing.
pub open spec fn spec_check_envelope<T: Identifiable + MtProtoSized>(
    type_id: u32,
    size: u32,
    value: T,
) -> core::result::Result<(), Error> {
    if type_id != value.spec_type_id() {
        Err(Error::De(DeErrorKind::TypeIdMismatch(type_id, value.spec_type_id())))
    } else {
        crate::wrappers::spec_check_size(size, value.spec_size_hint())
    }
}

/// Checks a value that was read against the id and the size that were read
/// in front of it, the id first.
pub fn check_envelope<T: Identifiable + MtProtoSized>(type_id: u32, size: u32, value: &T) -> (r:
    Result<()>)
    ensures
        r == spec_check_envelope(type_id, size, *value),
{
    let value_id = value.type_id();
    if type_id != value_id {
        return Err(Error::De(DeErrorKind::TypeIdMismatch(type_id, value_id)));
    }
    check_size(size, value)
}

impl<T: Identifiable> Identifiable for BoxedWithLength<T> {
    open spec fn spec_all_type_ids() -> Seq<u32> {
        T::spec_all_type_ids()
    }

    open spec fn spec_all_enum_variant_names() -> Option<Seq<Seq<char>>> {
        T::spec_all_enum_variant_names()
    }

    open spec fn spec_type_id(&self) -> u32 {
        self@.spec_type_id()
    }

    open spec fn spec_enum_variant_id(&self) -> Option<Seq<char>> {
        self@.spec_enum_variant_id()
    }

    fn all_type_ids() -> (ids: &'static [u32]) {
        T::all_type_ids()
    }

    fn all_enum_variant_names() -> (names: Option<&'static [&'static str]>) {
        T::all_enum_variant_names()
    }

    fn type_id(&self) -> (id: u32) {
        self.inner.type_id()
    }

    fn enum_variant_id(&self) -> (name: Option<&'static str>) {
        self.inner.enum_variant_id()
    }
}

impl<T: MtProtoSized> MtProtoSized for BoxedWithLength<T> {
    open spec fn spec_size_hint(&self) -> core::result::Result<usize, Error> {
        crate::sized::spec_add_size(ENVELOPE_SIZE, self@.spec_size_hint())
    }

    fn size_hint(&self) -> (r: Result<usize>) {
        let inner_size_hint = self.inner.size_hint()?;
        add_size(ENVELOPE_SIZE, inner_size_hint)
    }
}

impl<T: Serialize + Identifiable + MtProtoSized> Serialize for BoxedWithLength<T> {
    open spec fn wire(&self) -> core::result::Result<Seq<u8>, Error> {
        match crate::wrappers::spec_size_field(self@.spec_size_hint()) {
            Ok(size) => crate::ser::wire_then(
                Ok(wire::uint_wire(self@.spec_type_id() as nat) + wire::uint_wire(size as nat)),
                self@.wire(),
            ),
            Err(e) => Err(e),
        }
    }

    open spec fn variant_hints(&self) -> Seq<Seq<char>> {
        self@.variant_hints()
    }

    fn serialize(&self, ser: &mut Serializer) -> (r: Result<()>) {
        let size_u32 = size_field(&self.inner)?;
        let mut s = ser.serialize_struct("BoxedWithLength", 3)?;
        s.serialize_field("id", &self.inner.type_id())?;
        s.serialize_field("size", &size_u32)?;
        s.serialize_field("inner", &self.inner)?;
        assert(s.ser@ =~= old(ser)@ + ((wire::uint_wire(self@.spec_type_id() as nat)
            + wire::uint_wire(size_u32 as nat)) + self@.wire().unwrap()));
        s.end()
    }
}

impl<T: SerializeLaws + Identifiable> SerializeLaws for BoxedWithLength<T> {
    proof fn lemma_wire_aligned(&self) {
        self@.lemma_wire_aligned();
        wire::lemma_int_wire_len(self@.spec_type_id() as int);
        if crate::wrappers::spec_size_field(self@.spec_size_hint()) is Ok {
            wire::lemma_int_wire_len(
                crate::wrappers::spec_size_field(self@.spec_size_hint()).unwrap() as int,
            );
        }
    }

    proof fn lemma_size_is_wire_len(&self) {
        self@.lemma_size_is_wire_len();
        wire::lemma_int_wire_len(self@.spec_type_id() as int);
        if crate::wrappers::spec_size_field(self@.spec_size_hint()) is Ok {
            wire::lemma_int_wire_len(
                crate::wrappers::spec_size_field(self@.spec_size_hint()).unwrap() as int,
            );
        }
    }
}

impl<T: Deserialize + Identifiable + MtProtoSized> Deserialize for BoxedWithLength<T> {
    open spec fn decoded(before: Source, r: Result<Self>, after: Source) -> bool {
        match crate::de::spec_u32(before.bytes) {
            Ok(type_id) => if !T::spec_all_type_ids().contains(type_id) {
                &&& r matches Err(Error::De(DeErrorKind::InvalidTypeId(found, expected)))
                &&& found == type_id
                &&& expected@ == T::spec_all_type_ids()
                &&& after == before.skip(4)
            } else {
                match crate::de::spec_u32(before.bytes.skip(4)) {
                    Ok(size) => match r {
                        Ok(boxed) => {
                            &&& T::decoded(before.skip(8), Ok(boxed@), after)
                            &&& boxed@.spec_type_id() == type_id
                            &&& boxed@.spec_size_hint() == Ok::<usize, Error>(size as usize)
                        },
                        Err(e) => {
                            ||| T::decoded(before.skip(8), Err(e), after)
                            ||| exists|value: T|
                                {
                                    &&& #[trigger] T::decoded(before.skip(8), Ok(value), after)
                                    &&& spec_check_envelope(type_id, size, value) == Err::<
                                        (),
                                        Error,
                                    >(e)
                                }
                        },
                    },
                    Err(e) => r == Err::<Self, Error>(e) && after == before.skip(4),
                }
            },
            Err(e) => r == Err::<Self, Error>(e) && after == before,
        }
    }

    fn deserialize(de: &mut Deserializer) -> (r: Result<Self>) {
        let fields: &'static [&'static str] = &["id", "size", "inner"];
        let mut seq = de.deserialize_struct("BoxedWithLength", fields)?;
        let type_id: u32 = next_seq_element(&mut seq, 0, 3)?;
        check_type_id::<T>(type_id)?;
        let size: u32 = next_seq_element(&mut seq, 1, 3)?;
        assert(old(de)@.skip(4).skip(4) == old(de)@.skip(8)) by {
            assert(old(de)@.bytes.skip(4).skip(4) =~= old(de)@.bytes.skip(8));
        }
        let inner: T = next_seq_element(&mut seq, 2, 3)?;
        check_envelope(type_id, size, &inner)?;
        Ok(BoxedWithLength { inner })
    }
}

impl<T: DeserializeLaws + Identifiable + MtProtoSized> DeserializeLaws for BoxedWithLength<T> {
    open spec fn reads_back(&self) -> bool {
        &&& self@.reads_back()
        &&& crate::wrappers::id_follows_value(self@)
        &&& crate::wrappers::size_follows_value(self@)
        &&& T::spec_all_type_ids().contains(self@.spec_type_id())
    }

    proof fn lemma_decoded_was_written(before: Source, v: Self, after: Source) {
        crate::de::lemma_u32_decoded(before.bytes);
        crate::de::lemma_u32_decoded(before.bytes.skip(4));
        T::lemma_decoded_was_written(before.skip(8), v@, after);
        let id = wire::uint_wire(v@.spec_type_id() as nat);
        let size = wire::uint_wire(crate::de::spec_u32(before.bytes.skip(4)).unwrap() as nat);
        let inner = v@.wire().unwrap();
        assert(before.bytes =~= before.bytes.take(4) + before.bytes.skip(4).take(4)
            + before.bytes.skip(8));
        assert(before.bytes =~= ((id + size) + inner) + after.bytes);
    }

    proof fn lemma_written_is_decoded(v: Self, rest: Source, r: Result<Self>, after: Source) {
        let size = crate::wrappers::spec_size_field(v@.spec_size_hint()).unwrap();
        let id = wire::uint_wire(v@.spec_type_id() as nat);
        let inner = v@.wire().unwrap();
        let before = rest.after(v.wire().unwrap(), v.variant_hints());
        let start = rest.after(inner, v@.variant_hints());
        let tail = wire::uint_wire(size as nat) + (inner + rest.bytes);
        crate::de::lemma_u32_written(v@.spec_type_id(), tail);
        crate::de::lemma_u32_written(size, inner + rest.bytes);
        assert(before.bytes =~= id + tail);
        assert(before.bytes.skip(4) =~= tail);
        assert(before.bytes.skip(8) =~= before.bytes.skip(4).skip(4));
        assert(before.skip(8) == start);
        match r {
            Ok(boxed) => {
                T::lemma_written_is_decoded(v@, rest, Ok(boxed@), after);
            },
            Err(e) => {
                if T::decoded(start, Err(e), after) {
                    T::lemma_written_is_decoded(v@, rest, Err(e), after);
                } else {
                    let value = choose|value: T|
                        {
                            &&& #[trigger] T::decoded(start, Ok(value), after)
                            &&& spec_check_envelope(v@.spec_type_id(), size, value) == Err::<
                                (),
                                Error,
                            >(e)
                        };
                    T::lemma_written_is_decoded(v@, rest, Ok(value), after);
                    T::lemma_decoded_was_written(start, value, rest);
                    T::lemma_one_reading(value, v@, rest, rest);
                }
            },
        }
    }

    open spec fn same(&self, other: &Self) -> bool {
        self@.same(&other@) && self@.spec_type_id() == other@.spec_type_id()
    }

    proof fn lemma_one_reading(a: Self, b: Self, rest_a: Source, rest_b: Source) {
        let size_a = crate::wrappers::spec_size_field(a@.spec_size_hint()).unwrap();
        let size_b = crate::wrappers::spec_size_field(b@.spec_size_hint()).unwrap();
        let sized_a = wire::uint_wire(size_a as nat) + a@.wire().unwrap();
        let sized_b = wire::uint_wire(size_b as nat) + b@.wire().unwrap();
        assert(a.wire().unwrap() =~= wire::uint_wire(a@.spec_type_id() as nat) + sized_a);
        assert(b.wire().unwrap() =~= wire::uint_wire(b@.spec_type_id() as nat) + sized_b);
        crate::wrappers::lemma_one_reading_behind_u32(
            a@.spec_type_id(),
            b@.spec_type_id(),
            rest_a,
            rest_b,
            sized_a,
            sized_b,
            a@.variant_hints(),
            b@.variant_hints(),
        );
        crate::wrappers::lemma_one_reading_behind_u32(
            size_a,
            size_b,
            rest_a,
            rest_b,
            a@.wire().unwrap(),
            b@.wire().unwrap(),
            a@.variant_hints(),
            b@.variant_hints(),
        );
        T::lemma_one_reading(a@, b@, rest_a, rest_b);
    }
}

} // verus!
