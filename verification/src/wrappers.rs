//! Wrapper structs for attaching additional data to a type for
//! [de]serialization purposes.
//!
//! ## Data and metadata layout
//!
//! | Wrapper type | Layout       |
//! |--------------|--------------|
//! | [`Boxed`]    | (id, data)   |
//! | [`WithSize`] | (size, data) |
//!
//! ## How does `Boxed<WithSize<T>>` differ from `WithSize<Boxed<T>>`?
//!
//! The first is laid out as (id, size, data) while the second — as
//! (size, id, data).
//! While the `id` value in both cases represent the type id of `data`
//! the `size` value in two layouts above are not the same thing: in the
//! first one it equals `data.size_hint()?`, but in the second one it
//! equals `data.size_hint()? + 4` because it also includes the size of
//! the `id` value.

use crate::de::{Deserialize, DeserializeLaws, Deserializer, MapAccess, SeqAccess, Source};
use crate::error::{DeErrorKind, Error, Result};
use crate::identifiable::Identifiable;
use crate::ser::{Serialize, SerializeLaws, Serializer};
use crate::sized::{add_size, MtProtoSized, INT_SIZE};
use crate::utils::{safe_uint_cast_u32, safe_uint_eq};
use crate::wire;
use vstd::prelude::*;

verus! {

/// Whether every value that is the same as `v` has the id of `v`.
pub open spec fn id_follows_value<T: DeserializeLaws + Identifiable>(v: T) -> bool {
    forall|o: T| #[trigger] o.same(&v) ==> o.spec_type_id() == v.spec_type_id()
}

/// Whether every value that is the same as `v` has the predicted size of
/// `v`.
pub open spec fn size_follows_value<T: DeserializeLaws + MtProtoSized>(v: T) -> bool {
    forall|o: T| #[trigger] o.same(&v) ==> o.spec_size_hint() == v.spec_size_hint()
}

/// Whether `type_id` is one of the ids of the type: nothing is wrong then;
/// else the id is reported with the ids that were expected.
pub open spec fn type_id_checked<T: Identifiable>(type_id: u32, r: Result<()>) -> bool {
    if T::spec_all_type_ids().contains(type_id) {
        r == Ok::<(), Error>(())
    } else {
        &&& r matches Err(Error::De(DeErrorKind::InvalidTypeId(found, expected)))
        &&& found == type_id
        &&& expected@ == T::spec_all_type_ids()
    }
}

/// Checks that `type_id` is one of the ids that a value of the type can
/// have.
pub fn check_type_id<T: Identifiable>(type_id: u32) -> (r: Result<()>)
    ensures
        type_id_checked::<T>(type_id, r),
{
    let expected_type_ids = T::all_type_ids();
    let mut i: usize = 0;
    while i < expected_type_ids.len()
        invariant
            i <= expected_type_ids.len(),
            expected_type_ids@ == T::spec_all_type_ids(),
            forall|j: int| 0 <= j < i ==> expected_type_ids@[j] != type_id,
        decreases expected_type_ids.len() - i,
    {
        if expected_type_ids[i] == type_id {
            return Ok(());
        }
        i += 1;
    }
    Err(Error::De(DeErrorKind::InvalidTypeId(type_id, expected_type_ids)))
}

/// Reads the next element of a struct, and reports a missing one with the
/// number of elements read and the number expected.
pub fn next_seq_element<T: Deserialize>(
    seq: &mut SeqAccess,
    deserialized_count: u32,
    expected_count: u32,
) -> (r: Result<T>)
    ensures
        final(seq).len == old(seq).len,
        old(seq).next_index < old(seq).len ==> {
            &&& final(seq).next_index == old(seq).next_index + 1
            &&& T::decoded(old(seq).de@, r, final(seq).de@)
        },
        old(seq).next_index >= old(seq).len ==> {
            &&& final(seq).next_index == old(seq).next_index
            &&& r matches Err(e)
            &&& e == Error::De(DeErrorKind::NotEnoughElements(deserialized_count, expected_count))
            &&& final(seq).de@ == old(seq).de@
        },
        *final(final(seq).de) == *final(old(seq).de),
{
    match seq.next_element::<T>() {
        Ok(Some(v)) => Ok(v),
        Ok(None) => Err(
            Error::De(DeErrorKind::NotEnoughElements(deserialized_count, expected_count)),
        ),
        Err(e) => Err(e),
    }
}

/// Whether reading the entry of a struct that is written as a map, under
/// the key `expected_key`, gives `r` and leaves `after`: the key is read
/// as a string, and the value is read only where the key is the expected
/// one.
pub open spec fn struct_element_read<V: Deserialize>(
    before: Source,
    expected_key: &'static str,
    r: Result<V>,
    after: Source,
) -> bool {
    match crate::de::spec_string(before.bytes) {
        Ok((key, total)) => if key == expected_key@ {
            V::decoded(before.skip(total as int), r, after)
        } else {
            &&& r matches Err(Error::De(DeErrorKind::InvalidMapKey(found, expected)))
            &&& found@ == key
            &&& expected@ == expected_key@
            &&& after == before.skip(total as int)
        },
        Err(e) => r == Err::<V, Error>(e) && after == before,
    }
}

/// Reads the next entry of a struct that is written as a map, and reports
/// a missing one with the number of entries read and the number expected.
/// The value is not read where the key is not the expected one.
pub fn next_struct_element<V: Deserialize>(
    map: &mut MapAccess,
    expected_key: &'static str,
    deserialized_count: u32,
    expected_count: u32,
) -> (r: Result<V>)
    ensures
        final(map).len == old(map).len,
        old(map).next_index < old(map).len ==> {
            &&& final(map).next_index == old(map).next_index + 1
            &&& struct_element_read::<V>(old(map).de@, expected_key, r, final(map).de@)
        },
        old(map).next_index >= old(map).len ==> {
            &&& final(map).next_index == old(map).next_index
            &&& r matches Err(e)
            &&& e == Error::De(DeErrorKind::NotEnoughElements(deserialized_count, expected_count))
            &&& final(map).de@ == old(map).de@
        },
        *final(final(map).de) == *final(old(map).de),
{
    let next_key: String = match map.next_key::<String>() {
        Ok(Some(key)) => key,
        Ok(None) => {
            return Err(
                Error::De(DeErrorKind::NotEnoughElements(deserialized_count, expected_count)),
            );
        },
        Err(e) => {
            return Err(e);
        },
    };
    // Don't even try to deserialize value if keys don't match
    if !str_eq(next_key.as_str(), expected_key) {
        return Err(Error::De(DeErrorKind::InvalidMapKey(next_key, expected_key)));
    }
    map.next_value::<V>()
}

/// Whether two byte strings have the same bytes.
fn bytes_eq(a: &[u8], b: &[u8]) -> (r: bool)
    ensures
        r == (a@ == b@),
{
    if a.len() != b.len() {
        return false;
    }
    let mut i: usize = 0;
    while i < a.len()
        invariant
            i <= a.len(),
            a.len() == b.len(),
            forall|j: int| 0 <= j < i ==> a@[j] == b@[j],
        decreases a.len() - i,
    {
        if a[i] != b[i] {
            return false;
        }
        i += 1;
    }
    assert(a@ =~= b@);
    true
}

/// Whether two strings have the same characters.
fn str_eq(a: &str, b: &str) -> (r: bool)
    ensures
        r == (a@ == b@),
{
    proof {
        vstd::utf8::encode_utf8_decode_utf8(a@);
        vstd::utf8::encode_utf8_decode_utf8(b@);
    }
    bytes_eq(a.as_bytes(), b.as_bytes())
}

/// Where two values stand behind a 32-bit number each, at the front of one
/// source, the numbers are equal, and the values stand at the front of one
/// source.
pub proof fn lemma_one_reading_behind_u32(
    m: u32,
    n: u32,
    rest_a: Source,
    rest_b: Source,
    a: Seq<u8>,
    b: Seq<u8>,
    ha: Seq<Seq<char>>,
    hb: Seq<Seq<char>>,
)
    requires
        rest_a.after(wire::uint_wire(m as nat) + a, ha) == rest_b.after(
            wire::uint_wire(n as nat) + b,
            hb,
        ),
    ensures
        m == n,
        rest_a.after(a, ha) == rest_b.after(b, hb),
{
    let behind_a = rest_a.after(a, ha);
    let behind_b = rest_b.after(b, hb);
    crate::de::lemma_u32_written(m, behind_a.bytes);
    crate::de::lemma_u32_written(n, behind_b.bytes);
    crate::de::lemma_after_after(rest_a, wire::uint_wire(m as nat), a, Seq::empty(), ha);
    crate::de::lemma_after_after(rest_b, wire::uint_wire(n as nat), b, Seq::empty(), hb);
    assert(Seq::<Seq<char>>::empty() + ha =~= ha);
    assert(Seq::<Seq<char>>::empty() + hb =~= hb);
    crate::de::lemma_source_join(behind_a, wire::uint_wire(m as nat));
    crate::de::lemma_source_join(behind_b, wire::uint_wire(n as nat));
}

/// A struct that wraps an [`Identifiable`] type value to serialize and
/// deserialize as a boxed MTProto data type.
#[derive(Clone, Debug, Eq, Hash, Ord, PartialEq, PartialOrd)]
pub struct Boxed<T> {
    inner: T,
}

/// An alias for [`Boxed`] that is similar to [`WithSize`].
pub type WithId<T> = Boxed<T>;

impl<T> View for Boxed<T> {
    type V = T;

    /// The value in the box.
    closed spec fn view(&self) -> T {
        self.inner
    }
}

impl<T: Identifiable> Boxed<T> {
    /// Wrap a value along with its id.
    pub fn new(inner: T) -> (boxed: Boxed<T>)
        ensures
            boxed@ == inner,
    {
        Boxed { inner }
    }

    /// Return an immutable reference to the underlying data.
    pub fn inner(&self) -> (inner: &T)
        ensures
            *inner == self@,
    {
        &self.inner
    }

    /// Return a mutable reference to the underlying data.
    pub fn inner_mut(&mut self) -> (inner: &mut T)
        ensures
            *inner == old(self)@,
            final(self)@ == *final(inner),
    {
        &mut self.inner
    }

    /// Unwrap the box and return the wrapped value.
    pub fn into_inner(self) -> (inner: T)
        ensures
            inner == self@,
    {
        self.inner
    }
}

/// What checking a value that was read against the id that was read in
/// front of it gives: the value in a box where it has that id; else both
/// ids as an error.
pub open spec fn spec_checked_boxed_value<T: Identifiable>(type_id: u32, value: T, r: Result<
    Boxed<T>,
>) -> bool {
    if type_id == value.spec_type_id() {
        r is Ok && r.unwrap()@ == value
    } else {
        r == Err::<Boxed<T>, Error>(
            Error::De(DeErrorKind::TypeIdMismatch(type_id, value.spec_type_id())),
        )
    }
}

/// Puts a value that was read into a box, where it has the id that was
/// read in front of it.
pub fn checked_boxed_value<T: Identifiable>(type_id: u32, value: T) -> (r: Result<Boxed<T>>)
    ensures
        spec_checked_boxed_value(type_id, value, r),
{
    let value_id = value.type_id();
    if type_id != value_id {
        return Err(Error::De(DeErrorKind::TypeIdMismatch(type_id, value_id)));
    }
    Ok(Boxed::new(value))
}

impl<T: Identifiable> Identifiable for Boxed<T> {
    open spec fn spec_all_type_ids() -> Seq<u32> {
        T::spec_all_type_ids()
    }

    open spec fn spec_all_enum_variant_names() -> Option<Seq<Seq<char>>> {
        T::spec_all_enum_variant_names()
    }

    open spec fn spec_type_id(&self) -> u32 {
        self@.spec_type_id()
    }

    open spec fn spec_enum_variant_id(&self) -> Option<Seq<char>> {
        self@.spec_enum_variant_id()
    }

    fn all_type_ids() -> (ids: &'static [u32]) {
        T::all_type_ids()
    }

    fn all_enum_variant_names() -> (names: Option<&'static [&'static str]>) {
        T::all_enum_variant_names()
    }

    fn type_id(&self) -> (id: u32) {
        self.inner.type_id()
    }

    fn enum_variant_id(&self) -> (name: Option<&'static str>) {
        self.inner.enum_variant_id()
    }
}

impl<T: MtProtoSized> MtProtoSized for Boxed<T> {
    open spec fn spec_size_hint(&self) -> core::result::Result<usize, Error> {
        crate::sized::spec_add_size(INT_SIZE, self@.spec_size_hint())
    }

    fn size_hint(&self) -> (r: Result<usize>) {
        let inner_size_hint = self.inner.size_hint()?;
        add_size(INT_SIZE, inner_size_hint)
    }
}

impl<T: Serialize + Identifiable> Serialize for Boxed<T> {
    open spec fn wire(&self) -> core::result::Result<Seq<u8>, Error> {
        crate::ser::wire_then(Ok(wire::uint_wire(self@.spec_type_id() as nat)), self@.wire())
    }

    open spec fn variant_hints(&self) -> Seq<Seq<char>> {
        self@.variant_hints()
    }

    fn serialize(&self, ser: &mut Serializer) -> (r: Result<()>) {
        let mut s = ser.serialize_struct("Boxed", 2)?;
        s.serialize_field("id", &self.inner.type_id())?;
        s.serialize_field("inner", &self.inner)?;
        assert(s.ser@ =~= old(ser)@ + (wire::uint_wire(self@.spec_type_id() as nat)
            + self@.wire().unwrap()));
        s.end()
    }
}

impl<T: SerializeLaws + Identifiable> SerializeLaws for Boxed<T> {
    proof fn lemma_wire_aligned(&self) {
        self@.lemma_wire_aligned();
        wire::lemma_int_wire_len(self@.spec_type_id() as int);
    }

    proof fn lemma_size_is_wire_len(&self) {
        self@.lemma_size_is_wire_len();
        wire::lemma_int_wire_len(self@.spec_type_id() as int);
    }
}

impl<T: Deserialize + Identifiable> Deserialize for Boxed<T> {
    open spec fn decoded(before: Source, r: Result<Self>, after: Source) -> bool {
        match crate::de::spec_u32(before.bytes) {
            Ok(type_id) => if !T::spec_all_type_ids().contains(type_id) {
                &&& r matches Err(Error::De(DeErrorKind::InvalidTypeId(found, expected)))
                &&& found == type_id
                &&& expected@ == T::spec_all_type_ids()
                &&& after == before.skip(4)
            } else {
                match r {
                    Ok(boxed) => {
                        &&& T::decoded(before.skip(4), Ok(boxed@), after)
                        &&& boxed@.spec_type_id() == type_id
                    },
                    Err(e) => {
                        ||| T::decoded(before.skip(4), Err(e), after)
                        ||| exists|value: T|
                            {
                                &&& #[trigger] T::decoded(before.skip(4), Ok(value), after)
                                &&& value.spec_type_id() != type_id
                                &&& e == Error::De(
                                    DeErrorKind::TypeIdMismatch(type_id, value.spec_type_id()),
                                )
                            }
                    },
                }
            },
            Err(e) => r == Err::<Self, Error>(e) && after == before,
        }
    }

    fn deserialize(de: &mut Deserializer) -> (r: Result<Self>) {
        let fields: &'static [&'static str] = &["id", "inner"];
        let mut seq = de.deserialize_struct("Boxed", fields)?;
        let type_id: u32 = next_seq_element(&mut seq, 0, 2)?;
        check_type_id::<T>(type_id)?;
        let value: T = next_seq_element(&mut seq, 1, 2)?;
        checked_boxed_value::<T>(type_id, value)
    }
}

impl<T: DeserializeLaws + Identifiable> DeserializeLaws for Boxed<T> {
    open spec fn reads_back(&self) -> bool {
        &&& self@.reads_back()
        &&& id_follows_value(self@)
        &&& T::spec_all_type_ids().contains(self@.spec_type_id())
    }

    proof fn lemma_decoded_was_written(before: Source, v: Self, after: Source) {
        crate::de::lemma_u32_decoded(before.bytes);
        T::lemma_decoded_was_written(before.skip(4), v@, after);
        let id = wire::uint_wire(v@.spec_type_id() as nat);
        let inner = v@.wire().unwrap();
        assert(before.bytes =~= before.bytes.take(4) + before.bytes.skip(4));
        assert(before.bytes =~= (id + inner) + after.bytes);
    }

    proof fn lemma_written_is_decoded(v: Self, rest: Source, r: Result<Self>, after: Source) {
        let id = wire::uint_wire(v@.spec_type_id() as nat);
        let inner = v@.wire().unwrap();
        let before = rest.after(v.wire().unwrap(), v.variant_hints());
        let start = rest.after(inner, v@.variant_hints());
        crate::de::lemma_u32_written(v@.spec_type_id(), inner + rest.bytes);
        assert(before.bytes =~= id + (inner + rest.bytes));
        assert(before.skip(4) == start);
        match r {
            Ok(boxed) => {
                T::lemma_written_is_decoded(v@, rest, Ok(boxed@), after);
            },
            Err(e) => {
                if T::decoded(start, Err(e), after) {
                    T::lemma_written_is_decoded(v@, rest, Err(e), after);
                } else {
                    let value = choose|value: T|
                        {
                            &&& #[trigger] T::decoded(start, Ok(value), after)
                            &&& value.spec_type_id() != v@.spec_type_id()
                        };
                    T::lemma_written_is_decoded(v@, rest, Ok(value), after);
                    T::lemma_decoded_was_written(start, value, rest);
                    T::lemma_one_reading(value, v@, rest, rest);
                }
            },
        }
    }

    open spec fn same(&self, other: &Self) -> bool {
        self@.same(&other@) && self@.spec_type_id() == other@.spec_type_id()
    }

    proof fn lemma_one_reading(a: Self, b: Self, rest_a: Source, rest_b: Source) {
        let behind_a = rest_a.after(a@.wire().unwrap(), a@.variant_hints());
        let behind_b = rest_b.after(b@.wire().unwrap(), b@.variant_hints());
        lemma_one_reading_behind_u32(
            a@.spec_type_id(),
            b@.spec_type_id(),
            rest_a,
            rest_b,
            a@.wire().unwrap(),
            b@.wire().unwrap(),
            a@.variant_hints(),
            b@.variant_hints(),
        );
        T::lemma_one_reading(a@, b@, rest_a, rest_b);
    }
}

/// A struct that wraps a [`MtProtoSized`] type value to serialize and
/// deserialize as a MTProto data type with the size of its serialized
/// value.
#[derive(Clone, Debug, Eq, Hash, Ord, PartialEq, PartialOrd)]
pub struct WithSize<T> {
    inner: T,
}

impl<T> View for WithSize<T> {
    type V = T;

    /// The value that the size is given of.
    closed spec fn view(&self) -> T {
        self.inner
    }
}

impl<T: MtProtoSized> WithSize<T> {
    /// Wrap a value along with its serialized size.
    pub fn new(inner: T) -> (r: Result<WithSize<T>>)
        ensures
            r is Ok,
            r.unwrap()@ == inner,
    {
        Ok(WithSize { inner })
    }

    /// Return an immutable reference to the underlying data.
    pub fn inner(&self) -> (inner: &T)
        ensures
            *inner == self@,
    {
        &self.inner
    }

    /// Return a mutable reference to the underlying data.
    pub fn inner_mut(&mut self) -> (inner: &mut T)
        ensures
            *inner == old(self)@,
            final(self)@ == *final(inner),
    {
        &mut self.inner
    }

    /// Unwrap the box and return the wrapped value.
    pub fn into_inner(self) -> (inner: T)
        ensures
            inner == self@,
    {
        self.inner
    }
}

/// The size that is written in front of a value: the size that is
/// predicted for it, which 32 bits have to hold.
pub open spec fn spec_size_field(hint: core::result::Result<usize, Error>) -> core::result::Result<
    u32,
    Error,
> {
    match hint {
        Ok(size) => if size <= u32::MAX {
            Ok(size as u32)
        } else {
            Err(Error::UnsignedIntegerCast(size as u128))
        },
        Err(e) => Err(e),
    }
}

/// The size that is written in front of a value.
pub fn size_field<T: MtProtoSized>(value: &T) -> (r: Result<u32>)
    ensures
        r == spec_size_field(value.spec_size_hint()),
{
    let size_usize = value.size_hint()?;
    safe_uint_cast_u32(size_usize)
}

/// What checking a value that was read against the size that was read in
/// front of it gives: nothing is wrong where that is the size predicted
/// for the value; else both sizes are reported, or the reason why the
/// value has no size, or none that 32 bits hold.
pub open spec fn spec_check_size(
    size: u32,
    hint: core::result::Result<usize, Error>,
) -> core::result::Result<(), Error> {
    match hint {
        Ok(predicted) => if size == predicted {
            Ok(())
        } else if predicted <= u32::MAX {
            Err(Error::De(DeErrorKind::SizeMismatch(size, predicted as u32)))
        } else {
            Err(Error::UnsignedIntegerCast(predicted as u128))
        },
        Err(e) => Err(e),
    }
}

/// Checks a value that was read against the size that was read in front of
/// it.
pub fn check_size<T: MtProtoSized>(size: u32, value: &T) -> (r: Result<()>)
    ensures
        r == spec_check_size(size, value.spec_size_hint()),
{
    let size_hint = value.size_hint()?;
    if !safe_uint_eq(size, size_hint) {
        return Err(Error::De(DeErrorKind::SizeMismatch(size, safe_uint_cast_u32(size_hint)?)));
    }
    Ok(())
}

impl<T: Identifiable> Identifiable for WithSize<T> {
    open spec fn spec_all_type_ids() -> Seq<u32> {
        T::spec_all_type_ids()
    }

    open spec fn spec_all_enum_variant_names() -> Option<Seq<Seq<char>>> {
        T::spec_all_enum_variant_names()
    }

    open spec fn spec_type_id(&self) -> u32 {
        self@.spec_type_id()
    }

    open spec fn spec_enum_variant_id(&self) -> Option<Seq<char>> {
        self@.spec_enum_variant_id()
    }

    fn all_type_ids() -> (ids: &'static [u32]) {
        T::all_type_ids()
    }

    fn all_enum_variant_names() -> (names: Option<&'static [&'static str]>) {
        T::all_enum_variant_names()
    }

    fn type_id(&self) -> (id: u32) {
        self.inner.type_id()
    }

    fn enum_variant_id(&self) -> (name: Option<&'static str>) {
        self.inner.enum_variant_id()
    }
}

impl<T: MtProtoSized> MtProtoSized for WithSize<T> {
    open spec fn spec_size_hint(&self) -> core::result::Result<usize, Error> {
        crate::sized::spec_add_size(INT_SIZE, self@.spec_size_hint())
    }

    fn size_hint(&self) -> (r: Result<usize>) {
        let inner_size_hint = self.inner.size_hint()?;
        add_size(INT_SIZE, inner_size_hint)
    }
}

impl<T: Serialize + MtProtoSized> Serialize for WithSize<T> {
    open spec fn wire(&self) -> core::result::Result<Seq<u8>, Error> {
        match spec_size_field(self@.spec_size_hint()) {
            Ok(size) => crate::ser::wire_then(Ok(wire::uint_wire(size as nat)), self@.wire()),
            Err(e) => Err(e),
        }
    }

    open spec fn variant_hints(&self) -> Seq<Seq<char>> {
        self@.variant_hints()
    }

    fn serialize(&self, ser: &mut Serializer) -> (r: Result<()>) {
        let size_u32 = size_field(&self.inner)?;
        let mut s = ser.serialize_struct("WithSize", 2)?;
        s.serialize_field("size", &size_u32)?;
        s.serialize_field("inner", &self.inner)?;
        assert(s.ser@ =~= old(ser)@ + (wire::uint_wire(size_u32 as nat) + self@.wire().unwrap()));
        s.end()
    }
}

impl<T: SerializeLaws> SerializeLaws for WithSize<T> {
    proof fn lemma_wire_aligned(&self) {
        self@.lemma_wire_aligned();
        if spec_size_field(self@.spec_size_hint()) is Ok {
            wire::lemma_int_wire_len(spec_size_field(self@.spec_size_hint()).unwrap() as int);
        }
    }

    proof fn lemma_size_is_wire_len(&self) {
        self@.lemma_size_is_wire_len();
        if spec_size_field(self@.spec_size_hint()) is Ok {
            wire::lemma_int_wire_len(spec_size_field(self@.spec_size_hint()).unwrap() as int);
        }
    }
}

impl<T: Deserialize + MtProtoSized> Deserialize for WithSize<T> {
    open spec fn decoded(before: Source, r: Result<Self>, after: Source) -> bool {
        match crate::de::spec_u32(before.bytes) {
            Ok(size) => match r {
                Ok(sized) => {
                    &&& T::decoded(before.skip(4), Ok(sized@), after)
                    &&& sized@.spec_size_hint() == Ok::<usize, Error>(size as usize)
                },
                Err(e) => {
                    ||| T::decoded(before.skip(4), Err(e), after)
                    ||| exists|value: T|
                        {
                            &&& #[trigger] T::decoded(before.skip(4), Ok(value), after)
                            &&& spec_check_size(size, value.spec_size_hint()) == Err::<(), Error>(e)
                        }
                },
            },
            Err(e) => r == Err::<Self, Error>(e) && after == before,
        }
    }

    fn deserialize(de: &mut Deserializer) -> (r: Result<Self>) {
        let fields: &'static [&'static str] = &["size", "inner"];
        let mut seq = de.deserialize_struct("WithSize", fields)?;
        let size: u32 = next_seq_element(&mut seq, 0, 2)?;
        let inner: T = next_seq_element(&mut seq, 1, 2)?;
        check_size(size, &inner)?;
        Ok(WithSize { inner })
    }
}

impl<T: DeserializeLaws + MtProtoSized> DeserializeLaws for WithSize<T> {
    open spec fn reads_back(&self) -> bool {
        self@.reads_back() && size_follows_value(self@)
    }

    proof fn lemma_decoded_was_written(before: Source, v: Self, after: Source) {
        crate::de::lemma_u32_decoded(before.bytes);
        T::lemma_decoded_was_written(before.skip(4), v@, after);
        let size = crate::de::spec_u32(before.bytes).unwrap();
        let inner = v@.wire().unwrap();
        assert(before.bytes =~= before.bytes.take(4) + before.bytes.skip(4));
        assert(before.bytes =~= (wire::uint_wire(size as nat) + inner) + after.bytes);
    }

    proof fn lemma_written_is_decoded(v: Self, rest: Source, r: Result<Self>, after: Source) {
        let size = spec_size_field(v@.spec_size_hint()).unwrap();
        let inner = v@.wire().unwrap();
        let before = rest.after(v.wire().unwrap(), v.variant_hints());
        let start = rest.after(inner, v@.variant_hints());
        crate::de::lemma_u32_written(size, inner + rest.bytes);
        assert(before.bytes =~= wire::uint_wire(size as nat) + (inner + rest.bytes));
        assert(before.skip(4) == start);
        match r {
            Ok(sized) => {
                T::lemma_written_is_decoded(v@, rest, Ok(sized@), after);
            },
            Err(e) => {
                if T::decoded(start, Err(e), after) {
                    T::lemma_written_is_decoded(v@, rest, Err(e), after);
                } else {
                    let value = choose|value: T|
                        {
                            &&& #[trigger] T::decoded(start, Ok(value), after)
                            &&& spec_check_size(size, value.spec_size_hint()) == Err::<(), Error>(e)
                        };
                    T::lemma_written_is_decoded(v@, rest, Ok(value), after);
                    T::lemma_decoded_was_written(start, value, rest);
                    T::lemma_one_reading(value, v@, rest, rest);
                }
            },
        }
    }

    open spec fn same(&self, other: &Self) -> bool {
        self@.same(&other@)
    }

    proof fn lemma_one_reading(a: Self, b: Self, rest_a: Source, rest_b: Source) {
        lemma_one_reading_behind_u32(
            spec_size_field(a@.spec_size_hint()).unwrap(),
            spec_size_field(b@.spec_size_hint()).unwrap(),
            rest_a,
            rest_b,
            a@.wire().unwrap(),
            b@.wire().unwrap(),
            a@.variant_hints(),
            b@.variant_hints(),
        );
        T::lemma_one_reading(a@, b@, rest_a, rest_b);
    }
}

/// Where a boxed value is read and the id in front is none of the ids of
/// the type, the reading fails with that id and the ids of the type, and
/// nothing after the id is read.
pub proof fn lemma_unknown_id_is_refused<T: Deserialize + Identifiable>(
    before: Source,
    r: Result<Boxed<T>>,
    after: Source,
)
    requires
        before.bytes.len() >= 4,
        !T::spec_all_type_ids().contains(crate::de::spec_u32(before.bytes).unwrap()),
        Boxed::<T>::decoded(before, r, after),
    ensures
        r matches Err(Error::De(DeErrorKind::InvalidTypeId(found, expected))) && found
            == crate::de::spec_u32(before.bytes).unwrap() && expected@ == T::spec_all_type_ids(),
        after == before.skip(4),
{
}

} // verus!
