//! The one floating-point type of the wire.

use crate::de::{Deserialize, DeserializeLaws, Deserializer, Source};
use crate::error::{Error, Result};
use crate::identifiable::{Identifiable, DOUBLE_ID};
use crate::ser::{Serialize, SerializeLaws, Serializer};
use crate::sized::{MtProtoSized, DOUBLE_SIZE};
use crate::wire;
use vstd::prelude::*;

verus! {

/// A double-precision number, held by its IEEE-754 bits: the wire has no
/// other floating-point type, and a single-precision number is widened to
/// it before it is written.
#[derive(Clone, Copy, Debug, PartialEq, Eq, Hash)]
pub struct Double {
    bits: u64,
}

impl View for Double {
    type V = u64;

    /// The bits of the number.
    closed spec fn view(&self) -> u64 {
        self.bits
    }
}

impl Double {
    /// The number that has the given bits.
    pub fn from_bits(bits: u64) -> (double: Double)
        ensures
            double@ == bits,
    {
        Double { bits }
    }

    /// The bits of the number.
    pub fn to_bits(&self) -> (bits: u64)
        ensures
            bits == self@,
    {
        self.bits
    }
}

impl Identifiable for Double {
    open spec fn spec_all_type_ids() -> Seq<u32> {
        seq![DOUBLE_ID]
    }

    open spec fn spec_all_enum_variant_names() -> Option<Seq<Seq<char>>> {
        None
    }

    open spec fn spec_type_id(&self) -> u32 {
        DOUBLE_ID
    }

    open spec fn spec_enum_variant_id(&self) -> Option<Seq<char>> {
        None
    }

    fn all_type_ids() -> (ids: &'static [u32]) {
        let ids: &'static [u32] = &[DOUBLE_ID];
        assert(ids@ =~= seq![DOUBLE_ID]);
        ids
    }

    fn all_enum_variant_names() -> (names: Option<&'static [&'static str]>) {
        None
    }

    fn type_id(&self) -> (id: u32) {
        assert(Self::spec_all_type_ids()[0] == DOUBLE_ID);
        DOUBLE_ID
    }

    fn enum_variant_id(&self) -> (name: Option<&'static str>) {
        None
    }
}

impl MtProtoSized for Double {
    open spec fn spec_size_hint(&self) -> core::result::Result<usize, Error> {
        Ok(DOUBLE_SIZE)
    }

    fn size_hint(&self) -> (r: Result<usize>) {
        Ok(DOUBLE_SIZE)
    }
}

impl Serialize for Double {
    open spec fn wire(&self) -> core::result::Result<Seq<u8>, Error> {
        Ok(wire::ulong_wire(self@ as nat))
    }

    open spec fn variant_hints(&self) -> Seq<Seq<char>> {
        Seq::empty()
    }

    fn serialize(&self, ser: &mut Serializer) -> (r: Result<()>) {
        ser.serialize_f64(self.bits)
    }
}

impl SerializeLaws for Double {
    proof fn lemma_wire_aligned(&self) {
        wire::lemma_int_wire_len(self@ as int);
    }

    proof fn lemma_size_is_wire_len(&self) {
        wire::lemma_int_wire_len(self@ as int);
    }
}

impl Deserialize for Double {
    open spec fn decoded(before: Source, r: Result<Self>, after: Source) -> bool {
        match crate::de::spec_u64(before.bytes) {
            Ok(bits) => r is Ok && r.unwrap()@ == bits && after == before.skip(8),
            Err(e) => r == Err::<Double, Error>(e) && after == before,
        }
    }

    fn deserialize(de: &mut Deserializer) -> (r: Result<Self>) {
        match de.deserialize_f64() {
            Ok(bits) => Ok(Double { bits }),
            Err(e) => Err(e),
        }
    }
}

impl DeserializeLaws for Double {
    open spec fn reads_back(&self) -> bool {
        true
    }

    proof fn lemma_decoded_was_written(before: Source, v: Self, after: Source) {
        crate::de::lemma_u64_decoded(before.bytes);
        crate::de::lemma_source_split(before, 8);
    }

    proof fn lemma_written_is_decoded(v: Self, rest: Source, r: Result<Self>, after: Source) {
        crate::de::lemma_u64_written(v@, rest.bytes);
        crate::de::lemma_source_join(rest, wire::ulong_wire(v@ as nat));
    }

    open spec fn same(&self, other: &Self) -> bool {
        self@ == other@
    }

    proof fn lemma_one_reading(a: Self, b: Self, rest_a: Source, rest_b: Source) {
        crate::de::lemma_u64_written(a@, rest_a.bytes);
        crate::de::lemma_u64_written(b@, rest_b.bytes);
        crate::de::lemma_source_join(rest_a, wire::ulong_wire(a@ as nat));
        crate::de::lemma_source_join(rest_b, wire::ulong_wire(b@ as nat));
    }
}

} // verus!
