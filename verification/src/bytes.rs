//! Byte buffers of `serde_bytes`: they are written as byte strings, not as
//! sequences of integers.

use crate::de::{Deserialize, DeserializeLaws, Deserializer, Source};
use crate::error::{Error, Result};
use crate::ser::{Serialize, SerializeLaws, Serializer};
use crate::sized::{size_hint_from_byte_seq_len, MtProtoSized};
use crate::wire;
use vstd::prelude::*;

verus! {

/// A byte buffer of `serde_bytes`.
#[verifier::external_body]
#[derive(Debug, PartialEq, Eq)]
pub struct ByteBuf {
    inner: serde_bytes::ByteBuf,
}

/// The bytes that a byte buffer holds.
pub uninterp spec fn byte_buf_contents(buf: ByteBuf) -> Seq<u8>;

/// `<serde_bytes::ByteBuf as AsRef<[u8]>>::as_ref`: the bytes that the
/// buffer holds.
#[verifier::external_body]
fn byte_buf_as_slice(buf: &ByteBuf) -> (bytes: &[u8])
    ensures
        bytes@ == byte_buf_contents(*buf),
{
    buf.inner.as_ref()
}

/// `serde_bytes::ByteBuf::from` on a `Vec`: the buffer that holds the
/// bytes of the vector.
#[verifier::external_body]
fn byte_buf_from_vec(bytes: Vec<u8>) -> (buf: ByteBuf)
    ensures
        byte_buf_contents(buf) == bytes@,
{
    ByteBuf { inner: serde_bytes::ByteBuf::from(bytes) }
}

/// `serde_bytes::ByteBuf::into_vec`: the vector of the bytes that the
/// buffer holds.
#[verifier::external_body]
fn byte_buf_into_vec(buf: ByteBuf) -> (bytes: Vec<u8>)
    ensures
        bytes@ == byte_buf_contents(buf),
{
    buf.inner.into_vec()
}

impl ByteBuf {
    /// Wrap existing bytes in a `ByteBuf`.
    pub fn from(bytes: Vec<u8>) -> (buf: ByteBuf)
        ensures
            byte_buf_contents(buf) == bytes@,
    {
        byte_buf_from_vec(bytes)
    }

    /// The bytes of this `ByteBuf`.
    pub fn as_slice(&self) -> (bytes: &[u8])
        ensures
            bytes@ == byte_buf_contents(*self),
    {
        byte_buf_as_slice(self)
    }

    /// Unwrap the vector of bytes underlying this `ByteBuf`.
    pub fn into_vec(self) -> (bytes: Vec<u8>)
        ensures
            bytes@ == byte_buf_contents(self),
    {
        byte_buf_into_vec(self)
    }
}

impl MtProtoSized for ByteBuf {
    open spec fn spec_size_hint(&self) -> core::result::Result<usize, Error> {
        crate::sized::spec_size_hint_from_byte_seq_len(byte_buf_contents(*self).len() as usize)
    }

    fn size_hint(&self) -> (r: Result<usize>) {
        size_hint_from_byte_seq_len(byte_buf_as_slice(self).len())
    }
}

impl Serialize for ByteBuf {
    open spec fn wire(&self) -> core::result::Result<Seq<u8>, Error> {
        crate::ser::bytes_wire(byte_buf_contents(*self))
    }

    open spec fn variant_hints(&self) -> Seq<Seq<char>> {
        Seq::empty()
    }

    fn serialize(&self, ser: &mut Serializer) -> (r: Result<()>) {
        ser.serialize_bytes(byte_buf_as_slice(self))
    }
}

impl SerializeLaws for ByteBuf {
    proof fn lemma_wire_aligned(&self) {
        if self.wire() is Ok {
            wire::lemma_byte_seq_wire_len(byte_buf_contents(*self));
        }
    }

    proof fn lemma_size_is_wire_len(&self) {
        if self.wire() is Ok {
            wire::lemma_byte_seq_wire_len(byte_buf_contents(*self));
        }
    }
}

impl Deserialize for ByteBuf {
    open spec fn decoded(before: Source, r: Result<Self>, after: Source) -> bool {
        match crate::de::spec_byte_buf(before.bytes) {
            Ok((data, total)) => {
                &&& r is Ok
                &&& byte_buf_contents(r.unwrap()) == data
                &&& after == before.skip(total as int)
            },
            Err(e) => r == Err::<ByteBuf, Error>(e) && after == before,
        }
    }

    fn deserialize(de: &mut Deserializer) -> (r: Result<Self>) {
        match de.deserialize_byte_buf() {
            Ok(bytes) => Ok(byte_buf_from_vec(bytes)),
            Err(e) => Err(e),
        }
    }
}

impl DeserializeLaws for ByteBuf {
    open spec fn reads_back(&self) -> bool {
        true
    }

    proof fn lemma_decoded_was_written(before: Source, v: Self, after: Source) {
        let (data, total) = crate::de::spec_byte_buf(before.bytes).unwrap();
        crate::de::lemma_byte_buf_decoded(before.bytes);
        crate::de::lemma_source_split(before, total as int);
    }

    proof fn lemma_written_is_decoded(v: Self, rest: Source, r: Result<Self>, after: Source) {
        let data = byte_buf_contents(v);
        crate::de::lemma_byte_buf_written(data, rest.bytes);
        crate::de::lemma_source_join(rest, wire::byte_seq_wire(data));
    }

    open spec fn same(&self, other: &Self) -> bool {
        byte_buf_contents(*self) == byte_buf_contents(*other)
    }

    proof fn lemma_one_reading(a: Self, b: Self, rest_a: Source, rest_b: Source) {
        let data_a = byte_buf_contents(a);
        let data_b = byte_buf_contents(b);
        crate::de::lemma_byte_buf_written(data_a, rest_a.bytes);
        crate::de::lemma_byte_buf_written(data_b, rest_b.bytes);
        crate::de::lemma_source_join(rest_a, wire::byte_seq_wire(data_a));
        crate::de::lemma_source_join(rest_b, wire::byte_seq_wire(data_b));
    }
}

} // verus!
