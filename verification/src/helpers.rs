//! Helper types for assisting in some [de]serialization scenarios.

use crate::de::{DeserializeSeed, Deserializer, Source};
use crate::error::{Error, IoErrorKind, Result};
use crate::ser::{Serialize, SerializeLaws, Serializer};
use crate::sized::MtProtoSized;
use crate::wire;
use crate::wrappers::next_seq_element;
use vstd::prelude::*;
use vstd::slice::slice_subrange;

verus! {

/// The number of bytes of a chunk: a byte buffer without its length is
/// written as 32-bit words.
pub const CHUNK_SIZE: usize = 4;

/// A byte buffer which doesn't write its length when serialized. It can
/// be serialized where its length is a multiple of four.
#[derive(Clone, Debug, Eq, PartialEq)]
pub struct UnsizedByteBuf {
    inner: Vec<u8>,
}

impl View for UnsizedByteBuf {
    type V = Seq<u8>;

    /// The bytes of the buffer.
    closed spec fn view(&self) -> Seq<u8> {
        self.inner@
    }
}

impl UnsizedByteBuf {
    /// Wrap a byte buffer, whose length has to be a multiple of four.
    pub fn new(inner: Vec<u8>) -> (r: Result<UnsizedByteBuf>)
        requires
            inner@.len() % 4 == 0,
        ensures
            r is Ok,
            r.unwrap()@ == inner@,
    {
        Ok(UnsizedByteBuf { inner })
    }

    /// Create a new buffer and copy from `input` and pad so that the buffer
    /// length was divisible by 4.
    pub fn from_slice_pad(input: &[u8]) -> (buf: UnsizedByteBuf)
        requires
            input@.len() + 3 <= usize::MAX,
        ensures
            buf@ == input@ + wire::zeros(wire::padding_len(input@.len())),
    {
        let mut inner = Vec::new();
        crate::ser::extend(&mut inner, input);
        crate::ser::extend_zeros(&mut inner, wire::padding_for(input.len()));
        UnsizedByteBuf { inner }
    }

    /// Return an immutable reference to the underlying byte buffer.
    pub fn inner(&self) -> (inner: &Vec<u8>)
        ensures
            inner@ == self@,
    {
        &self.inner
    }

    /// Return a mutable reference to the underlying byte buffer.
    pub fn inner_mut(&mut self) -> (inner: &mut Vec<u8>)
        ensures
            inner@ == old(self)@,
            final(self)@ == final(inner)@,
    {
        &mut self.inner
    }

    /// Consume the `UnsizedByteBuf` and return the underlying byte buffer.
    pub fn into_inner(self) -> (inner: Vec<u8>)
        ensures
            inner@ == self@,
    {
        self.inner
    }
}

impl MtProtoSized for UnsizedByteBuf {
    open spec fn spec_size_hint(&self) -> core::result::Result<usize, Error> {
        Ok(self@.len() as usize)
    }

    fn size_hint(&self) -> (r: Result<usize>) {
        Ok(self.inner.len())
    }
}

impl Serialize for UnsizedByteBuf {
    open spec fn wire(&self) -> core::result::Result<Seq<u8>, Error> {
        if self@.len() % 4 != 0 {
            Err(Error::UnalignedByteSeq(self@.len() as usize))
        } else if self@.len() / 4 > u32::MAX {
            Err(Error::UnsignedIntegerCast((self@.len() / 4) as u128))
        } else {
            Ok(self@)
        }
    }

    open spec fn variant_hints(&self) -> Seq<Seq<char>> {
        Seq::empty()
    }

    #[verifier::loop_isolation(false)]
    fn serialize(&self, ser: &mut Serializer) -> (r: Result<()>) {
        if self.inner.len() % CHUNK_SIZE != 0 {
            return Err(Error::UnalignedByteSeq(self.inner.len()));
        }
        let ghost after = *final(ser);
        let chunks_count = self.inner.len() / CHUNK_SIZE;
        let mut tuple = ser.serialize_tuple_struct("UnsizedByteBuf", chunks_count)?;
        let mut i: usize = 0;
        while i < chunks_count
            invariant
                i <= chunks_count,
                tuple.len == chunks_count,
                tuple.next_index == i,
                tuple.ser@ == old(ser)@ + self.inner@.take(4 * i),
                after@ == final(tuple.ser)@,
            decreases chunks_count - i,
        {
            let chunk = slice_subrange(self.inner.as_slice(), 4 * i, 4 * i + 4);
            let chunk_u32 = wire::read_u32(chunk);
            proof {
                assert(chunk@.subrange(0, 4) =~= chunk@);
                wire::lemma_le_value_bound(chunk@);
                wire::lemma_le_bytes_of_value(chunk@);
                wire::lemma_pow256_values();
                assert(self.inner@.take(4 * i) + chunk@ =~= self.inner@.take(4 * (i + 1)));
            }
            tuple.serialize_element(&chunk_u32)?;
            i += 1;
            assert(tuple.ser@ =~= old(ser)@ + self.inner@.take(4 * i));
        }
        assert(self.inner@.take(4 * i) =~= self.inner@);
        tuple.end()
    }
}

impl SerializeLaws for UnsizedByteBuf {
    proof fn lemma_wire_aligned(&self) {
    }

    proof fn lemma_size_is_wire_len(&self) {
        assert(self.inner.len() == self@.len());
    }
}

/// An unsized byte buffer seed with the length of the byte sequence to be deserialized.
#[derive(Clone, Debug, Eq, PartialEq)]
pub struct UnsizedByteBufSeed {
    inner_len: usize,
}

impl View for UnsizedByteBufSeed {
    type V = usize;

    /// The number of bytes to read.
    closed spec fn view(&self) -> usize {
        self.inner_len
    }
}

impl UnsizedByteBufSeed {
    /// Construct a new unsized byte buffer seed with the length of the byte sequence to be
    /// deserialized, which has to be a multiple of four.
    pub fn new(inner_len: usize) -> (r: Result<UnsizedByteBufSeed>)
        requires
            inner_len % 4 == 0,
        ensures
            r is Ok,
            r.unwrap()@ == inner_len,
    {
        Ok(UnsizedByteBufSeed { inner_len })
    }
}

/// What reading `len` bytes as 32-bit words gives: the bytes, where there
/// are as many; else the words that are there are read, and the next one
/// is missed. A length that is no multiple of four is refused, and so are
/// more words than 32 bits can count.
pub open spec fn unsized_decoded(
    len: usize,
    before: Source,
    r: Result<UnsizedByteBuf>,
    after: Source,
) -> bool {
    if len % 4 != 0 {
        r == Err::<UnsizedByteBuf, Error>(Error::UnalignedByteSeq(len)) && after == before
    } else if len / 4 > u32::MAX {
        r == Err::<UnsizedByteBuf, Error>(Error::UnsignedIntegerCast((len / 4) as u128)) && after
            == before
    } else if before.bytes.len() >= len {
        &&& r is Ok
        &&& r.unwrap()@ == before.bytes.take(len as int)
        &&& after == before.skip(len as int)
    } else {
        &&& r == Err::<UnsizedByteBuf, Error>(Error::Io(IoErrorKind::UnexpectedEof))
        &&& after == before.skip(4 * (before.bytes.len() as int / 4))
    }
}

impl DeserializeSeed for UnsizedByteBufSeed {
    type Value = UnsizedByteBuf;

    open spec fn decoded(self, before: Source, r: Result<UnsizedByteBuf>, after: Source) -> bool {
        unsized_decoded(self@, before, r, after)
    }

    #[verifier::loop_isolation(false)]
    fn deserialize(self, de: &mut Deserializer) -> (r: Result<UnsizedByteBuf>) {
        if self.inner_len % CHUNK_SIZE != 0 {
            return Err(Error::UnalignedByteSeq(self.inner_len));
        }
        let ghost start = de@;
        let ghost after = *final(de);
        let chunks_count = self.inner_len / CHUNK_SIZE;
        let mut seq = de.deserialize_tuple_struct("UnsizedByteBuf", chunks_count)?;
        let mut inner: Vec<u8> = Vec::new();
        let mut i: u32 = 0;
        assert(start.bytes.skip(0) =~= start.bytes);
        while i < chunks_count as u32
            invariant
                i <= chunks_count,
                seq.len == chunks_count,
                seq.next_index == i,
                4 * i <= start.bytes.len(),
                inner@ == start.bytes.take(4 * i),
                seq.de@ == start.skip(4 * i),
                after == *final(seq.de),
            decreases chunks_count - i,
        {
            let ghost here = seq.de@;
            let chunk_u32: u32 = match next_seq_element(&mut seq, i, chunks_count as u32) {
                Ok(chunk_u32) => chunk_u32,
                Err(e) => {
                    return Err(e);
                },
            };
            proof {
                crate::de::lemma_u32_decoded(here.bytes);
                assert(here.bytes.take(4) =~= start.bytes.subrange(4 * i, 4 * i + 4));
                assert(start.bytes.take(4 * i) + here.bytes.take(4) =~= start.bytes.take(
                    4 * (i + 1),
                ));
                assert(here.skip(4) == start.skip(4 * (i + 1))) by {
                    assert(here.bytes.skip(4) =~= start.bytes.skip(4 * (i + 1)));
                }
            }
            let chunk = wire::write_u32(chunk_u32);
            crate::ser::extend(&mut inner, chunk.as_slice());
            i += 1;
        }
        Ok(UnsizedByteBuf { inner })
    }
}

/// A buffer that was written is read back by a seed with its length.
pub proof fn lemma_unsized_round_trip(
    buf: UnsizedByteBuf,
    seed: UnsizedByteBufSeed,
    rest: Source,
    r: Result<UnsizedByteBuf>,
    after: Source,
)
    requires
        buf.wire() is Ok,
        seed@ == buf@.len(),
        seed.decoded(rest.after(buf.wire().unwrap(), buf.variant_hints()), r, after),
    ensures
        r is Ok,
        r.unwrap()@ == buf@,
        after == rest,
{
    crate::de::lemma_source_join(rest, buf@);
}

} // verus!
