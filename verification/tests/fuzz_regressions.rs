//! Testing inputs obtained from fuzzers.
//!
//! Tests named `roundtrip_success*` should successfully make a roundtrip for a
//! prefix of `DATA` while those named `roundtrip_fail*` should fail to parse
//! and return `Err`. Tests are arranged this way to detect undesirable panics.

use serde_mtproto::de::{Deserialize, Deserializer};
use serde_mtproto::error::{DeErrorKind, Error, Result};
use serde_mtproto::ser::{Serialize, Serializer};
use serde_mtproto::wrappers::next_seq_element;
use serde_mtproto::{from_bytes, from_bytes_reuse, to_bytes, ByteBuf, Identifiable, MtProtoSized};

#[derive(Debug)]
struct Foo {
    a: String,
    b: Vec<i16>,
    c: ByteBuf,
}

impl MtProtoSized for Foo {
    fn size_hint(&self) -> Result<usize> {
        Ok(self.a.size_hint()? + self.b.size_hint()? + self.c.size_hint()?)
    }
}

impl Identifiable for Foo {
    fn all_type_ids() -> &'static [u32] {
        &[0xdeadbeef]
    }

    fn all_enum_variant_names() -> Option<&'static [&'static str]> {
        None
    }

    fn type_id(&self) -> u32 {
        0xdeadbeef
    }

    fn enum_variant_id(&self) -> Option<&'static str> {
        None
    }
}

impl Serialize for Foo {
    fn serialize(&self, ser: &mut Serializer) -> Result<()> {
        let mut s = ser.serialize_struct("Foo", 3)?;
        s.serialize_field("a", &self.a)?;
        s.serialize_field("b", &self.b)?;
        s.serialize_field("c", &self.c)?;
        s.end()
    }
}

impl Deserialize for Foo {
    fn deserialize(de: &mut Deserializer) -> Result<Self> {
        let mut seq = de.deserialize_struct("Foo", &["a", "b", "c"])?;
        let a: String = next_seq_element(&mut seq, 0, 3)?;
        let b: Vec<i16> = next_seq_element(&mut seq, 1, 3)?;
        let c: ByteBuf = next_seq_element(&mut seq, 2, 3)?;
        Ok(Foo { a, b, c })
    }
}

#[test]
fn roundtrip_success1() {
    const DATA: &[u8] = b"\x00\x00\x00\x00\x00\x00\x00\x08";

    let (value, remaining) = from_bytes_reuse::<String>(DATA, &[]).unwrap();
    let bytes = to_bytes(&value).unwrap();

    assert_eq!(bytes.len() + remaining.len(), DATA.len());
    assert_eq!(bytes, &DATA[0..bytes.len()]);
}

#[test]
fn roundtrip_fail1() {
    const DATA: &[u8] = b"\x00\n\xff\xf8\xff\xfb\xff\xff\xff\xff\x07\x00\x00\x00\xfe\xff\xff\xff\xff\xff\xff";

    assert!(from_bytes::<String>(DATA, &[]).is_err());
    assert_eq!(
        from_bytes::<String>(DATA, &[]),
        Err(Error::De(DeErrorKind::NonZeroBytesPadding))
    );
}

#[test]
fn roundtrip_fail2() {
    const DATA: &[u8] = b"\xfe\x00\x00\x00\x00\x00\x00\x00\x00\x00\x00\x00\x00\x00\x00\x00\x00\x00\x00\x00\x00\x00\x00\x00\x00\x00\x00\x00\x00\x00\x00\x00\x00\x00\x00\x00\x00\x00\x00\x00\x00\x00\x00";

    assert!(from_bytes::<String>(DATA, &[]).is_err());
    assert_eq!(
        from_bytes::<String>(DATA, &[]),
        Err(Error::De(DeErrorKind::BytesLenPrefix254LessThan254(0)))
    );
}

#[test]
fn roundtrip_fail3() {
    const DATA: &[u8] = b"\x00\x00\x00\x00\x00\x10\x00\x00\x00\x00\x00\x00\x00\x00\x00\x00\x00\xff\xff\xff\xff\xff\xff\xff\xff\xff\xfb\xff\xff\xff\xff\xff\xff\xff\xff\xff\xff\xff\xff\xff\xff\xff\xff\xff\xff\xff\xff\xff\xff\xff\xff\xff\xff\xff\xff\xff\xff\xff\xff\xff\xff\xff\xff\xff\xff\xff\xff\xff\xff\xff\xff\xff\xff\xff\xff\xff\xff\xff\xff\xff\xff\xff\xff\xff\xff\xff\xff\xff\xff\xff\xff\xff\xff\xff\xff\xff\xff\x00\x00\x00\x00\x00\x00\x00\x00\x00\x00\x00\x00\x00\x00\x00\x00\x00\x00\x00\x00\x00\x00\n";

    assert!(from_bytes::<Foo>(DATA, &[]).is_err());
}
