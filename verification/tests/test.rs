use std::collections::BTreeMap;

use serde_mtproto::de::{Deserialize, Deserializer};
use serde_mtproto::error::{DeErrorKind, Error, Result};
use serde_mtproto::ser::{Serialize, Serializer};
use serde_mtproto::wrappers::next_seq_element;
use serde_mtproto::{
    from_bytes, from_reader, to_bytes, to_writer, Boxed, ByteBuf, Double, Identifiable,
    MtProtoSized, UnsizedByteBuf, UnsizedByteBufSeed,
};
use serde_mtproto::DeserializeSeed;

#[derive(Debug, PartialEq)]
struct Foo {
    has_receiver: bool,
    size: usize,
    raw_info: ByteBuf,
}

impl MtProtoSized for Foo {
    fn size_hint(&self) -> Result<usize> {
        Ok(self.has_receiver.size_hint()? + self.size.size_hint()? + self.raw_info.size_hint()?)
    }
}

impl Identifiable for Foo {
    fn all_type_ids() -> &'static [u32] {
        &[0xdeadbeef]
    }

    fn all_enum_variant_names() -> Option<&'static [&'static str]> {
        None
    }

    fn type_id(&self) -> u32 {
        0xdeadbeef
    }

    fn enum_variant_id(&self) -> Option<&'static str> {
        None
    }
}

impl Serialize for Foo {
    fn serialize(&self, ser: &mut Serializer) -> Result<()> {
        let mut s = ser.serialize_struct("Foo", 3)?;
        s.serialize_field("has_receiver", &self.has_receiver)?;
        s.serialize_field("size", &self.size)?;
        s.serialize_field("raw_info", &self.raw_info)?;
        s.end()
    }
}

impl Deserialize for Foo {
    fn deserialize(de: &mut Deserializer) -> Result<Self> {
        let mut seq = de.deserialize_struct("Foo", &["has_receiver", "size", "raw_info"])?;
        let has_receiver: bool = next_seq_element(&mut seq, 0, 3)?;
        let size: usize = next_seq_element(&mut seq, 1, 3)?;
        let raw_info: ByteBuf = next_seq_element(&mut seq, 2, 3)?;
        Ok(Foo { has_receiver, size, raw_info })
    }
}

#[derive(Debug, PartialEq)]
struct Message {
    auth_key_id: i64,
    msg_key: [u32; 4],
    encrypted_data: UnsizedByteBuf,
}

impl MtProtoSized for Message {
    fn size_hint(&self) -> Result<usize> {
        Ok(self.auth_key_id.size_hint()?
            + self.msg_key.size_hint()?
            + self.encrypted_data.size_hint()?)
    }
}

impl Identifiable for Message {
    fn all_type_ids() -> &'static [u32] {
        &[0x80808080]
    }

    fn all_enum_variant_names() -> Option<&'static [&'static str]> {
        None
    }

    fn type_id(&self) -> u32 {
        0x80808080
    }

    fn enum_variant_id(&self) -> Option<&'static str> {
        None
    }
}

impl Serialize for Message {
    fn serialize(&self, ser: &mut Serializer) -> Result<()> {
        let mut s = ser.serialize_struct("Message", 3)?;
        s.serialize_field("auth_key_id", &self.auth_key_id)?;
        s.serialize_field("msg_key", &self.msg_key)?;
        s.serialize_field("encrypted_data", &self.encrypted_data)?;
        s.end()
    }
}

fn deserialize_message(seq: &mut serde_mtproto::de::SeqAccess) -> Result<UnsizedByteBuf> {
    match seq.next_element_seed(UnsizedByteBufSeed::new(32)?)? {
        Some(buf) => Ok(buf),
        None => Err(Error::De(DeErrorKind::NotEnoughElements(2, 3))),
    }
}

impl Deserialize for Message {
    fn deserialize(de: &mut Deserializer) -> Result<Self> {
        let mut seq = de.deserialize_struct("Message", &["auth_key_id", "msg_key", "encrypted_data"])?;
        let auth_key_id: i64 = next_seq_element(&mut seq, 0, 3)?;
        let msg_key: [u32; 4] = next_seq_element(&mut seq, 1, 3)?;
        let encrypted_data = deserialize_message(&mut seq)?;
        Ok(Message { auth_key_id, msg_key, encrypted_data })
    }
}

fn pad(bytes: &[u8]) -> Vec<u8> {
    let padding = (16 - bytes.len() % 16) % 16;
    let mut byte_buf = Vec::with_capacity(bytes.len() + padding);
    byte_buf.extend_from_slice(bytes);

    for _ in 0..padding {
        byte_buf.push(0);
    }

    byte_buf
}

#[derive(Debug, PartialEq)]
struct Nothing;

impl MtProtoSized for Nothing {
    fn size_hint(&self) -> Result<usize> {
        Ok(0)
    }
}

impl Identifiable for Nothing {
    fn all_type_ids() -> &'static [u32] {
        &[0xd15ea5e0]
    }

    fn all_enum_variant_names() -> Option<&'static [&'static str]> {
        None
    }

    fn type_id(&self) -> u32 {
        0xd15ea5e0
    }

    fn enum_variant_id(&self) -> Option<&'static str> {
        None
    }
}

impl Serialize for Nothing {
    fn serialize(&self, ser: &mut Serializer) -> Result<()> {
        ser.serialize_unit_struct("Nothing")
    }
}

impl Deserialize for Nothing {
    fn deserialize(de: &mut Deserializer) -> Result<Self> {
        de.deserialize_unit_struct("Nothing")?;
        Ok(Nothing)
    }
}

/// A map with its entries in the order of its keys, written through the
/// map interface of the serializer.
#[derive(Debug, PartialEq)]
struct Mapping(BTreeMap<String, i64>);

impl MtProtoSized for Mapping {
    fn size_hint(&self) -> Result<usize> {
        self.0.iter().collect::<Vec<_>>().size_hint()
    }
}

impl Serialize for Mapping {
    fn serialize(&self, ser: &mut Serializer) -> Result<()> {
        let mut map = ser.serialize_map(Some(self.0.len()))?;
        for (key, value) in &self.0 {
            map.serialize_key(key)?;
            map.serialize_value(value)?;
        }
        map.end()
    }
}

impl Deserialize for Mapping {
    fn deserialize(de: &mut Deserializer) -> Result<Self> {
        let mut map = de.deserialize_map()?;
        let mut entries = BTreeMap::new();
        while let Some(key) = map.next_key::<String>()? {
            let value = map.next_value::<i64>()?;
            entries.insert(key, value);
        }
        Ok(Mapping(entries))
    }
}

fn double_of(ratio: f32) -> Double {
    Double::from_bits(f64::from(ratio).to_bits())
}

fn single_of(double: Double) -> f32 {
    f64::from_bits(double.to_bits()) as f32
}

fn unknown_variant(name: &str) -> Error {
    Error::De(DeErrorKind::Msg(format!("unknown variant `{}`", name)))
}

fn clone_mapping(mapping: &BTreeMap<String, i64>) -> Mapping {
    Mapping(mapping.clone())
}

#[derive(Debug, PartialEq)]
enum Cafebabe<T> {
    Bar {
        byte_id: i8,
        position: (u64, u32),
        data: Boxed<T>,
        ratio: f32,
    },
    Baz {
        id: u64,
        name: String,
        payload: T,
        // not HashMap, because we need deterministic ordering for testing purposes
        mapping: BTreeMap<String, i64>,
    },
    Blob,
}

impl<T: MtProtoSized> MtProtoSized for Cafebabe<T> {
    fn size_hint(&self) -> Result<usize> {
        match self {
            Cafebabe::Bar { byte_id, position, data, ratio } => Ok(byte_id.size_hint()?
                + position.size_hint()?
                + data.size_hint()?
                + double_of(*ratio).size_hint()?),
            Cafebabe::Baz { id, name, payload, mapping } => Ok(id.size_hint()?
                + name.size_hint()?
                + payload.size_hint()?
                + clone_mapping(mapping).size_hint()?),
            Cafebabe::Blob => Ok(0),
        }
    }
}

impl<T> Identifiable for Cafebabe<T> {
    fn all_type_ids() -> &'static [u32] {
        &[0x0badf00d, 0xbaaaaaad, 0x0d00d1e0]
    }

    fn all_enum_variant_names() -> Option<&'static [&'static str]> {
        Some(&["Bar", "Baz", "Blob"])
    }

    fn type_id(&self) -> u32 {
        match self {
            Cafebabe::Bar { .. } => 0x0badf00d,
            Cafebabe::Baz { .. } => 0xbaaaaaad,
            Cafebabe::Blob => 0x0d00d1e0,
        }
    }

    fn enum_variant_id(&self) -> Option<&'static str> {
        let name = match self {
            Cafebabe::Bar { .. } => "Bar",
            Cafebabe::Baz { .. } => "Baz",
            Cafebabe::Blob => "Blob",
        };
        Some(name)
    }
}

impl<T: Serialize + Identifiable> Serialize for Cafebabe<T> {
    fn serialize(&self, ser: &mut Serializer) -> Result<()> {
        match self {
            Cafebabe::Bar { byte_id, position, data, ratio } => {
                let mut s = ser.serialize_struct_variant("Cafebabe", 0, "Bar", 4)?;
                s.serialize_field("byte_id", byte_id)?;
                s.serialize_field("position", position)?;
                s.serialize_field("data", data)?;
                s.serialize_field("ratio", &double_of(*ratio))?;
                s.end()
            },
            Cafebabe::Baz { id, name, payload, mapping } => {
                let mut s = ser.serialize_struct_variant("Cafebabe", 1, "Baz", 4)?;
                s.serialize_field("id", id)?;
                s.serialize_field("name", name)?;
                s.serialize_field("payload", payload)?;
                s.serialize_field("mapping", &clone_mapping(mapping))?;
                s.end()
            },
            Cafebabe::Blob => ser.serialize_unit_variant("Cafebabe", 2, "Blob"),
        }
    }
}

impl<T: Deserialize + Identifiable> Deserialize for Cafebabe<T> {
    fn deserialize(de: &mut Deserializer) -> Result<Self> {
        let mut access = de.deserialize_enum("Cafebabe", &["Bar", "Baz", "Blob"])?;
        let variant = access.variant()?;
        match variant {
            "Bar" => {
                let mut seq = access.struct_variant(&["byte_id", "position", "data", "ratio"])?;
                let byte_id: i8 = next_seq_element(&mut seq, 0, 4)?;
                let position: (u64, u32) = next_seq_element(&mut seq, 1, 4)?;
                let data: Boxed<T> = next_seq_element(&mut seq, 2, 4)?;
                let ratio: Double = next_seq_element(&mut seq, 3, 4)?;
                Ok(Cafebabe::Bar { byte_id, position, data, ratio: single_of(ratio) })
            },
            "Baz" => {
                let mut seq = access.struct_variant(&["id", "name", "payload", "mapping"])?;
                let id: u64 = next_seq_element(&mut seq, 0, 4)?;
                let name: String = next_seq_element(&mut seq, 1, 4)?;
                let payload: T = next_seq_element(&mut seq, 2, 4)?;
                let mapping: Mapping = next_seq_element(&mut seq, 3, 4)?;
                Ok(Cafebabe::Baz { id, name, payload, mapping: mapping.0 })
            },
            "Blob" => {
                access.unit_variant()?;
                Ok(Cafebabe::Blob)
            },
            other => Err(unknown_variant(other)),
        }
    }
}

const RATIO: f32 = 2.718281828;

fn foo() -> Foo {
    Foo {
        has_receiver: true,
        size: 57,
        raw_info: ByteBuf::from(vec![56, 114, 200, 1]),
    }
}

fn foo_serialized_bare() -> Vec<u8> {
    vec![
        181, 117, 114, 153,             // id of true in little-endian
        57, 0, 0, 0, 0, 0, 0, 0,        // 57 as little-endian 64-bit int
        4, 56, 114, 200, 1, 0, 0, 0,    // byte buffer containing 4 bytes
    ]
}

fn foo_serialized_boxed() -> Vec<u8> {
    vec![
        0xef, 0xbe, 0xad, 0xde,         // id of Foo in little-endian
        181, 117, 114, 153,             // id of true in little-endian
        57, 0, 0, 0, 0, 0, 0, 0,        // 57 as little-endian 64-bit int
        4, 56, 114, 200, 1, 0, 0, 0,    // byte buffer containing 4 bytes
    ]
}

fn message() -> Message {
    Message {
        auth_key_id: -0x7edcba9876543210,
        msg_key: [3230999370, 1546177172, 3106848747, 2091612143],
        encrypted_data: UnsizedByteBuf::new(pad(&[
            0, 1, 2, 3, 4, 5, 6, 7, 8, 9, 10, 11, 12, 13, 14, 15, 16, 17, 18,
        ]))
        .unwrap(),
    }
}

fn message_serialized_bare() -> Vec<u8> {
    vec![
        0xf0, 0xcd, 0xab, 0x89, 0x67, 0x45, 0x23, 0x81,
        0x4a, 0x23, 0x95, 0xc0, 0x94, 0xca, 0x28, 0x5c,
        0xeb, 0xbf, 0x2e, 0xb9, 0xef, 0x77, 0xab, 0x7c,
        0, 1, 2, 3, 4, 5, 6, 7, 8, 9, 10, 11, 12, 13, 14, 15,
        16, 17, 18, 0, 0, 0, 0, 0, 0, 0, 0, 0, 0, 0, 0, 0,
    ]
}

fn message_serialized_boxed() -> Vec<u8> {
    vec![
        0x80, 0x80, 0x80, 0x80,
        0xf0, 0xcd, 0xab, 0x89, 0x67, 0x45, 0x23, 0x81,
        0x4a, 0x23, 0x95, 0xc0, 0x94, 0xca, 0x28, 0x5c,
        0xeb, 0xbf, 0x2e, 0xb9, 0xef, 0x77, 0xab, 0x7c,
        0, 1, 2, 3, 4, 5, 6, 7, 8, 9, 10, 11, 12, 13, 14, 15,
        16, 17, 18, 0, 0, 0, 0, 0, 0, 0, 0, 0, 0, 0, 0, 0,
    ]
}

fn nothing() -> Nothing {
    Nothing
}

fn nothing_serialized_bare() -> Vec<u8> {
    vec![]
}

fn nothing_serialized_boxed() -> Vec<u8> {
    vec![
        0xe0, 0xa5, 0x5e, 0xd1,    // id of Nothing in little-endian
    ]
}

fn cafebabe_bar() -> Cafebabe<u32> {
    Cafebabe::Bar {
        byte_id: -20,
        position: (350, 142857),
        data: Boxed::new(4096),
        ratio: RATIO,
    }
}

fn cafebabe_bar_serialized_boxed() -> Vec<u8> {
    vec![
        0x0d, 0xf0, 0xad, 0x0b,          // id of Cafebabe::Bar in little-endian
        236, 255, 255, 255,              // -20 as 32-bit int (MTProto doesn't support less than 32-bit)
        94, 1, 0, 0, 0, 0, 0, 0,         // 350 as little-endian 64-bit int
        9, 46, 2, 0,                     // 142857 as little-endian 32-bit int
        218, 155, 80, 168,               // id of int built-in MTProto type
        0, 16, 0, 0,                     // 4096 as little-endian 32-bit int
        0, 0, 0, 128, 10, 191, 5, 64,    // 2.718281828 as little-endian 32-bit floating point
    ]
}

fn cafebabe_baz() -> Cafebabe<Vec<bool>> {
    let mut mapping = BTreeMap::new();
    mapping.insert("QWERTY".to_owned(), -1048576);
    mapping.insert("something".to_owned(), 0);
    mapping.insert("OtHeR".to_owned(), 0x7fff_ffff_ffff_ffff);
    mapping.insert("こんにちは".to_owned(), 8024735636555);
    mapping.insert("".to_owned(), -1);
    Cafebabe::Baz {
        id: u64::max_value(),
        name: "bee".to_owned(),
        payload: vec![false, true, false],
        mapping,
    }
}

fn cafebabe_baz_serialized_boxed() -> Vec<u8> {
    vec![
        0xad, 0xaa, 0xaa, 0xba,                    // id of Cafebabe::Baz in little-endian
        255, 255, 255, 255, 255, 255, 255, 255,    // u64::max_value() == 2 ** 64 - 1
        3, 98, 101, 101,                           // string "bee" of length 4 and no padding

        3, 0, 0, 0,                                // vec has 3 elements, len as 32-bit int
        55, 151, 121, 188,                         // id of false in little-endian
        181, 117, 114, 153,                        // id of true in little-endian
        55, 151, 121, 188,                         // id of false in little-endian

        5, 0, 0, 0,                                // hashmap has 5 elements, len as 32-bit int
        0, 0, 0, 0,                                // ""
        255, 255, 255, 255, 255, 255, 255, 255,    // -1 as little-endian 64-bit int
        5, 79, 116, 72, 101, 82, 0, 0,             // "OtHeR"
        255, 255, 255, 255, 255, 255, 255, 127,    // 0x7fff_ffff_ffff_ffff as little-endian 64-bit int
        6, 81, 87, 69, 82, 84, 89, 0,              // "QWERTY"
        0, 0, 240, 255, 255, 255, 255, 255,        // -1048576 as little-endian 64-bit int
        9, 115, 111, 109, 101, 116, 104, 105, 110, 103, 0, 0,    // "something"
        0, 0, 0, 0, 0, 0, 0, 0,                    // 0 as little-endian 64-bit int
        15, 227, 129, 147, 227, 130, 147, 227, 129, 171, 227, 129, 161, 227, 129, 175,    // "こんにちは"
        75, 92, 132, 103, 76, 7, 0, 0,             // 8024735636555 as little-endian 64-bit int
    ]
}

fn cafebabe_blob() -> Cafebabe<i16> {
    Cafebabe::Blob
}

fn cafebabe_blob_serialized_boxed() -> Vec<u8> {
    vec![
        0xe0, 0xd1, 0x00, 0x0d,    // id of Cafebabe::Blob in little-endian
    ]
}

#[test]
fn test_struct_to_bytes_bare() {
    let vec = to_bytes(&foo()).unwrap();

    assert_eq!(vec, foo_serialized_bare());
}

#[test]
fn test_struct_to_writer_bare() {
    let mut vec = Vec::new();
    to_writer(&mut vec, &foo()).unwrap();

    assert_eq!(vec, foo_serialized_bare());
}

#[test]
fn test_struct_from_bytes_bare() {
    let deserialized: Foo = from_bytes(&foo_serialized_bare(), &[]).unwrap();

    assert_eq!(deserialized, foo());
}

#[test]
fn test_struct_from_reader_bare() {
    let deserialized: Foo = from_reader(foo_serialized_bare().as_slice(), &[]).unwrap();

    assert_eq!(deserialized, foo());
}

#[test]
fn test_struct_size_prediction_bare() {
    let predicted_len = foo().size_hint().unwrap();

    assert_eq!(predicted_len, foo_serialized_bare().len());
}

#[test]
fn test_struct_to_bytes_boxed() {
    let vec = to_bytes(&Boxed::new(&foo())).unwrap();

    assert_eq!(vec, foo_serialized_boxed());
}

#[test]
fn test_struct_to_writer_boxed() {
    let mut vec = Vec::new();
    to_writer(&mut vec, &Boxed::new(&foo())).unwrap();

    assert_eq!(vec, foo_serialized_boxed());
}

#[test]
fn test_struct_from_bytes_boxed() {
    let deserialized: Boxed<Foo> = from_bytes(&foo_serialized_boxed(), &[]).unwrap();

    assert_eq!(deserialized.into_inner(), foo());
}

#[test]
fn test_struct_from_reader_boxed() {
    let deserialized: Boxed<Foo> = from_reader(foo_serialized_boxed().as_slice(), &[]).unwrap();

    assert_eq!(deserialized.into_inner(), foo());
}

#[test]
fn test_struct_size_prediction_boxed() {
    let predicted_len = Boxed::new(&foo()).size_hint().unwrap();

    assert_eq!(predicted_len, foo_serialized_boxed().len());
}

#[test]
fn test_struct_to_bytes_bare2() {
    let vec = to_bytes(&message()).unwrap();

    assert_eq!(vec, message_serialized_bare());
}

#[test]
fn test_struct_to_writer_bare2() {
    let mut vec = Vec::new();
    to_writer(&mut vec, &message()).unwrap();

    assert_eq!(vec, message_serialized_bare());
}

#[test]
fn test_struct_from_bytes_bare2() {
    let deserialized: Message = from_bytes(&message_serialized_bare(), &[]).unwrap();

    assert_eq!(deserialized, message());
}

#[test]
fn test_struct_from_reader_bare2() {
    let deserialized: Message = from_reader(message_serialized_bare().as_slice(), &[]).unwrap();

    assert_eq!(deserialized, message());
}

#[test]
fn test_struct_size_prediction_bare2() {
    let predicted_len = message().size_hint().unwrap();

    assert_eq!(predicted_len, message_serialized_bare().len());
}

#[test]
fn test_struct_to_bytes_boxed2() {
    let vec = to_bytes(&Boxed::new(&message())).unwrap();

    assert_eq!(vec, message_serialized_boxed());
}

#[test]
fn test_struct_to_writer_boxed2() {
    let mut vec = Vec::new();
    to_writer(&mut vec, &Boxed::new(&message())).unwrap();

    assert_eq!(vec, message_serialized_boxed());
}

#[test]
fn test_struct_from_bytes_boxed2() {
    let deserialized: Boxed<Message> = from_bytes(&message_serialized_boxed(), &[]).unwrap();

    assert_eq!(deserialized.into_inner(), message());
}

#[test]
fn test_struct_from_reader_boxed2() {
    let deserialized: Boxed<Message> = from_reader(message_serialized_boxed().as_slice(), &[]).unwrap();

    assert_eq!(deserialized.into_inner(), message());
}

#[test]
fn test_struct_size_prediction_boxed2() {
    let predicted_len = Boxed::new(&message()).size_hint().unwrap();

    assert_eq!(predicted_len, message_serialized_boxed().len());
}

#[test]
fn test_unit_struct_to_bytes_bare() {
    let vec = to_bytes(&nothing()).unwrap();

    assert_eq!(vec, nothing_serialized_bare());
}

#[test]
fn test_unit_struct_to_writer_bare() {
    let mut vec = Vec::new();
    to_writer(&mut vec, &nothing()).unwrap();

    assert_eq!(vec, nothing_serialized_bare());
}

#[test]
fn test_unit_struct_from_bytes_bare() {
    let deserialized: Nothing = from_bytes(&nothing_serialized_bare(), &[]).unwrap();

    assert_eq!(deserialized, nothing());
}

#[test]
fn test_unit_struct_from_reader_bare() {
    let deserialized: Nothing = from_reader(nothing_serialized_bare().as_slice(), &[]).unwrap();

    assert_eq!(deserialized, nothing());
}

#[test]
fn test_unit_struct_size_prediction_bare() {
    let predicted_len = nothing().size_hint().unwrap();

    assert_eq!(predicted_len, nothing_serialized_bare().len());
}

#[test]
fn test_unit_struct_to_bytes_boxed() {
    let vec = to_bytes(&Boxed::new(&nothing())).unwrap();

    assert_eq!(vec, nothing_serialized_boxed());
}

#[test]
fn test_unit_struct_to_writer_boxed() {
    let mut vec = Vec::new();
    to_writer(&mut vec, &Boxed::new(&nothing())).unwrap();

    assert_eq!(vec, nothing_serialized_boxed());
}

#[test]
fn test_unit_struct_from_bytes_boxed() {
    let deserialized: Boxed<Nothing> = from_bytes(&nothing_serialized_boxed(), &[]).unwrap();

    assert_eq!(deserialized.into_inner(), nothing());
}

#[test]
fn test_unit_struct_from_reader_boxed() {
    let deserialized: Boxed<Nothing> = from_reader(nothing_serialized_boxed().as_slice(), &[]).unwrap();

    assert_eq!(deserialized.into_inner(), nothing());
}

#[test]
fn test_unit_struct_size_prediction_boxed() {
    let predicted_len = Boxed::new(&nothing()).size_hint().unwrap();

    assert_eq!(predicted_len, nothing_serialized_boxed().len());
}

#[test]
fn test_enum_variant_to_bytes_boxed() {
    let vec = to_bytes(&Boxed::new(&cafebabe_bar())).unwrap();

    assert_eq!(vec, cafebabe_bar_serialized_boxed());
}

#[test]
fn test_enum_variant_to_writer_boxed() {
    let mut vec = Vec::new();
    to_writer(&mut vec, &Boxed::new(&cafebabe_bar())).unwrap();

    assert_eq!(vec, cafebabe_bar_serialized_boxed());
}

#[test]
fn test_enum_variant_from_bytes_boxed() {
    let deserialized: Boxed<Cafebabe<u32>> = from_bytes(&cafebabe_bar_serialized_boxed(), &["Bar"]).unwrap();

    assert_eq!(deserialized.into_inner(), cafebabe_bar());
}

#[test]
fn test_enum_variant_from_reader_boxed() {
    let deserialized: Boxed<Cafebabe<u32>> = from_reader(cafebabe_bar_serialized_boxed().as_slice(), &["Bar"]).unwrap();

    assert_eq!(deserialized.into_inner(), cafebabe_bar());
}

#[test]
fn test_enum_variant_size_prediction_boxed() {
    let predicted_len = Boxed::new(&cafebabe_bar()).size_hint().unwrap();

    assert_eq!(predicted_len, cafebabe_bar_serialized_boxed().len());
}

#[test]
fn test_enum_variant_to_bytes_boxed2() {
    let vec = to_bytes(&Boxed::new(&cafebabe_baz())).unwrap();

    assert_eq!(vec, cafebabe_baz_serialized_boxed());
}

#[test]
fn test_enum_variant_to_writer_boxed2() {
    let mut vec = Vec::new();
    to_writer(&mut vec, &Boxed::new(&cafebabe_baz())).unwrap();

    assert_eq!(vec, cafebabe_baz_serialized_boxed());
}

#[test]
fn test_enum_variant_from_bytes_boxed2() {
    let deserialized: Boxed<Cafebabe<Vec<bool>>> = from_bytes(&cafebabe_baz_serialized_boxed(), &["Baz"]).unwrap();

    assert_eq!(deserialized.into_inner(), cafebabe_baz());
}

#[test]
fn test_enum_variant_from_reader_boxed2() {
    let deserialized: Boxed<Cafebabe<Vec<bool>>> = from_reader(cafebabe_baz_serialized_boxed().as_slice(), &["Baz"]).unwrap();

    assert_eq!(deserialized.into_inner(), cafebabe_baz());
}

#[test]
fn test_enum_variant_size_prediction_boxed2() {
    let predicted_len = Boxed::new(&cafebabe_baz()).size_hint().unwrap();

    assert_eq!(predicted_len, cafebabe_baz_serialized_boxed().len());
}

#[test]
fn test_unit_enum_variant_to_bytes_boxed() {
    let vec = to_bytes(&Boxed::new(&cafebabe_blob())).unwrap();

    assert_eq!(vec, cafebabe_blob_serialized_boxed());
}

#[test]
fn test_unit_enum_variant_to_writer_boxed() {
    let mut vec = Vec::new();
    to_writer(&mut vec, &Boxed::new(&cafebabe_blob())).unwrap();

    assert_eq!(vec, cafebabe_blob_serialized_boxed());
}

#[test]
fn test_unit_enum_variant_from_bytes_boxed() {
    let deserialized: Boxed<Cafebabe<i16>> = from_bytes(&cafebabe_blob_serialized_boxed(), &["Blob"]).unwrap();

    assert_eq!(deserialized.into_inner(), cafebabe_blob());
}

#[test]
fn test_unit_enum_variant_from_reader_boxed() {
    let deserialized: Boxed<Cafebabe<i16>> = from_reader(cafebabe_blob_serialized_boxed().as_slice(), &["Blob"]).unwrap();

    assert_eq!(deserialized.into_inner(), cafebabe_blob());
}

#[test]
fn test_unit_enum_variant_size_prediction_boxed() {
    let predicted_len = Boxed::new(&cafebabe_blob()).size_hint().unwrap();

    assert_eq!(predicted_len, cafebabe_blob_serialized_boxed().len());
}

/// MTProto-serialized data must be aligned by 4 bytes.
#[test]
fn test_test_serialization_alignment() {
    assert!(foo_serialized_bare().len() % 4 == 0);
    assert!(foo_serialized_boxed().len() % 4 == 0);
    assert!(nothing_serialized_bare().len() % 4 == 0);
    assert!(nothing_serialized_boxed().len() % 4 == 0);
    assert!(cafebabe_bar_serialized_boxed().len() % 4 == 0);
    assert!(cafebabe_baz_serialized_boxed().len() % 4 == 0);
    assert!(cafebabe_blob_serialized_boxed().len() % 4 == 0);
}
