//! Writing a value and reading it back gives the value, and reading bytes
//! and writing the value back gives the bytes, on a struct that nests the
//! wrappers, an enum and a map.

use std::collections::BTreeMap;

use serde_mtproto::de::{Deserialize, Deserializer};
use serde_mtproto::error::{DeErrorKind, Error, Result};
use serde_mtproto::ser::{Serialize, Serializer};
use serde_mtproto::wrappers::next_seq_element;
use serde_mtproto::{
    from_bytes, from_bytes_reuse, to_bytes, Boxed, Double, Identifiable, MtProtoSized, WithSize,
};

#[derive(Clone, Debug, PartialEq)]
struct PhantomStruct;

impl MtProtoSized for PhantomStruct {
    fn size_hint(&self) -> Result<usize> {
        Ok(0)
    }
}

impl Identifiable for PhantomStruct {
    fn all_type_ids() -> &'static [u32] {
        &[0x02020202]
    }

    fn all_enum_variant_names() -> Option<&'static [&'static str]> {
        None
    }

    fn type_id(&self) -> u32 {
        0x02020202
    }

    fn enum_variant_id(&self) -> Option<&'static str> {
        None
    }
}

impl Serialize for PhantomStruct {
    fn serialize(&self, ser: &mut Serializer) -> Result<()> {
        ser.serialize_unit_struct("PhantomStruct")
    }
}

impl Deserialize for PhantomStruct {
    fn deserialize(de: &mut Deserializer) -> Result<Self> {
        de.deserialize_unit_struct("PhantomStruct")?;
        Ok(PhantomStruct)
    }
}

#[derive(Clone, Debug, PartialEq)]
struct SimpleStruct2((i8,), PhantomStruct, WithSize<(i64, u16)>);

impl MtProtoSized for SimpleStruct2 {
    fn size_hint(&self) -> Result<usize> {
        Ok(self.0.size_hint()? + self.1.size_hint()? + self.2.size_hint()?)
    }
}

impl Serialize for SimpleStruct2 {
    fn serialize(&self, ser: &mut Serializer) -> Result<()> {
        let mut s = ser.serialize_tuple_struct("SimpleStruct2", 3)?;
        s.serialize_element(&self.0)?;
        s.serialize_element(&self.1)?;
        s.serialize_element(&self.2)?;
        s.end()
    }
}

impl Deserialize for SimpleStruct2 {
    fn deserialize(de: &mut Deserializer) -> Result<Self> {
        let mut seq = de.deserialize_tuple_struct("SimpleStruct2", 3)?;
        let first: (i8,) = next_seq_element(&mut seq, 0, 3)?;
        let second: PhantomStruct = next_seq_element(&mut seq, 1, 3)?;
        let third: WithSize<(i64, u16)> = next_seq_element(&mut seq, 2, 3)?;
        Ok(SimpleStruct2(first, second, third))
    }
}

/// The entries of a map, in the order of its keys.
#[derive(Clone, Debug, PartialEq)]
struct Names(BTreeMap<i8, String>);

impl MtProtoSized for Names {
    fn size_hint(&self) -> Result<usize> {
        self.0.iter().collect::<Vec<_>>().size_hint()
    }
}

impl Serialize for Names {
    fn serialize(&self, ser: &mut Serializer) -> Result<()> {
        let mut map = ser.serialize_map(Some(self.0.len()))?;
        for (key, value) in &self.0 {
            map.serialize_key(key)?;
            map.serialize_value(value)?;
        }
        map.end()
    }
}

impl Deserialize for Names {
    fn deserialize(de: &mut Deserializer) -> Result<Self> {
        let mut map = de.deserialize_map()?;
        let mut entries = BTreeMap::new();
        while let Some(key) = map.next_key::<i8>()? {
            let value = map.next_value::<String>()?;
            entries.insert(key, value);
        }
        Ok(Names(entries))
    }
}

#[derive(Clone, Debug, PartialEq)]
enum SimpleEnum {
    Variant1,
    Variant2,
    Variant3 {
        variant3_field1: Vec<u8>,
        variant3_field2: Boxed<WithSize<u32>>,
    },
    Variant4(((u64, i32), f32, BTreeMap<i8, String>, f64)),
}

fn double_of_single(value: f32) -> Double {
    Double::from_bits(f64::from(value).to_bits())
}

fn double_of(value: f64) -> Double {
    Double::from_bits(value.to_bits())
}

impl MtProtoSized for SimpleEnum {
    fn size_hint(&self) -> Result<usize> {
        match self {
            SimpleEnum::Variant1 | SimpleEnum::Variant2 => Ok(0),
            SimpleEnum::Variant3 { variant3_field1, variant3_field2 } => {
                Ok(variant3_field1.size_hint()? + variant3_field2.size_hint()?)
            },
            SimpleEnum::Variant4((pair, single, names, double)) => Ok(pair.size_hint()?
                + double_of_single(*single).size_hint()?
                + Names(names.clone()).size_hint()?
                + double_of(*double).size_hint()?),
        }
    }
}

impl Identifiable for SimpleEnum {
    fn all_type_ids() -> &'static [u32] {
        &[0x2d893c40, 0x037cb665, 0xb5a92a28, 0x8d72c9e1]
    }

    fn all_enum_variant_names() -> Option<&'static [&'static str]> {
        Some(&["Variant1", "Variant2", "Variant3", "Variant4"])
    }

    fn type_id(&self) -> u32 {
        match self {
            SimpleEnum::Variant1 => 0x2d893c40,
            SimpleEnum::Variant2 => 0x037cb665,
            SimpleEnum::Variant3 { .. } => 0xb5a92a28,
            SimpleEnum::Variant4(..) => 0x8d72c9e1,
        }
    }

    fn enum_variant_id(&self) -> Option<&'static str> {
        let name = match self {
            SimpleEnum::Variant1 => "Variant1",
            SimpleEnum::Variant2 => "Variant2",
            SimpleEnum::Variant3 { .. } => "Variant3",
            SimpleEnum::Variant4(..) => "Variant4",
        };
        Some(name)
    }
}

impl Serialize for SimpleEnum {
    fn serialize(&self, ser: &mut Serializer) -> Result<()> {
        match self {
            SimpleEnum::Variant1 => ser.serialize_unit_variant("SimpleEnum", 0, "Variant1"),
            SimpleEnum::Variant2 => ser.serialize_unit_variant("SimpleEnum", 1, "Variant2"),
            SimpleEnum::Variant3 { variant3_field1, variant3_field2 } => {
                let mut s = ser.serialize_struct_variant("SimpleEnum", 2, "Variant3", 2)?;
                s.serialize_field("variant3_field1", variant3_field1)?;
                s.serialize_field("variant3_field2", variant3_field2)?;
                s.end()
            },
            SimpleEnum::Variant4((pair, single, names, double)) => {
                let inner =
                    (*pair, double_of_single(*single), Names(names.clone()), double_of(*double));
                ser.serialize_newtype_variant("SimpleEnum", 3, "Variant4", &inner)
            },
        }
    }
}

impl Deserialize for SimpleEnum {
    fn deserialize(de: &mut Deserializer) -> Result<Self> {
        let mut access = de.deserialize_enum(
            "SimpleEnum",
            &["Variant1", "Variant2", "Variant3", "Variant4"],
        )?;
        match access.variant()? {
            "Variant1" => {
                access.unit_variant()?;
                Ok(SimpleEnum::Variant1)
            },
            "Variant2" => {
                access.unit_variant()?;
                Ok(SimpleEnum::Variant2)
            },
            "Variant3" => {
                let mut seq = access.struct_variant(&["variant3_field1", "variant3_field2"])?;
                let variant3_field1: Vec<u8> = next_seq_element(&mut seq, 0, 2)?;
                let variant3_field2: Boxed<WithSize<u32>> = next_seq_element(&mut seq, 1, 2)?;
                Ok(SimpleEnum::Variant3 { variant3_field1, variant3_field2 })
            },
            "Variant4" => {
                let (pair, single, names, double): ((u64, i32), Double, Names, Double) =
                    access.newtype_variant()?;
                Ok(SimpleEnum::Variant4((
                    pair,
                    f64::from_bits(single.to_bits()) as f32,
                    names.0,
                    f64::from_bits(double.to_bits()),
                )))
            },
            other => Err(Error::De(DeErrorKind::Msg(format!("unknown variant `{}`", other)))),
        }
    }
}

#[derive(Clone, Debug, PartialEq)]
struct SimpleStruct {
    field1: bool,
    field2: PhantomStruct,
    field3: String,
    field4: Boxed<SimpleEnum>,
    field5: SimpleStruct2,
    field6: i16,
}

impl MtProtoSized for SimpleStruct {
    fn size_hint(&self) -> Result<usize> {
        Ok(self.field1.size_hint()?
            + self.field2.size_hint()?
            + self.field3.size_hint()?
            + self.field4.size_hint()?
            + self.field5.size_hint()?
            + self.field6.size_hint()?)
    }
}

impl Serialize for SimpleStruct {
    fn serialize(&self, ser: &mut Serializer) -> Result<()> {
        let mut s = ser.serialize_struct("SimpleStruct", 6)?;
        s.serialize_field("field1", &self.field1)?;
        s.serialize_field("field2", &self.field2)?;
        s.serialize_field("field3", &self.field3)?;
        s.serialize_field("field4", &self.field4)?;
        s.serialize_field("field5", &self.field5)?;
        s.serialize_field("field6", &self.field6)?;
        s.end()
    }
}

impl Deserialize for SimpleStruct {
    fn deserialize(de: &mut Deserializer) -> Result<Self> {
        let mut seq = de.deserialize_struct(
            "SimpleStruct",
            &["field1", "field2", "field3", "field4", "field5", "field6"],
        )?;
        let field1: bool = next_seq_element(&mut seq, 0, 6)?;
        let field2: PhantomStruct = next_seq_element(&mut seq, 1, 6)?;
        let field3: String = next_seq_element(&mut seq, 2, 6)?;
        let field4: Boxed<SimpleEnum> = next_seq_element(&mut seq, 3, 6)?;
        let field5: SimpleStruct2 = next_seq_element(&mut seq, 4, 6)?;
        let field6: i16 = next_seq_element(&mut seq, 5, 6)?;
        Ok(SimpleStruct { field1, field2, field3, field4, field5, field6 })
    }
}

fn simple_struct(field4: SimpleEnum, field3: &str, field6: i16) -> SimpleStruct {
    SimpleStruct {
        field1: field6 % 2 == 0,
        field2: PhantomStruct,
        field3: field3.to_owned(),
        field4: Boxed::new(field4),
        field5: SimpleStruct2((-7,), PhantomStruct, WithSize::new((i64::MIN, 513)).unwrap()),
        field6,
    }
}

fn samples() -> Vec<SimpleStruct> {
    let mut names = BTreeMap::new();
    names.insert(-1, "minus one".to_owned());
    names.insert(3, String::new());
    vec![
        simple_struct(SimpleEnum::Variant1, "", 0),
        simple_struct(SimpleEnum::Variant2, "two", -1),
        simple_struct(
            SimpleEnum::Variant3 {
                variant3_field1: vec![1, 2, 3],
                variant3_field2: Boxed::new(WithSize::new(99).unwrap()),
            },
            &"long ".repeat(80),
            i16::MAX,
        ),
        simple_struct(
            SimpleEnum::Variant4(((u64::MAX, -5), 0.5, names, -1.25e300)),
            "four",
            i16::MIN,
        ),
        simple_struct(SimpleEnum::Variant4(((0, 0), -0.0, BTreeMap::new(), 0.0)), "é", 12),
    ]
}

#[test]
fn ser_de_reversible() {
    for data in samples() {
        let enum_variant_id = data.field4.inner().enum_variant_id().unwrap();

        let ser = to_bytes(&data).unwrap();
        let de = from_bytes::<SimpleStruct>(&ser, &[enum_variant_id]).unwrap();

        assert_eq!(de, data);
        assert_eq!(ser.len() % 4, 0);
        assert_eq!(data.size_hint().unwrap(), ser.len());
    }
}

#[test]
fn de_ser_reversible() {
    for data in samples() {
        let enum_variant_id = data.field4.inner().enum_variant_id().unwrap();
        let mut byte_buf = to_bytes(&data).unwrap();
        byte_buf.extend_from_slice(&[0xff; 7]);

        let (de, unused) =
            from_bytes_reuse::<SimpleStruct>(&byte_buf, &[enum_variant_id]).unwrap();
        let ser = to_bytes(&de).unwrap();

        assert_eq!(unused, &[0xff; 7]);
        assert_eq!(ser, &byte_buf[..byte_buf.len() - 7]);
    }
}

#[test]
fn de_without_hint_is_refused() {
    for data in samples() {
        let ser = to_bytes(&data).unwrap();

        assert_eq!(
            from_bytes::<SimpleStruct>(&ser, &[]),
            Err(Error::De(DeErrorKind::NoEnumVariantId))
        );
    }
}
