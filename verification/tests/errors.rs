//! Each way in which writing, reading and predicting a size goes wrong,
//! and what the errors say.

use serde_mtproto::boxed::BoxedWithLength;
use serde_mtproto::de::{Deserialize, Deserializer};
use serde_mtproto::error::{
    DeErrorKind, DeSerdeType, Error, IoErrorKind, Result, SerErrorKind, SerSerdeType,
};
use serde_mtproto::ser::{Serialize, Serializer};
use serde_mtproto::utils::{check_seq_len, safe_uint_cast_u32, safe_uint_eq};
use serde_mtproto::wrappers::{check_type_id, next_seq_element, next_struct_element};
use serde_mtproto::{
    from_bytes, size_hint_from_byte_seq_len, to_bytes, Boxed, ByteBuf, Identifiable, MtProtoSized,
};

#[derive(Debug, PartialEq)]
enum Switch {
    Off,
    On(u32),
}

impl MtProtoSized for Switch {
    fn size_hint(&self) -> Result<usize> {
        match self {
            Switch::Off => Ok(0),
            Switch::On(level) => level.size_hint(),
        }
    }
}

impl Identifiable for Switch {
    fn all_type_ids() -> &'static [u32] {
        &[0x0ff0_0000, 0x0110_0000]
    }

    fn all_enum_variant_names() -> Option<&'static [&'static str]> {
        Some(&["Off", "On"])
    }

    fn type_id(&self) -> u32 {
        match self {
            Switch::Off => 0x0ff0_0000,
            Switch::On(_) => 0x0110_0000,
        }
    }

    fn enum_variant_id(&self) -> Option<&'static str> {
        match self {
            Switch::Off => Some("Off"),
            Switch::On(_) => Some("On"),
        }
    }
}

impl Serialize for Switch {
    fn serialize(&self, ser: &mut Serializer) -> Result<()> {
        match self {
            Switch::Off => ser.serialize_unit_variant("Switch", 0, "Off"),
            Switch::On(level) => ser.serialize_newtype_variant("Switch", 1, "On", level),
        }
    }
}

impl Deserialize for Switch {
    fn deserialize(de: &mut Deserializer) -> Result<Self> {
        let mut access = de.deserialize_enum("Switch", &["Off", "On"])?;
        match access.variant()? {
            "Off" => {
                access.unit_variant()?;
                Ok(Switch::Off)
            },
            "On" => Ok(Switch::On(access.newtype_variant()?)),
            other => Err(Error::De(DeErrorKind::Msg(format!("unknown variant `{}`", other)))),
        }
    }
}

/// A value that claims a size which 32 bits barely hold.
struct Huge;

impl MtProtoSized for Huge {
    fn size_hint(&self) -> Result<usize> {
        Ok(u32::MAX as usize)
    }
}

/// A value that claims a size which 32 bits do not hold.
#[derive(Debug, PartialEq)]
struct Oversized;

impl MtProtoSized for Oversized {
    fn size_hint(&self) -> Result<usize> {
        Ok(u32::MAX as usize + 1)
    }
}

impl Serialize for Oversized {
    fn serialize(&self, ser: &mut Serializer) -> Result<()> {
        ser.serialize_unit_struct("Oversized")
    }
}

#[test]
fn size_that_32_bits_cannot_hold_is_not_written() {
    let sized = serde_mtproto::WithSize::new(Oversized).unwrap();
    assert_eq!(to_bytes(&sized), Err(Error::UnsignedIntegerCast(u32::MAX as u128 + 1)));
}

#[test]
fn value_without_a_size_is_not_wrapped_with_its_length() {
    let long = "x".repeat(0x100_0000);
    assert_eq!(
        BoxedWithLength::new(long).map(|boxed| boxed.into_inner()),
        Err(Error::StringTooLong(0x100_0000))
    );
    let short = BoxedWithLength::new("x".to_owned()).unwrap();
    assert_eq!(short.inner(), "x");
    assert_eq!(short.size_hint(), Ok(12));
}

#[test]
fn enum_is_read_by_its_hint() {
    let bytes = to_bytes(&Boxed::new(Switch::On(9))).unwrap();
    assert_eq!(bytes, vec![0, 0, 0x10, 0x01, 9, 0, 0, 0]);
    assert_eq!(
        from_bytes::<Boxed<Switch>>(&bytes, &["On"]).unwrap().into_inner(),
        Switch::On(9)
    );
    assert_eq!(Switch::On(9).enum_variant_id(), Some("On"));
}

#[test]
fn missing_hint_is_refused() {
    let bytes = to_bytes(&Switch::On(9)).unwrap();
    assert_eq!(
        from_bytes::<Switch>(&bytes, &[]),
        Err(Error::De(DeErrorKind::NoEnumVariantId))
    );
}

#[test]
fn hint_of_another_variant_than_the_id_is_refused() {
    let bytes = to_bytes(&Boxed::new(Switch::On(9))).unwrap();
    assert_eq!(
        from_bytes::<Boxed<Switch>>(&bytes, &["Off"]),
        Err(Error::De(DeErrorKind::TypeIdMismatch(0x0110_0000, 0x0ff0_0000)))
    );
    let sized = to_bytes(&BoxedWithLength::new(Switch::On(9)).unwrap()).unwrap();
    assert_eq!(sized, vec![0, 0, 0x10, 0x01, 4, 0, 0, 0, 9, 0, 0, 0]);
    assert_eq!(
        from_bytes::<BoxedWithLength<Switch>>(&sized, &["Off"]),
        Err(Error::De(DeErrorKind::TypeIdMismatch(0x0110_0000, 0x0ff0_0000)))
    );
    assert_eq!(
        from_bytes::<BoxedWithLength<Switch>>(&sized, &["On"]).unwrap().into_inner(),
        Switch::On(9)
    );
}

#[test]
fn wrong_size_in_an_envelope_is_refused() {
    let mut sized = to_bytes(&BoxedWithLength::new(Switch::On(9)).unwrap()).unwrap();
    sized[4] = 12;
    assert_eq!(
        from_bytes::<BoxedWithLength<Switch>>(&sized, &["On"]),
        Err(Error::De(DeErrorKind::SizeMismatch(12, 4)))
    );
    sized[0] = 1;
    assert_eq!(
        from_bytes::<BoxedWithLength<Switch>>(&sized, &["On"]),
        Err(Error::De(DeErrorKind::InvalidTypeId(0x0110_0001, &[0x0ff0_0000, 0x0110_0000])))
    );
}

#[test]
fn type_id_is_checked_against_the_ids_of_the_type() {
    assert_eq!(check_type_id::<Switch>(0x0110_0000), Ok(()));
    assert_eq!(check_type_id::<bool>(0x997275b5), Ok(()));
    assert_eq!(check_type_id::<bool>(0xbc799737), Ok(()));
    assert_eq!(
        check_type_id::<bool>(7),
        Err(Error::De(DeErrorKind::InvalidTypeId(7, &[0xbc799737, 0x997275b5])))
    );
}

#[test]
fn serializer_refuses_what_the_wire_cannot_hold() {
    let mut ser = Serializer::new(Vec::new());
    assert_eq!(
        ser.serialize_char('a'),
        Err(Error::Ser(SerErrorKind::UnsupportedSerdeType(SerSerdeType::Char)))
    );
    assert_eq!(
        ser.serialize_none(),
        Err(Error::Ser(SerErrorKind::UnsupportedSerdeType(SerSerdeType::NoneValue)))
    );
    assert_eq!(
        ser.serialize_some(&1u32),
        Err(Error::Ser(SerErrorKind::UnsupportedSerdeType(SerSerdeType::SomeValue)))
    );
    assert_eq!(
        ser.serialize_unit(),
        Err(Error::Ser(SerErrorKind::UnsupportedSerdeType(SerSerdeType::Unit)))
    );
    assert_eq!(
        to_bytes(&()),
        Err(Error::Ser(SerErrorKind::UnsupportedSerdeType(SerSerdeType::Unit)))
    );
    assert!(matches!(
        ser.serialize_seq(None),
        Err(Error::Ser(SerErrorKind::SeqsWithUnknownLengthUnsupported))
    ));
    assert!(matches!(
        ser.serialize_map(None),
        Err(Error::Ser(SerErrorKind::MapsWithUnknownLengthUnsupported))
    ));
    assert_eq!(ser.serialize_unit_struct("Nothing"), Ok(()));
    assert_eq!(ser.serialize_unit_variant("Switch", 0, "Off"), Ok(()));
    assert_eq!(ser.into_writer(), Vec::<u8>::new());
}

#[test]
fn serializer_counts_the_elements() {
    let mut ser = Serializer::new(vec![0xaa]);
    {
        let mut seq = ser.serialize_seq(Some(1)).unwrap();
        assert_eq!(seq.serialize_element(&1u32), Ok(()));
        assert_eq!(
            seq.serialize_element(&2u32),
            Err(Error::Ser(SerErrorKind::ExcessElements(1)))
        );
        assert_eq!(seq.end(), Ok(()));
    }
    {
        let mut tuple = ser.serialize_tuple(3).unwrap();
        assert_eq!(tuple.serialize_element(&true), Ok(()));
        assert_eq!(
            tuple.end(),
            Err(Error::Ser(SerErrorKind::NotEnoughElements(1, 3)))
        );
    }
    {
        let mut map = ser.serialize_map(Some(1)).unwrap();
        assert_eq!(map.serialize_key(&"k"), Ok(()));
        assert_eq!(map.serialize_value(&7u32), Ok(()));
        assert_eq!(
            map.serialize_key(&"l"),
            Err(Error::Ser(SerErrorKind::ExcessElements(1)))
        );
        assert_eq!(map.end(), Ok(()));
    }
    assert_eq!(
        ser.into_writer(),
        vec![
            0xaa, 1, 0, 0, 0, 1, 0, 0, 0, 0xb5, 0x75, 0x72, 0x99, 1, 0, 0, 0, 1, 107, 0, 0, 7,
            0, 0, 0
        ]
    );
}

#[test]
fn too_long_strings_are_refused() {
    let data = vec![0u8; 0x100_0000];
    assert_eq!(
        to_bytes(&ByteBuf::from(data.clone())),
        Err(Error::Ser(SerErrorKind::StringTooLong(0x100_0000)))
    );
    assert_eq!(ByteBuf::from(data).size_hint(), Err(Error::StringTooLong(0x100_0000)));
    assert_eq!(size_hint_from_byte_seq_len(0x100_0000), Err(Error::StringTooLong(0x100_0000)));
    assert_eq!(size_hint_from_byte_seq_len(0xff_ffff), Ok(0x100_0004));
    assert_eq!(size_hint_from_byte_seq_len(0), Ok(4));
    assert_eq!(size_hint_from_byte_seq_len(3), Ok(4));
    assert_eq!(size_hint_from_byte_seq_len(4), Ok(8));
    assert_eq!(size_hint_from_byte_seq_len(253), Ok(256));
    assert_eq!(size_hint_from_byte_seq_len(254), Ok(260));
}

#[test]
fn sizes_that_32_bits_cannot_hold_are_refused() {
    assert_eq!(Huge.size_hint(), Ok(u32::MAX as usize));
    assert_eq!(
        (Huge, 1u32).size_hint(),
        Err(Error::SeqTooLong(u32::MAX as usize + 4))
    );
    assert_eq!(
        vec![Huge].size_hint(),
        Err(Error::SeqTooLong(u32::MAX as usize + 4))
    );
    assert_eq!(
        [Huge, Huge].size_hint(),
        Err(Error::SeqTooLong(2 * (u32::MAX as usize)))
    );
    assert_eq!(
        Boxed::new(1u32).size_hint(),
        Ok(8)
    );
    assert_eq!(check_seq_len(u32::MAX as usize), Ok(()));
    assert_eq!(
        check_seq_len(u32::MAX as usize + 1),
        Err(Error::SeqTooLong(u32::MAX as usize + 1))
    );
    assert_eq!(safe_uint_cast_u32(u32::MAX as usize), Ok(u32::MAX));
    assert_eq!(
        safe_uint_cast_u32(u32::MAX as usize + 1),
        Err(Error::UnsignedIntegerCast(u32::MAX as u128 + 1))
    );
    assert!(safe_uint_eq(7, 7));
    assert!(!safe_uint_eq(7, 8));
    assert!(!safe_uint_eq(0, u32::MAX as usize + 1));
}

#[test]
fn deserializer_refuses_what_the_wire_does_not_hold() {
    let mut de = Deserializer::new(&[1, 2, 3, 4], &[]);
    assert_eq!(
        de.deserialize_any(),
        Err(Error::De(DeErrorKind::UnsupportedSerdeType(DeSerdeType::Any)))
    );
    assert_eq!(
        de.deserialize_char(),
        Err(Error::De(DeErrorKind::UnsupportedSerdeType(DeSerdeType::Char)))
    );
    assert_eq!(
        de.deserialize_option(),
        Err(Error::De(DeErrorKind::UnsupportedSerdeType(DeSerdeType::Option)))
    );
    assert_eq!(
        de.deserialize_unit(),
        Err(Error::De(DeErrorKind::UnsupportedSerdeType(DeSerdeType::Unit)))
    );
    assert_eq!(
        de.deserialize_ignored_any(),
        Err(Error::De(DeErrorKind::UnsupportedSerdeType(DeSerdeType::IgnoredAny)))
    );
    assert_eq!(de.deserialize_unit_struct("Nothing"), Ok(()));
    assert_eq!(de.remaining_length(), 4);
    assert_eq!(de.remaining_bytes(), Ok(vec![1, 2, 3, 4]));
}

#[test]
fn deserializer_counts_the_elements() {
    let bytes = [2, 0, 0, 0, 5, 0, 0, 0, 6, 0, 0, 0, 7, 0, 0, 0];
    let mut de = Deserializer::new(&bytes, &[]);
    {
        let mut seq = de.deserialize_seq().unwrap();
        assert_eq!(seq.size_hint(), Some(2));
        assert_eq!(seq.next_element::<u32>(), Ok(Some(5)));
        assert_eq!(seq.next_element::<u32>(), Ok(Some(6)));
        assert_eq!(seq.size_hint(), Some(0));
        assert_eq!(seq.next_element::<u32>(), Ok(None));
        assert_eq!(
            next_seq_element::<u32>(&mut seq, 2, 3),
            Err(Error::De(DeErrorKind::NotEnoughElements(2, 3)))
        );
    }
    assert_eq!(de.remaining_length(), 4);
    assert_eq!(de.deserialize_u32(), Ok(7));
    assert_eq!(de.deserialize_u32(), Err(Error::Io(IoErrorKind::UnexpectedEof)));
}

#[test]
fn struct_written_as_a_map_is_read_by_its_keys() {
    let mut ser = Serializer::new(Vec::new());
    {
        let mut map = ser.serialize_map(Some(2)).unwrap();
        map.serialize_key(&"id").unwrap();
        map.serialize_value(&7u32).unwrap();
        map.serialize_key(&"in\"ner").unwrap();
        map.serialize_value(&true).unwrap();
        map.end().unwrap();
    }
    let bytes = ser.into_writer();
    let mut de = Deserializer::new(&bytes, &[]);
    let mut map = de.deserialize_map().unwrap();
    assert_eq!(map.size_hint(), Some(2));
    assert_eq!(next_struct_element::<u32>(&mut map, "id", 0, 2), Ok(7));
    let wrong = next_struct_element::<bool>(&mut map, "inner", 1, 2);
    assert_eq!(
        wrong,
        Err(Error::De(DeErrorKind::InvalidMapKey("in\"ner".to_owned(), "inner")))
    );
    assert_eq!(
        wrong.unwrap_err().to_string(),
        "deserialization error in serde_mtproto: invalid map key \"in\\\"ner\", expected \"inner\""
    );
    assert_eq!(
        next_struct_element::<bool>(&mut map, "inner", 2, 2),
        Err(Error::De(DeErrorKind::NotEnoughElements(2, 2)))
    );
}

#[test]
fn errors_say_what_went_wrong() {
    assert_eq!(Error::Msg("plain".to_owned()).to_string(), "plain");
    assert_eq!(Error::Io(IoErrorKind::UnexpectedEof).to_string(), "failed to fill whole buffer");
    assert_eq!(
        Error::SignedIntegerCast(-129).to_string(),
        "error while casting a signed integer: -129"
    );
    assert_eq!(
        Error::SignedIntegerCast(i128::MIN).to_string(),
        "error while casting a signed integer: -170141183460469231731687303715884105728"
    );
    assert_eq!(
        Error::UnsignedIntegerCast(u128::MAX).to_string(),
        "error while casting an unsigned integer: 340282366920938463463374607431768211455"
    );
    assert_eq!(
        Error::UnsignedIntegerCast(0).to_string(),
        "error while casting an unsigned integer: 0"
    );
    assert_eq!(
        Error::StringTooLong(16777216).to_string(),
        "string of length 16777216 is too long to serialize"
    );
    assert_eq!(
        Error::ByteSeqTooLong(10).to_string(),
        "byte sequence of length 10 is too long to serialize"
    );
    assert_eq!(
        Error::SeqTooLong(4294967296).to_string(),
        "sequence of length 4294967296 is too long to serialize"
    );
    assert_eq!(
        Error::Ser(SerErrorKind::Msg("text".to_owned())).to_string(),
        "serialization error in serde_mtproto: custom string: text"
    );
    assert_eq!(
        SerErrorKind::ExcessElements(2).to_string(),
        "excess elements, need no more than 2"
    );
    assert_eq!(
        SerErrorKind::MapsWithUnknownLengthUnsupported.to_string(),
        "maps with ahead-of-time unknown length are not supported"
    );
    assert_eq!(
        SerErrorKind::NotEnoughElements(1, 3).to_string(),
        "not enough elements: have 1, need 3"
    );
    assert_eq!(
        SerErrorKind::SeqsWithUnknownLengthUnsupported.to_string(),
        "seqs with ahead-of-time unknown length are not supported"
    );
    assert_eq!(
        SerErrorKind::StringTooLong(99).to_string(),
        "string of length 99 is too long to serialize"
    );
    assert_eq!(
        SerErrorKind::UnsupportedSerdeType(SerSerdeType::Char).to_string(),
        "char type is not supported for serialization"
    );
    assert_eq!(SerSerdeType::NoneValue.to_string(), "none");
    assert_eq!(SerSerdeType::SomeValue.to_string(), "some");
    assert_eq!(SerSerdeType::Unit.to_string(), "unit");
    assert_eq!(
        DeErrorKind::Msg("text".to_owned()).to_string(),
        "custom string: text"
    );
    assert_eq!(
        DeErrorKind::BytesLenPrefix254LessThan254(253).to_string(),
        "byte sequence has the 0xfe prefix with length less than 254 253"
    );
    assert_eq!(
        DeErrorKind::NonZeroBytesPadding.to_string(),
        "byte sequence has a padding with a non-zero byte"
    );
    assert_eq!(
        DeErrorKind::UnsupportedSerdeType(DeSerdeType::IgnoredAny).to_string(),
        "ignored_any type is not supported for deserialization"
    );
    assert_eq!(DeSerdeType::Any.to_string(), "any");
    assert_eq!(DeSerdeType::Char.to_string(), "char");
    assert_eq!(DeSerdeType::Option.to_string(), "option");
    assert_eq!(DeSerdeType::Unit.to_string(), "unit");
    assert_eq!(
        DeErrorKind::NotEnoughElements(0, 2).to_string(),
        "not enough elements: have 0, need 2"
    );
    assert_eq!(
        DeErrorKind::InvalidTypeId(7, &[3162085175, 2574415285]).to_string(),
        "invalid type id 7, expected [3162085175, 2574415285]"
    );
    assert_eq!(
        DeErrorKind::InvalidTypeId(7, &[]).to_string(),
        "invalid type id 7, expected []"
    );
    assert_eq!(
        DeErrorKind::InvalidTypeId(7, &[10]).to_string(),
        "invalid type id 7, expected [10]"
    );
    assert_eq!(
        DeErrorKind::TypeIdMismatch(1, 20).to_string(),
        "type id mismatch: deserialized 1, but 20 found from value"
    );
    assert_eq!(
        DeErrorKind::NoEnumVariantId.to_string(),
        "no enum variant id found in deserializer"
    );
    assert_eq!(
        DeErrorKind::SizeMismatch(8, 4).to_string(),
        "size mismatch: deserialized 8, predicted 4"
    );
    assert_eq!(
        Error::De(DeErrorKind::InvalidBoolId(1)).to_string(),
        "deserialization error in serde_mtproto: invalid value: integer `1`, expected either 3162085175 for false or 2574415285 for true"
    );
    assert_eq!(
        DeErrorKind::InvalidBytesLenPrefix.to_string(),
        "invalid value: integer `255`, expected a byte in [0..254] range"
    );
    assert_eq!(
        Error::UnalignedByteSeq(5).to_string(),
        "byte sequence of length 5 is not a whole number of 32-bit words"
    );
    assert_eq!(Error::FromUtf8.to_string(), "invalid utf-8 sequence");
    assert_eq!(
        Error::FloatCast(1.5f64.to_bits()).to_string(),
        "error while casting a floating-point number with the bits 4609434218613702656"
    );
}
