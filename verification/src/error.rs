//! When serializing or deserializing MTProto goes wrong.

use crate::text;
use crate::text::{
    decimal_list, joined, quoted, signed_decimal, with_number, with_two_numbers,
};
use vstd::prelude::*;
use vstd::string::StringExecFns;

verus! {

/// Why reading from a byte source failed.
#[derive(Clone, Copy, Debug, PartialEq, Eq, Hash)]
pub enum IoErrorKind {
    /// The source ended before the bytes that were asked for.
    UnexpectedEof,
}

/// Serde serialization data types that this format does not support.
#[derive(Clone, Copy, Debug, PartialEq, Eq, Hash, PartialOrd, Ord)]
pub enum SerSerdeType {
    /// Single character type.
    Char,
    /// None value of Option type.
    NoneValue,
    /// Some value of Option type.
    SomeValue,
    /// Unit `()` type.
    Unit,
}

/// Serde deserialization data types that this format does not support.
#[derive(Clone, Copy, Debug, PartialEq, Eq, Hash, PartialOrd, Ord)]
pub enum DeSerdeType {
    /// The `*_any` hint.
    Any,
    /// Single character type.
    Char,
    /// Option type.
    Option,
    /// Unit `()` type.
    Unit,
    /// The `*_ignored_any` hint.
    IgnoredAny,
}

/// Serialization error kinds.
#[derive(Clone, Debug, PartialEq, Eq, Hash, PartialOrd, Ord)]
pub enum SerErrorKind {
    /// A convenient variant for String.
    Msg(String),
    /// Excess elements found, stores the needed count.
    ExcessElements(u32),
    /// Cannot serialize maps with unknown length.
    MapsWithUnknownLengthUnsupported,
    /// Not enough elements, stores the actual and needed count.
    NotEnoughElements(u32, u32),
    /// Cannot serialize sequences with unknown length.
    SeqsWithUnknownLengthUnsupported,
    /// A string that cannot be serialized because it exceeds a certain length limit.
    StringTooLong(usize),
    /// A type of the Serde data model that this format does not support.
    UnsupportedSerdeType(SerSerdeType),
}

/// Deserialization error kinds.
#[derive(Clone, Debug, PartialEq, Eq, Hash, PartialOrd, Ord)]
pub enum DeErrorKind {
    /// A convenient variant for String.
    Msg(String),
    /// Bytes sequence with the 0xfe prefix, but with length less than 254.
    BytesLenPrefix254LessThan254(u32),
    /// Padding for a bytes sequence that has at least one non-zero byte.
    NonZeroBytesPadding,
    /// A type of the Serde data model that this format does not support.
    UnsupportedSerdeType(DeSerdeType),
    /// Not enough elements, stores the already deserialized and expected count.
    NotEnoughElements(u32, u32),
    /// A wrong map key found while deserializing.
    InvalidMapKey(String, &'static str),
    /// A wrong type id found while deserializing.
    InvalidTypeId(u32, &'static [u32]),
    /// The deserialized type id and the one known from value aren't the same.
    TypeIdMismatch(u32, u32),
    /// No enum variant id found in the deserializer to continue deserialization.
    NoEnumVariantId,
    /// The deserialized size and the predicted one aren't the same.
    SizeMismatch(u32, u32),
    /// A 32-bit value where a bool stands that is the id of neither true
    /// nor false.
    InvalidBoolId(u32),
    /// The byte 255 where the length prefix of a byte sequence begins.
    InvalidBytesLenPrefix,
}

/// Everything that can go wrong in this crate.
#[derive(Clone, Debug, PartialEq, Eq)]
pub enum Error {
    /// A convenient variant for String.
    Msg(String),
    /// Reading from the byte source failed.
    Io(IoErrorKind),
    /// The bytes of a string are not well-formed UTF-8.
    FromUtf8,
    /// An error during serialization.
    Ser(SerErrorKind),
    /// An error during deserialization.
    De(DeErrorKind),
    /// Error while casting a signed integer.
    SignedIntegerCast(i128),
    /// Error while casting an unsigned integer.
    UnsignedIntegerCast(u128),
    /// Error while casting a floating-point number, held by the bits of
    /// the double.
    FloatCast(u64),
    /// A string that cannot be serialized because it exceeds a certain length limit.
    StringTooLong(usize),
    /// A byte sequence that cannot be serialized because it exceeds a certain length limit.
    ByteSeqTooLong(usize),
    /// A sequence that cannot be serialized because it exceeds a certain length limit.
    SeqTooLong(usize),
    /// A byte sequence that is written without its length and cannot be
    /// serialized because its length is no multiple of four.
    UnalignedByteSeq(usize),
}

impl IoErrorKind {
    /// What went wrong, in words.
    pub open spec fn spec_message(&self) -> Seq<char> {
        match self {
            IoErrorKind::UnexpectedEof => "failed to fill whole buffer"@,
        }
    }

    /// What went wrong, in words.
    pub fn to_string(&self) -> (s: String)
        ensures
            s@ == self.spec_message(),
    {
        match self {
            IoErrorKind::UnexpectedEof => String::from_str("failed to fill whole buffer"),
        }
    }
}

impl SerSerdeType {
    /// The name of the type.
    pub open spec fn spec_message(&self) -> Seq<char> {
        match self {
            SerSerdeType::Char => "char"@,
            SerSerdeType::NoneValue => "none"@,
            SerSerdeType::SomeValue => "some"@,
            SerSerdeType::Unit => "unit"@,
        }
    }

    /// The name of the type.
    pub fn to_string(&self) -> (s: String)
        ensures
            s@ == self.spec_message(),
    {
        match self {
            SerSerdeType::Char => String::from_str("char"),
            SerSerdeType::NoneValue => String::from_str("none"),
            SerSerdeType::SomeValue => String::from_str("some"),
            SerSerdeType::Unit => String::from_str("unit"),
        }
    }
}

impl DeSerdeType {
    /// The name of the type.
    pub open spec fn spec_message(&self) -> Seq<char> {
        match self {
            DeSerdeType::Any => "any"@,
            DeSerdeType::Char => "char"@,
            DeSerdeType::Option => "option"@,
            DeSerdeType::Unit => "unit"@,
            DeSerdeType::IgnoredAny => "ignored_any"@,
        }
    }

    /// The name of the type.
    pub fn to_string(&self) -> (s: String)
        ensures
            s@ == self.spec_message(),
    {
        match self {
            DeSerdeType::Any => String::from_str("any"),
            DeSerdeType::Char => String::from_str("char"),
            DeSerdeType::Option => String::from_str("option"),
            DeSerdeType::Unit => String::from_str("unit"),
            DeSerdeType::IgnoredAny => String::from_str("ignored_any"),
        }
    }
}

impl SerErrorKind {
    /// What went wrong, in words.
    pub open spec fn spec_message(&self) -> Seq<char> {
        match self {
            SerErrorKind::Msg(string) => "custom string: "@ + string@,
            SerErrorKind::ExcessElements(len) => text::spec_with_number(
                "excess elements, need no more than "@,
                *len as nat,
                ""@,
            ),
            SerErrorKind::MapsWithUnknownLengthUnsupported => {
                "maps with ahead-of-time unknown length are not supported"@
            },
            SerErrorKind::NotEnoughElements(unexpected_len, expected_len) => {
                text::spec_with_two_numbers(
                    "not enough elements: have "@,
                    *unexpected_len as nat,
                    ", need "@,
                    *expected_len as nat,
                    ""@,
                )
            },
            SerErrorKind::SeqsWithUnknownLengthUnsupported => {
                "seqs with ahead-of-time unknown length are not supported"@
            },
            SerErrorKind::StringTooLong(len) => text::spec_with_number(
                "string of length "@,
                *len as nat,
                " is too long to serialize"@,
            ),
            SerErrorKind::UnsupportedSerdeType(type_) => {
                type_.spec_message() + " type is not supported for serialization"@
            },
        }
    }

    /// What went wrong, in words.
    pub fn to_string(&self) -> (s: String)
        ensures
            s@ == self.spec_message(),
    {
        match self {
            SerErrorKind::Msg(string) => joined("custom string: ", string.as_str()),
            SerErrorKind::ExcessElements(len) => with_number(
                "excess elements, need no more than ",
                *len as u128,
                "",
            ),
            SerErrorKind::MapsWithUnknownLengthUnsupported => String::from_str(
                "maps with ahead-of-time unknown length are not supported",
            ),
            SerErrorKind::NotEnoughElements(unexpected_len, expected_len) => with_two_numbers(
                "not enough elements: have ",
                *unexpected_len as u128,
                ", need ",
                *expected_len as u128,
                "",
            ),
            SerErrorKind::SeqsWithUnknownLengthUnsupported => String::from_str(
                "seqs with ahead-of-time unknown length are not supported",
            ),
            SerErrorKind::StringTooLong(len) => with_number(
                "string of length ",
                *len as u128,
                " is too long to serialize",
            ),
            SerErrorKind::UnsupportedSerdeType(type_) => joined(
                type_.to_string().as_str(),
                " type is not supported for serialization",
            ),
        }
    }
}

impl DeErrorKind {
    /// What went wrong, in words.
    pub open spec fn spec_message(&self) -> Seq<char> {
        match self {
            DeErrorKind::Msg(string) => "custom string: "@ + string@,
            DeErrorKind::BytesLenPrefix254LessThan254(len) => text::spec_with_number(
                "byte sequence has the 0xfe prefix with length less than 254 "@,
                *len as nat,
                ""@,
            ),
            DeErrorKind::NonZeroBytesPadding => "byte sequence has a padding with a non-zero byte"@,
            DeErrorKind::UnsupportedSerdeType(type_) => {
                type_.spec_message() + " type is not supported for deserialization"@
            },
            DeErrorKind::NotEnoughElements(deserialized_count, expected_count) => {
                text::spec_with_two_numbers(
                    "not enough elements: have "@,
                    *deserialized_count as nat,
                    ", need "@,
                    *expected_count as nat,
                    ""@,
                )
            },
            DeErrorKind::InvalidMapKey(found_key, expected_key) => {
                "invalid map key "@ + text::spec_quoted(found_key@) + ", expected "@
                    + text::spec_quoted(expected_key@)
            },
            DeErrorKind::InvalidTypeId(found_type_id, valid_type_ids) => {
                text::spec_with_number("invalid type id "@, *found_type_id as nat, ", expected "@)
                    + (seq!['['] + text::spec_decimal_list(valid_type_ids@) + seq![']'])
            },
            DeErrorKind::TypeIdMismatch(deserialized_type_id, static_type_id) => {
                text::spec_with_two_numbers(
                    "type id mismatch: deserialized "@,
                    *deserialized_type_id as nat,
                    ", but "@,
                    *static_type_id as nat,
                    " found from value"@,
                )
            },
            DeErrorKind::NoEnumVariantId => "no enum variant id found in deserializer"@,
            DeErrorKind::SizeMismatch(deserialized_size, static_size_hint) => {
                text::spec_with_two_numbers(
                    "size mismatch: deserialized "@,
                    *deserialized_size as nat,
                    ", predicted "@,
                    *static_size_hint as nat,
                    ""@,
                )
            },
            DeErrorKind::InvalidBoolId(id) => text::spec_with_number(
                "invalid value: integer `"@,
                *id as nat,
                "`, expected either 3162085175 for false or 2574415285 for true"@,
            ),
            DeErrorKind::InvalidBytesLenPrefix => {
                "invalid value: integer `255`, expected a byte in [0..254] range"@
            },
        }
    }

    /// What went wrong, in words.
    pub fn to_string(&self) -> (s: String)
        ensures
            s@ == self.spec_message(),
    {
        match self {
            DeErrorKind::Msg(string) => joined("custom string: ", string.as_str()),
            DeErrorKind::BytesLenPrefix254LessThan254(len) => with_number(
                "byte sequence has the 0xfe prefix with length less than 254 ",
                *len as u128,
                "",
            ),
            DeErrorKind::NonZeroBytesPadding => String::from_str(
                "byte sequence has a padding with a non-zero byte",
            ),
            DeErrorKind::UnsupportedSerdeType(type_) => joined(
                type_.to_string().as_str(),
                " type is not supported for deserialization",
            ),
            DeErrorKind::NotEnoughElements(deserialized_count, expected_count) => with_two_numbers(
                "not enough elements: have ",
                *deserialized_count as u128,
                ", need ",
                *expected_count as u128,
                "",
            ),
            DeErrorKind::InvalidMapKey(found_key, expected_key) => {
                let mut s = joined("invalid map key ", quoted(found_key).as_str());
                s.append(", expected ");
                s.append(quoted(expected_key).as_str());
                s
            },
            DeErrorKind::InvalidTypeId(found_type_id, valid_type_ids) => {
                let mut s = with_number("invalid type id ", *found_type_id as u128, ", expected ");
                s.append(decimal_list(valid_type_ids).as_str());
                s
            },
            DeErrorKind::TypeIdMismatch(deserialized_type_id, static_type_id) => with_two_numbers(
                "type id mismatch: deserialized ",
                *deserialized_type_id as u128,
                ", but ",
                *static_type_id as u128,
                " found from value",
            ),
            DeErrorKind::NoEnumVariantId => String::from_str(
                "no enum variant id found in deserializer",
            ),
            DeErrorKind::SizeMismatch(deserialized_size, static_size_hint) => with_two_numbers(
                "size mismatch: deserialized ",
                *deserialized_size as u128,
                ", predicted ",
                *static_size_hint as u128,
                "",
            ),
            DeErrorKind::InvalidBoolId(id) => with_number(
                "invalid value: integer `",
                *id as u128,
                "`, expected either 3162085175 for false or 2574415285 for true",
            ),
            DeErrorKind::InvalidBytesLenPrefix => String::from_str(
                "invalid value: integer `255`, expected a byte in [0..254] range",
            ),
        }
    }
}

impl Error {
    /// What went wrong, in words.
    pub open spec fn spec_message(&self) -> Seq<char> {
        match self {
            Error::Msg(string) => string@,
            Error::Io(kind) => kind.spec_message(),
            Error::FromUtf8 => "invalid utf-8 sequence"@,
            Error::Ser(kind) => "serialization error in serde_mtproto: "@ + kind.spec_message(),
            Error::De(kind) => "deserialization error in serde_mtproto: "@ + kind.spec_message(),
            Error::SignedIntegerCast(num) => {
                "error while casting a signed integer: "@ + text::spec_signed_decimal(*num as int)
            },
            Error::UnsignedIntegerCast(num) => text::spec_with_number(
                "error while casting an unsigned integer: "@,
                *num as nat,
                ""@,
            ),
            Error::FloatCast(bits) => text::spec_with_number(
                "error while casting a floating-point number with the bits "@,
                *bits as nat,
                ""@,
            ),
            Error::StringTooLong(len) => text::spec_with_number(
                "string of length "@,
                *len as nat,
                " is too long to serialize"@,
            ),
            Error::ByteSeqTooLong(len) => text::spec_with_number(
                "byte sequence of length "@,
                *len as nat,
                " is too long to serialize"@,
            ),
            Error::SeqTooLong(len) => text::spec_with_number(
                "sequence of length "@,
                *len as nat,
                " is too long to serialize"@,
            ),
            Error::UnalignedByteSeq(len) => text::spec_with_number(
                "byte sequence of length "@,
                *len as nat,
                " is not a whole number of 32-bit words"@,
            ),
        }
    }

    /// What went wrong, in words.
    pub fn to_string(&self) -> (s: String)
        ensures
            s@ == self.spec_message(),
    {
        match self {
            Error::Msg(string) => String::from_str(string.as_str()),
            Error::Io(kind) => kind.to_string(),
            Error::FromUtf8 => String::from_str("invalid utf-8 sequence"),
            Error::Ser(kind) => joined(
                "serialization error in serde_mtproto: ",
                kind.to_string().as_str(),
            ),
            Error::De(kind) => joined(
                "deserialization error in serde_mtproto: ",
                kind.to_string().as_str(),
            ),
            Error::SignedIntegerCast(num) => joined(
                "error while casting a signed integer: ",
                signed_decimal(*num).as_str(),
            ),
            Error::UnsignedIntegerCast(num) => with_number(
                "error while casting an unsigned integer: ",
                *num as u128,
                "",
            ),
            Error::FloatCast(bits) => with_number(
                "error while casting a floating-point number with the bits ",
                *bits as u128,
                "",
            ),
            Error::StringTooLong(len) => with_number(
                "string of length ",
                *len as u128,
                " is too long to serialize",
            ),
            Error::ByteSeqTooLong(len) => with_number(
                "byte sequence of length ",
                *len as u128,
                " is too long to serialize",
            ),
            Error::SeqTooLong(len) => with_number(
                "sequence of length ",
                *len as u128,
                " is too long to serialize",
            ),
            Error::UnalignedByteSeq(len) => with_number(
                "byte sequence of length ",
                *len as u128,
                " is not a whole number of 32-bit words",
            ),
        }
    }
}

impl From<SerErrorKind> for Error {
    fn from(kind: SerErrorKind) -> (e: Error) {
        Error::Ser(kind)
    }
}

impl vstd::std_specs::convert::FromSpecImpl<SerErrorKind> for Error {
    open spec fn obeys_from_spec() -> bool {
        true
    }

    open spec fn from_spec(kind: SerErrorKind) -> Error {
        Error::Ser(kind)
    }
}

impl From<DeErrorKind> for Error {
    fn from(kind: DeErrorKind) -> (e: Error) {
        Error::De(kind)
    }
}

impl vstd::std_specs::convert::FromSpecImpl<DeErrorKind> for Error {
    open spec fn obeys_from_spec() -> bool {
        true
    }

    open spec fn from_spec(kind: DeErrorKind) -> Error {
        Error::De(kind)
    }
}

/// The result of a fallible operation of this crate.
pub type Result<T> = core::result::Result<T, Error>;

} // verus!
