//! # Serde MTProto
//!
//! MTProto is a mobile-first protocol for access to a server API. This crate
//! is the codec of its binary representation: it writes Rust values as
//! bytes and reads them back.
//!
//! The wire holds little-endian integers of at least 32 bits, byte strings
//! behind a length prefix and padded with zero bytes to a multiple of four,
//! sequences behind the number of their elements, and structs, tuples and
//! enum variants as their fields with nothing in front. A value can be
//! boxed, which puts the id of its type in front of it, and it can be given
//! with its size.
//!
//! * [`wire`] says in terms of bytes what stands on the wire, and holds the
//!   little-endian conversions.
//! * [`ser`] and [`de`] hold the [`Serializer`] and the [`Deserializer`],
//!   with one operation for each shape of data, and the traits
//!   [`Serialize`] and [`Deserialize`] of the values that drive them.
//! * [`sized`] predicts the size of a value, and [`identifiable`] gives the
//!   ids of a type and of a value.
//! * [`wrappers`], [`boxed`] and [`helpers`] hold the types that put an id
//!   or a size in front of a value, and the byte buffer that is written
//!   without its length.
//! * [`error`] holds what can go wrong.
//!
//! What is written is specified byte for byte, and what is read is
//! specified for every input. The traits [`ser::SerializeLaws`] and
//! [`de::DeserializeLaws`] hold what is proved of the types of this crate:
//! every value is written as a whole number of 32-bit words, the size that
//! is predicted for it is the number of its bytes, and reading what was
//! written gives the value back.

pub mod boxed;
pub mod bytes;
pub mod de;
pub mod de_impls;
pub mod de_tuples;
pub mod double;
pub mod error;
pub mod helpers;
pub mod identifiable;
pub mod ser;
pub mod ser_impls;
pub mod sized;
pub mod text;
pub mod utils;
pub mod wire;
pub mod wrappers;

pub use crate::bytes::ByteBuf;
pub use crate::de::{
    from_bytes, from_bytes_reuse, from_bytes_seed, from_reader, from_reader_reuse,
    from_reader_seed, Deserialize, DeserializeSeed, Deserializer,
};
pub use crate::double::Double;
pub use crate::error::{Error, Result};
pub use crate::helpers::{UnsizedByteBuf, UnsizedByteBufSeed};
pub use crate::identifiable::Identifiable;
pub use crate::ser::{
    to_bytes, to_writer, unsized_bytes_pad_to_bytes, unsized_bytes_pad_to_writer, Serialize,
    Serializer,
};
pub use crate::sized::{size_hint_from_byte_seq_len, MtProtoSized};
pub use crate::wrappers::{Boxed, WithId, WithSize};
