//! The byte-level model of the wire format, and the little-endian
//! conversions it rests on.

use byteorder::{ByteOrder, LittleEndian};
use vstd::prelude::*;

verus! {

/// `256` to the power `width`.
pub open spec fn pow256(width: nat) -> nat
    decreases width,
{
    if width == 0 {
        1
    } else {
        256 * pow256((width - 1) as nat)
    }
}

/// The `width` lowest base-256 digits of `n`, least significant first.
pub open spec fn le_bytes(n: nat, width: nat) -> Seq<u8>
    decreases width,
{
    if width == 0 {
        Seq::<u8>::empty()
    } else {
        seq![(n % 256) as u8] + le_bytes(n / 256, (width - 1) as nat)
    }
}

/// The number whose base-256 digits, least significant first, are `bytes`.
pub open spec fn le_value(bytes: Seq<u8>) -> nat
    decreases bytes.len(),
{
    if bytes.len() == 0 {
        0
    } else {
        bytes[0] as nat + 256 * le_value(bytes.drop_first())
    }
}

/// The unsigned number that stands for `v` in two's complement of `width`
/// bytes.
pub open spec fn twos_complement(v: int, width: nat) -> nat {
    if v < 0 {
        (v + pow256(width)) as nat
    } else {
        v as nat
    }
}

/// The signed number that `n` stands for in two's complement of `width`
/// bytes.
pub open spec fn from_twos_complement(n: nat, width: nat) -> int {
    if 2 * n >= pow256(width) {
        n - pow256(width)
    } else {
        n as int
    }
}

/// The powers of 256 that the widths of the wire need.
pub proof fn lemma_pow256_values()
    ensures
        pow256(0) == 1,
        pow256(1) == 0x100,
        pow256(2) == 0x1_0000,
        pow256(3) == 0x100_0000,
        pow256(4) == 0x1_0000_0000,
        pow256(8) == 0x1_0000_0000_0000_0000,
        pow256(16) == 0x1_0000_0000_0000_0000_0000_0000_0000_0000,
{
    reveal_with_fuel(pow256, 17);
}

/// A number in `width` digits takes `width` bytes.
pub proof fn lemma_le_bytes_len(n: nat, width: nat)
    ensures
        le_bytes(n, width).len() == width,
    decreases width,
{
    if width > 0 {
        lemma_le_bytes_len(n / 256, (width - 1) as nat);
    }
}

/// The number that some bytes stand for fits in as many digits.
pub proof fn lemma_le_value_bound(bytes: Seq<u8>)
    ensures
        le_value(bytes) < pow256(bytes.len()),
    decreases bytes.len(),
{
    if bytes.len() > 0 {
        lemma_le_value_bound(bytes.drop_first());
    }
}

/// Reading back the digits of a number that fits in them gives the number.
pub proof fn lemma_le_value_of_bytes(n: nat, width: nat)
    requires
        n < pow256(width),
    ensures
        le_value(le_bytes(n, width)) == n,
    decreases width,
{
    if width > 0 {
        let rest = le_bytes(n / 256, (width - 1) as nat);
        let all = le_bytes(n, width);
        assert(all.drop_first() =~= rest);
        lemma_le_value_of_bytes(n / 256, (width - 1) as nat);
    }
}

/// Writing the digits of the number that some bytes stand for gives the
/// bytes.
pub proof fn lemma_le_bytes_of_value(bytes: Seq<u8>)
    ensures
        le_bytes(le_value(bytes), bytes.len()) == bytes,
    decreases bytes.len(),
{
    if bytes.len() > 0 {
        let rest = bytes.drop_first();
        lemma_le_bytes_of_value(rest);
        let n = le_value(bytes);
        assert(n % 256 == bytes[0] as nat);
        assert(n / 256 == le_value(rest));
        assert(le_bytes(n, bytes.len()) =~= bytes);
    } else {
        assert(le_bytes(0, 0) =~= bytes);
    }
}

/// A signed number that `width` bytes hold is the signed number of the
/// unsigned one that stands for it.
pub proof fn lemma_twos_complement_round_trip(v: int, width: nat)
    requires
        width > 0,
        -(pow256(width) as int) <= 2 * v < pow256(width),
    ensures
        twos_complement(v, width) < pow256(width),
        from_twos_complement(twos_complement(v, width), width) == v,
{
}

/// An unsigned number of `width` bytes stands for the signed number that
/// it is read as.
pub proof fn lemma_from_twos_complement_round_trip(n: nat, width: nat)
    requires
        width > 0,
        n < pow256(width),
    ensures
        -(pow256(width) as int) <= 2 * from_twos_complement(n, width) < pow256(width),
        twos_complement(from_twos_complement(n, width), width) == n,
{
}

/// `count` zero bytes.
pub open spec fn zeros(count: nat) -> Seq<u8> {
    Seq::new(count, |i: int| 0u8)
}

/// How many zero bytes follow `len` bytes to reach a multiple of four.
pub open spec fn padding_len(len: nat) -> nat {
    ((4 - len % 4) % 4) as nat
}

/// The longest byte string that the short form of the length prefix holds.
pub const MAX_SHORT_LEN: usize = 253;

/// The longest byte string that the wire holds.
pub const MAX_BYTE_SEQ_LEN: usize = 0xff_ff_ff;

/// The first byte of the long form of the length prefix.
pub const LONG_LEN_MARKER: u8 = 254;

/// The length prefix of a byte string of `len` bytes: one byte up to 253,
/// else the byte 254 and three little-endian bytes.
pub open spec fn byte_seq_prefix(len: nat) -> Seq<u8> {
    if len <= 253 {
        seq![len as u8]
    } else {
        seq![254u8] + le_bytes(len, 3)
    }
}

/// A byte string on the wire: its length prefix, its bytes, and zero bytes
/// up to a multiple of four.
pub open spec fn byte_seq_wire(data: Seq<u8>) -> Seq<u8> {
    let prefix = byte_seq_prefix(data.len());
    prefix + data + zeros(padding_len(prefix.len() + data.len()))
}

/// The number of bytes that a byte string of `len` bytes takes on the wire.
pub open spec fn byte_seq_size(len: nat) -> nat {
    let prefix: nat = if len <= 253 { 1 } else { 4 };
    prefix + len + padding_len(prefix + len)
}

/// A signed integer of at most 32 bits on the wire: four little-endian
/// bytes in two's complement.
pub open spec fn int_wire(v: int) -> Seq<u8> {
    le_bytes(twos_complement(v, 4), 4)
}

/// A signed 64-bit integer on the wire: eight little-endian bytes in two's
/// complement.
pub open spec fn long_wire(v: int) -> Seq<u8> {
    le_bytes(twos_complement(v, 8), 8)
}

/// An unsigned integer of at most 32 bits on the wire: four little-endian
/// bytes.
pub open spec fn uint_wire(n: nat) -> Seq<u8> {
    le_bytes(n, 4)
}

/// An unsigned 64-bit integer on the wire: eight little-endian bytes.
pub open spec fn ulong_wire(n: nat) -> Seq<u8> {
    le_bytes(n, 8)
}

/// A signed 128-bit integer on the wire: its lower half as an unsigned
/// 64-bit integer, then its upper half as a signed one.
pub open spec fn int128_wire(v: int) -> Seq<u8> {
    ulong_wire((v % 0x1_0000_0000_0000_0000) as nat) + long_wire(v / 0x1_0000_0000_0000_0000)
}

/// An unsigned 128-bit integer on the wire: its lower half, then its upper
/// half, each as an unsigned 64-bit integer.
pub open spec fn uint128_wire(n: nat) -> Seq<u8> {
    ulong_wire(n % 0x1_0000_0000_0000_0000) + ulong_wire(n / 0x1_0000_0000_0000_0000)
}

/// An integer takes four, eight or sixteen bytes on the wire, by its
/// kind.
pub proof fn lemma_int_wire_len(v: int)
    ensures
        int_wire(v).len() == 4,
        uint_wire(v as nat).len() == 4,
        long_wire(v).len() == 8,
        ulong_wire(v as nat).len() == 8,
        int128_wire(v).len() == 16,
        uint128_wire(v as nat).len() == 16,
{
    lemma_le_bytes_len(twos_complement(v, 4), 4);
    lemma_le_bytes_len(v as nat, 4);
    lemma_le_bytes_len(twos_complement(v, 8), 8);
    lemma_le_bytes_len(v as nat, 8);
    lemma_le_bytes_len((v % 0x1_0000_0000_0000_0000) as nat, 8);
    lemma_le_bytes_len(twos_complement(v / 0x1_0000_0000_0000_0000, 8), 8);
    lemma_le_bytes_len((v as nat) % 0x1_0000_0000_0000_0000, 8);
    lemma_le_bytes_len((v as nat) / 0x1_0000_0000_0000_0000, 8);
}

/// A byte string takes on the wire the number of bytes that is predicted
/// for its length: a whole number of 32-bit words, and seven bytes more
/// than its data at most.
pub proof fn lemma_byte_seq_wire_len(data: Seq<u8>)
    requires
        data.len() <= MAX_BYTE_SEQ_LEN,
    ensures
        byte_seq_wire(data).len() == byte_seq_size(data.len()),
        byte_seq_size(data.len()) % 4 == 0,
        byte_seq_size(data.len()) <= data.len() + 7,
{
    lemma_le_bytes_len(data.len(), 3);
}

/// A number that was written in `width` bytes stands in the first `width`
/// bytes of what follows.
pub proof fn lemma_read_written(n: nat, width: nat, rest: Seq<u8>)
    requires
        n < pow256(width),
    ensures
        (le_bytes(n, width) + rest).len() >= width,
        le_value((le_bytes(n, width) + rest).take(width as int)) == n,
        (le_bytes(n, width) + rest).skip(width as int) == rest,
{
    lemma_le_bytes_len(n, width);
    lemma_le_value_of_bytes(n, width);
    assert((le_bytes(n, width) + rest).take(width as int) =~= le_bytes(n, width));
    assert((le_bytes(n, width) + rest).skip(width as int) =~= rest);
}

/// How many zero bytes follow `len` bytes to reach a multiple of four.
pub(crate) fn padding_for(len: usize) -> (padding: usize)
    ensures
        padding == padding_len(len as nat),
        padding <= 3,
{
    (4 - len % 4) % 4
}

/// The bits of a signed 32-bit integer, as an unsigned one.
pub(crate) fn i32_to_bits(v: i32) -> (n: u32)
    ensures
        n as nat == twos_complement(v as int, 4),
{
    proof {
        lemma_pow256_values();
    }
    assert(v < 0 ==> (v as u32) as i64 == v as i64 + 0x1_0000_0000) by (bit_vector);
    assert(v >= 0 ==> (v as u32) as i64 == v as i64) by (bit_vector);
    v as u32
}

/// The signed 32-bit integer that has the bits of `n`.
pub(crate) fn i32_from_bits(n: u32) -> (v: i32)
    ensures
        v as int == from_twos_complement(n as nat, 4),
{
    proof {
        lemma_pow256_values();
    }
    assert(n >= 0x8000_0000 ==> (n as i32) as i64 == n as i64 - 0x1_0000_0000) by (bit_vector);
    assert(n < 0x8000_0000 ==> (n as i32) as i64 == n as i64) by (bit_vector);
    n as i32
}

/// The bits of a signed 64-bit integer, as an unsigned one.
pub(crate) fn i64_to_bits(v: i64) -> (n: u64)
    ensures
        n as nat == twos_complement(v as int, 8),
{
    proof {
        lemma_pow256_values();
    }
    assert(v < 0 ==> (v as u64) as i128 == v as i128 + 0x1_0000_0000_0000_0000) by (bit_vector);
    assert(v >= 0 ==> (v as u64) as i128 == v as i128) by (bit_vector);
    v as u64
}

/// The signed 64-bit integer that has the bits of `n`.
pub(crate) fn i64_from_bits(n: u64) -> (v: i64)
    ensures
        v as int == from_twos_complement(n as nat, 8),
{
    proof {
        lemma_pow256_values();
    }
    assert(n >= 0x8000_0000_0000_0000 ==> (n as i64) as i128 == n as i128
        - 0x1_0000_0000_0000_0000) by (bit_vector);
    assert(n < 0x8000_0000_0000_0000 ==> (n as i64) as i128 == n as i128) by (bit_vector);
    n as i64
}

/// `byteorder::LittleEndian::write_u32` on a buffer of four bytes: the four
/// base-256 digits of `n`, least significant first.
#[verifier::external_body]
pub(crate) fn write_u32(n: u32) -> (bytes: [u8; 4])
    ensures
        bytes@ == le_bytes(n as nat, 4),
{
    let mut bytes = [0u8; 4];
    LittleEndian::write_u32(&mut bytes, n);
    bytes
}

/// `byteorder::LittleEndian::write_u64` on a buffer of eight bytes: the
/// eight base-256 digits of `n`, least significant first.
#[verifier::external_body]
pub(crate) fn write_u64(n: u64) -> (bytes: [u8; 8])
    ensures
        bytes@ == le_bytes(n as nat, 8),
{
    let mut bytes = [0u8; 8];
    LittleEndian::write_u64(&mut bytes, n);
    bytes
}

/// `byteorder::LittleEndian::write_u24` on a buffer of three bytes: the
/// three base-256 digits of `n`, least significant first. The outside
/// function panics on a number of more than three digits.
#[verifier::external_body]
pub(crate) fn write_u24(n: u32) -> (bytes: [u8; 3])
    requires
        n <= 0xff_ff_ff,
    ensures
        bytes@ == le_bytes(n as nat, 3),
{
    let mut bytes = [0u8; 3];
    LittleEndian::write_u24(&mut bytes, n);
    bytes
}

/// `byteorder::LittleEndian::read_u32`: the number whose digits are the
/// first four bytes of `buf`. The outside function panics on a shorter
/// buffer.
#[verifier::external_body]
pub(crate) fn read_u32(buf: &[u8]) -> (n: u32)
    requires
        buf@.len() >= 4,
    ensures
        n as nat == le_value(buf@.subrange(0, 4)),
{
    LittleEndian::read_u32(buf)
}

/// `byteorder::LittleEndian::read_u64`: the number whose digits are the
/// first eight bytes of `buf`. The outside function panics on a shorter
/// buffer.
#[verifier::external_body]
pub(crate) fn read_u64(buf: &[u8]) -> (n: u64)
    requires
        buf@.len() >= 8,
    ensures
        n as nat == le_value(buf@.subrange(0, 8)),
{
    LittleEndian::read_u64(buf)
}

/// `byteorder::LittleEndian::read_u24`: the number whose digits are the
/// first three bytes of `buf`. The outside function panics on a shorter
/// buffer.
#[verifier::external_body]
pub(crate) fn read_u24(buf: &[u8]) -> (n: u32)
    requires
        buf@.len() >= 3,
    ensures
        n as nat == le_value(buf@.subrange(0, 3)),
{
    LittleEndian::read_u24(buf)
}

} // verus!
