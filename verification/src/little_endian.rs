//! Little-endian integers on byte sequences.
//!
//! The spec functions say what the bytes of a number are; the executable
//! functions hand the work to `byteorder` and are trusted to agree with them.

use byteorder::{ByteOrder, LittleEndian, WriteBytesExt};
use vstd::prelude::*;

verus! {

/// The number that `bytes` spells, least significant byte first.
pub open spec fn le_value(bytes: Seq<u8>) -> nat
    decreases bytes.len(),
{
    if bytes.len() == 0 {
        0
    } else {
        bytes[0] as nat + 256 * le_value(bytes.drop_first())
    }
}

/// The `width` low bytes of `value`, least significant byte first.
pub open spec fn le_bytes(value: nat, width: nat) -> Seq<u8>
    decreases width,
{
    if width == 0 {
        Seq::empty()
    } else {
        seq![(value % 256) as u8] + le_bytes(value / 256, (width - 1) as nat)
    }
}

/// The number of values that `width` bytes can spell: 256 to the power `width`.
pub open spec fn le_limit(width: nat) -> nat
    decreases width,
{
    if width == 0 {
        1
    } else {
        256 * le_limit((width - 1) as nat)
    }
}

/// The unsigned number that stands for `value` in 64-bit two's complement.
pub open spec fn twos_complement(value: i64) -> nat {
    if value >= 0 {
        value as nat
    } else {
        (value + 0x1_0000_0000_0000_0000) as nat
    }
}

/// The signed number that `bits` stands for in 64-bit two's complement.
pub open spec fn from_twos_complement(bits: nat) -> int {
    if bits < 0x8000_0000_0000_0000 {
        bits as int
    } else {
        bits - 0x1_0000_0000_0000_0000
    }
}

/// `le_bytes` yields exactly `width` bytes.
pub proof fn lemma_le_bytes_len(value: nat, width: nat)
    ensures
        le_bytes(value, width).len() == width,
    decreases width,
{
    if width > 0 {
        lemma_le_bytes_len(value / 256, (width - 1) as nat);
    }
}

/// A sequence of bytes spells a number below the limit of its length.
pub proof fn lemma_le_value_bound(bytes: Seq<u8>)
    ensures
        le_value(bytes) < le_limit(bytes.len()),
    decreases bytes.len(),
{
    if bytes.len() > 0 {
        lemma_le_value_bound(bytes.drop_first());
    }
}

/// Reading back the bytes of a number that fits gives the number.
pub proof fn lemma_le_value_of_bytes(value: nat, width: nat)
    requires
        value < le_limit(width),
    ensures
        le_value(le_bytes(value, width)) == value,
    decreases width,
{
    if width > 0 {
        let rest = le_bytes(value / 256, (width - 1) as nat);
        lemma_le_value_of_bytes(value / 256, (width - 1) as nat);
        assert(le_bytes(value, width).drop_first() =~= rest);
    }
}

/// Writing the number that a sequence spells gives the sequence again.
pub proof fn lemma_le_bytes_of_value(bytes: Seq<u8>)
    ensures
        le_bytes(le_value(bytes), bytes.len()) == bytes,
    decreases bytes.len(),
{
    if bytes.len() > 0 {
        let rest = bytes.drop_first();
        lemma_le_bytes_of_value(rest);
        assert(le_value(bytes) / 256 == le_value(rest));
        assert(le_value(bytes) % 256 == bytes[0] as nat);
        assert(le_bytes(le_value(bytes), bytes.len()) =~= bytes);
    } else {
        assert(le_bytes(le_value(bytes), bytes.len()) =~= bytes);
    }
}

/// The limits of the widths that the formats use.
pub proof fn lemma_le_limits()
    ensures
        le_limit(1) == 0x100,
        le_limit(2) == 0x1_0000,
        le_limit(4) == 0x1_0000_0000,
        le_limit(8) == 0x1_0000_0000_0000_0000,
{
    reveal_with_fuel(le_limit, 9);
}

/// Two's complement loses nothing of a 64-bit signed number.
pub proof fn lemma_twos_complement_round_trip(value: i64)
    ensures
        twos_complement(value) < 0x1_0000_0000_0000_0000,
        from_twos_complement(twos_complement(value)) == value,
{
}

/// Reads a `u16` at `at`. Trusted: `byteorder::LittleEndian::read_u16` returns
/// the number that the first two bytes of its argument spell, least
/// significant first, and panics only on fewer than two bytes.
#[verifier::external_body]
pub(crate) fn read_u16_at(bytes: &[u8], at: usize) -> (value: u16)
    requires
        at + 2 <= bytes@.len(),
    ensures
        value as nat == le_value(bytes@.subrange(at as int, at + 2)),
{
    LittleEndian::read_u16(&bytes[at..])
}

/// Reads a `u32` at `at`. Trusted: `byteorder::LittleEndian::read_u32` returns
/// the number that the first four bytes of its argument spell, least
/// significant first, and panics only on fewer than four bytes.
#[verifier::external_body]
pub(crate) fn read_u32_at(bytes: &[u8], at: usize) -> (value: u32)
    requires
        at + 4 <= bytes@.len(),
    ensures
        value as nat == le_value(bytes@.subrange(at as int, at + 4)),
{
    LittleEndian::read_u32(&bytes[at..])
}

/// Reads an `i64` at `at`. Trusted: `byteorder::LittleEndian::read_i64` returns
/// the first eight bytes of its argument, least significant first, taken as a
/// two's complement number, and panics only on fewer than eight bytes.
#[verifier::external_body]
pub(crate) fn read_i64_at(bytes: &[u8], at: usize) -> (value: i64)
    requires
        at + 8 <= bytes@.len(),
    ensures
        value as int == from_twos_complement(le_value(bytes@.subrange(at as int, at + 8))),
{
    LittleEndian::read_i64(&bytes[at..])
}

/// Appends a `u16`. Trusted: `byteorder::WriteBytesExt::write_u16` with
/// `LittleEndian` writes the two bytes of the number, least significant first,
/// and writing to a `Vec<u8>` appends and cannot fail.
#[verifier::external_body]
pub(crate) fn write_u16(buffer: &mut Vec<u8>, value: u16)
    ensures
        final(buffer)@ == old(buffer)@ + le_bytes(value as nat, 2),
{
    let _ = buffer.write_u16::<LittleEndian>(value);
}

/// Appends a `u32`. Trusted: `byteorder::WriteBytesExt::write_u32` with
/// `LittleEndian` writes the four bytes of the number, least significant
/// first, and writing to a `Vec<u8>` appends and cannot fail.
#[verifier::external_body]
pub(crate) fn write_u32(buffer: &mut Vec<u8>, value: u32)
    ensures
        final(buffer)@ == old(buffer)@ + le_bytes(value as nat, 4),
{
    let _ = buffer.write_u32::<LittleEndian>(value);
}

/// Appends an `i64`. Trusted: `byteorder::WriteBytesExt::write_i64` with
/// `LittleEndian` writes the eight bytes of the number's two's complement,
/// least significant first, and writing to a `Vec<u8>` appends and cannot fail.
#[verifier::external_body]
pub(crate) fn write_i64(buffer: &mut Vec<u8>, value: i64)
    ensures
        final(buffer)@ == old(buffer)@ + le_bytes(twos_complement(value), 8),
{
    let _ = buffer.write_i64::<LittleEndian>(value);
}

} // verus!
