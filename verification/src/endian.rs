//! Little-endian integers: what a run of bytes stands for, and the calls
//! into `byteorder` that turn integers into bytes and back.

use byteorder::{ByteOrder, LittleEndian};
use vstd::prelude::*;

verus! {

/// The number that `bytes` stands for when the least significant byte comes
/// first.
pub open spec fn le_value(bytes: Seq<u8>) -> nat
    decreases bytes.len(),
{
    if bytes.len() == 0 {
        0
    } else {
        bytes[0] as nat + 256 * le_value(bytes.skip(1))
    }
}

/// The `width` low bytes of `value`, least significant first.
pub open spec fn le_bytes(value: nat, width: nat) -> Seq<u8>
    decreases width,
{
    if width == 0 {
        Seq::empty()
    } else {
        seq![(value % 256) as u8] + le_bytes(value / 256, (width - 1) as nat)
    }
}

/// The number of values that `width` bytes can tell apart: 256 to the power
/// `width`.
pub open spec fn le_range(width: nat) -> nat
    decreases width,
{
    if width == 0 {
        1
    } else {
        256 * le_range((width - 1) as nat)
    }
}

/// `le_bytes` yields exactly `width` bytes.
pub proof fn lemma_le_bytes_len(value: nat, width: nat)
    ensures
        le_bytes(value, width).len() == width,
    decreases width,
{
    if width > 0 {
        lemma_le_bytes_len(value / 256, (width - 1) as nat);
    }
}

/// Reading back the bytes of a value that fits in `width` bytes gives the
/// value.
pub proof fn lemma_le_value_of_bytes(value: nat, width: nat)
    requires
        value < le_range(width),
    ensures
        le_value(le_bytes(value, width)) == value,
    decreases width,
{
    if width > 0 {
        let rest = le_bytes(value / 256, (width - 1) as nat);
        lemma_le_value_of_bytes(value / 256, (width - 1) as nat);
        lemma_le_bytes_len(value / 256, (width - 1) as nat);
        assert(le_bytes(value, width).skip(1) =~= rest);
    }
}

/// The widths of the format's integers, in values.
pub proof fn lemma_le_ranges()
    ensures
        le_range(2) == 0x1_0000,
        le_range(4) == 0x1_0000_0000,
        le_range(8) == 0x1_0000_0000_0000_0000,
{
    reveal_with_fuel(le_range, 9);
}

/// Calls `byteorder::LittleEndian::read_u16`, which reads the first two
/// bytes of its argument as a little-endian integer and panics on a
/// shorter one. The contract admits exactly two bytes and claims that the
/// result is the number they stand for.
#[verifier::external_body]
pub(crate) fn read_u16_le(buf: &[u8]) -> (value: u16)
    requires
        buf@.len() == 2,
    ensures
        value as nat == le_value(buf@),
{
    LittleEndian::read_u16(buf)
}

/// Calls `byteorder::LittleEndian::read_u32`, which reads the first four
/// bytes of its argument as a little-endian integer and panics on a
/// shorter one. The contract admits exactly four bytes and claims that the
/// result is the number they stand for.
#[verifier::external_body]
pub(crate) fn read_u32_le(buf: &[u8]) -> (value: u32)
    requires
        buf@.len() == 4,
    ensures
        value as nat == le_value(buf@),
{
    LittleEndian::read_u32(buf)
}

/// Calls `byteorder::LittleEndian::read_u64`, which reads the first eight
/// bytes of its argument as a little-endian integer and panics on a
/// shorter one. The contract admits exactly eight bytes and claims that the
/// result is the number they stand for.
#[verifier::external_body]
pub(crate) fn read_u64_le(buf: &[u8]) -> (value: u64)
    requires
        buf@.len() == 8,
    ensures
        value as nat == le_value(buf@),
{
    LittleEndian::read_u64(buf)
}

/// Calls `byteorder::LittleEndian::write_u16` on a buffer of two bytes,
/// which it fills with the integer's bytes, least significant first. The
/// contract claims that the buffer then holds `le_bytes` of the value.
#[verifier::external_body]
pub(crate) fn u16_to_le(value: u16) -> (buf: [u8; 2])
    ensures
        buf@ == le_bytes(value as nat, 2),
{
    let mut buf = [0u8; 2];
    LittleEndian::write_u16(&mut buf, value);
    buf
}

/// Calls `byteorder::LittleEndian::write_u32` on a buffer of four bytes,
/// which it fills with the integer's bytes, least significant first. The
/// contract claims that the buffer then holds `le_bytes` of the value.
#[verifier::external_body]
pub(crate) fn u32_to_le(value: u32) -> (buf: [u8; 4])
    ensures
        buf@ == le_bytes(value as nat, 4),
{
    let mut buf = [0u8; 4];
    LittleEndian::write_u32(&mut buf, value);
    buf
}

/// Calls `byteorder::LittleEndian::write_u64` on a buffer of eight bytes,
/// which it fills with the integer's bytes, least significant first. The
/// contract claims that the buffer then holds `le_bytes` of the value.
#[verifier::external_body]
pub(crate) fn u64_to_le(value: u64) -> (buf: [u8; 8])
    ensures
        buf@ == le_bytes(value as nat, 8),
{
    let mut buf = [0u8; 8];
    LittleEndian::write_u64(&mut buf, value);
    buf
}

} // verus!
