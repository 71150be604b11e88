//! Sixteen-bit numbers as two bytes, low byte first.

use vstd::prelude::*;

verus! {

/// The number that two bytes spell in little-endian order.
pub open spec fn le16(lo: u8, hi: u8) -> u16 {
    (lo as int + 256 * (hi as int)) as u16
}

/// Low byte of `v`.
pub open spec fn lo_byte(v: u16) -> u8 {
    (v as int % 256) as u8
}

/// High byte of `v`.
pub open spec fn hi_byte(v: u16) -> u8 {
    (v as int / 256) as u8
}

/// Reads two bytes as a little-endian number.
pub fn u16_from_le(lo: u8, hi: u8) -> (v: u16)
    ensures
        v == le16(lo, hi),
{
    (hi as u16) * 256 + (lo as u16)
}

/// Splits a number into its low and its high byte.
pub fn u16_to_le(v: u16) -> (bytes: (u8, u8))
    ensures
        bytes.0 == lo_byte(v),
        bytes.1 == hi_byte(v),
        le16(bytes.0, bytes.1) == v,
{
    ((v % 256) as u8, (v / 256) as u8)
}

/// Splitting a number into two bytes and reading them back gives the number.
pub proof fn lemma_le16_round_trip(v: u16)
    ensures
        le16(lo_byte(v), hi_byte(v)) == v,
{
}

} // verus!
