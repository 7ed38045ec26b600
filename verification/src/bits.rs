//! Single-bit flags and small bit fields inside one register byte.

use vstd::prelude::*;

verus! {

/// `mask` selects exactly one of the eight bits of a byte.
pub open spec fn single_bit(mask: u8) -> bool {
    mask == 0x01 || mask == 0x02 || mask == 0x04 || mask == 0x08 || mask == 0x10 || mask == 0x20
        || mask == 0x40 || mask == 0x80
}

/// The flag selected by `mask` is set in `byte`.
pub open spec fn is_set(byte: u8, mask: u8) -> bool {
    byte & mask != 0
}

/// `byte` with the flag selected by `mask` set to `on`.
pub open spec fn assign(byte: u8, mask: u8, on: bool) -> u8 {
    if on {
        byte | mask
    } else {
        byte & !mask
    }
}

/// The number held in the `width` bits of `byte` that start at bit `shift`.
pub open spec fn field(byte: u8, shift: u8, width_mask: u8) -> u8 {
    (byte >> shift) & width_mask
}

/// Assigning one flag sets that flag and leaves every other flag alone.
pub proof fn lemma_assign_flag(byte: u8, mask: u8, on: bool, other: u8)
    requires
        single_bit(mask),
        single_bit(other),
    ensures
        is_set(assign(byte, mask, on), other) == (if other == mask {
            on
        } else {
            is_set(byte, other)
        }),
{
    assert(single_bit(mask) && single_bit(other) ==> ((byte | mask) & other != 0) == (other == mask
        || byte & other != 0)) by (bit_vector);
    assert(single_bit(mask) && single_bit(other) ==> ((byte & !mask) & other != 0) == (other != mask
        && byte & other != 0)) by (bit_vector);
}

/// Assigning a flag that lies outside a field leaves the field's number alone.
pub proof fn lemma_assign_keeps_field(byte: u8, mask: u8, on: bool, shift: u8, width_mask: u8)
    requires
        single_bit(mask),
        shift < 8,
        (width_mask << shift) & mask == 0,
    ensures
        field(assign(byte, mask, on), shift, width_mask) == field(byte, shift, width_mask),
{
    assert(shift < 8 && (width_mask << shift) & mask == 0 ==> ((byte | mask) >> shift) & width_mask
        == (byte >> shift) & width_mask) by (bit_vector);
    assert(shift < 8 && (width_mask << shift) & mask == 0 ==> ((byte & !mask) >> shift) & width_mask
        == (byte >> shift) & width_mask) by (bit_vector);
}

/// Reads one flag.
pub fn get_flag(byte: u8, mask: u8) -> (set: bool)
    ensures
        set == is_set(byte, mask),
{
    byte & mask != 0
}

/// Writes one flag.
pub fn set_flag(byte: u8, mask: u8, on: bool) -> (out: u8)
    ensures
        out == assign(byte, mask, on),
{
    if on {
        byte | mask
    } else {
        byte & !mask
    }
}

/// Reads a field.
pub fn get_field(byte: u8, shift: u8, width_mask: u8) -> (value: u8)
    requires
        shift < 8,
    ensures
        value == field(byte, shift, width_mask),
        value <= width_mask,
{
    let shifted: u8 = byte >> shift;
    assert(shifted & width_mask <= width_mask) by (bit_vector);
    shifted & width_mask
}

} // verus!
