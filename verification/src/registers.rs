//! Bit fields of 32-bit registers.
//!
//! A field is a pair `(mask, shift)`: the mask of its width and the position of its lowest bit.

use tock_registers::fields::{Field, FieldValue};
use vstd::prelude::*;

verus! {

/// The bits that field `f` occupies in its register.
pub open spec fn mask_of(f: (u32, u32)) -> u32 {
    f.0 << f.1
}

/// `value` at the place of field `f`; bits that the field has no room for are dropped.
pub open spec fn placed(f: (u32, u32), value: u32) -> u32 {
    (value & f.0) << f.1
}

/// The value of field `f` in a register that holds `raw`.
pub open spec fn taken(f: (u32, u32), raw: u32) -> u32 {
    (raw & (f.0 << f.1)) >> f.1
}

/// Whether a bit of field `f` is set in a register that holds `raw`.
pub open spec fn any_set(f: (u32, u32), raw: u32) -> bool {
    raw & (f.0 << f.1) != 0
}

/// A register that held `old`, after its bits under `mask` were replaced by `value`.
pub open spec fn merged(old: u32, mask: u32, value: u32) -> u32 {
    (old & !mask) | value
}

/// Calls `tock_registers::fields::Field::val`, which masks the value and moves it to the place
/// of the field.
#[verifier::external_body]
pub(crate) fn field_val(f: (u32, u32), value: u32) -> (r: u32)
    requires
        f.1 < 32,
    ensures
        r == placed(f, value),
{
    Field::<u32, ()>::new(f.0, f.1 as usize).val(value).value
}

/// Calls `tock_registers::fields::FieldValue::mask`, which gives the bits of the register that
/// the field value covers.
#[verifier::external_body]
pub(crate) fn field_mask(f: (u32, u32)) -> (r: u32)
    requires
        f.1 < 32,
    ensures
        r == mask_of(f),
{
    FieldValue::<u32, ()>::new(f.0, f.1 as usize, 0).mask()
}

/// Calls `tock_registers::fields::Field::read`, which cuts the field out of a register value.
#[verifier::external_body]
pub(crate) fn field_read(f: (u32, u32), raw: u32) -> (r: u32)
    requires
        f.1 < 32,
    ensures
        r == taken(f, raw),
{
    Field::<u32, ()>::new(f.0, f.1 as usize).read(raw)
}

/// Calls `tock_registers::fields::Field::is_set`, which tells whether a register value has a bit
/// of the field.
#[verifier::external_body]
pub(crate) fn field_is_set(f: (u32, u32), raw: u32) -> (r: bool)
    requires
        f.1 < 32,
    ensures
        r == any_set(f, raw),
{
    Field::<u32, ()>::new(f.0, f.1 as usize).is_set(raw)
}

/// A field of all bits holds its value as it is.
pub proof fn lemma_whole_word(x: u32)
    ensures
        placed((0xFFFF_FFFF, 0), x) == x,
        mask_of((0xFFFF_FFFF, 0)) == 0xFFFF_FFFF,
{
    assert((x & 0xFFFF_FFFFu32) << 0u32 == x && 0xFFFF_FFFFu32 << 0u32 == 0xFFFF_FFFF)
        by (bit_vector);
}

/// The lower half of `x`.
pub fn low32(x: u64) -> (r: u32)
    ensures
        r == x % 0x1_0000_0000,
{
    (x % 0x1_0000_0000) as u32
}

/// The upper half of `x`.
pub fn high32(x: u64) -> (r: u32)
    ensures
        r == x / 0x1_0000_0000,
{
    (x / 0x1_0000_0000) as u32
}

} // verus!
