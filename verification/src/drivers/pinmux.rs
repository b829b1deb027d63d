//! What the pins are used for.

use crate::hw::HwOp;
use crate::platform::FMUX_BASE;
use crate::registers::{field_val, placed};
use vstd::prelude::*;

verus! {

/// Selector of the VBUS detection pin.
pub const FMUX_USB_VBUS_DET: usize = FMUX_BASE + 0xfc;

pub const FSEL_VAL: (u32, u32) = (7, 0);

/// The pin is pin 6 of the second port controller.
pub const FSEL_XGPIOB_6: u32 = 3;

/// Hands the VBUS detection pin to the port controller.
pub fn vbus_pin_to_gpio() -> (op: HwOp)
    ensures
        op == (HwOp::Write { addr: FMUX_USB_VBUS_DET, value: placed(FSEL_VAL, FSEL_XGPIOB_6) }),
{
    HwOp::Write { addr: FMUX_USB_VBUS_DET, value: field_val(FSEL_VAL, FSEL_XGPIOB_6) }
}

} // verus!
