//! The watchdog.

use crate::hw::HwOp;
use crate::platform::WDT_BASE;
use crate::registers::{field_val, placed};
use vstd::prelude::*;

verus! {

/// Enable bit of the control register.
pub const CR_EN: (u32, u32) = (1, 0);

/// Timeout step of the timeout register.
pub const TORR_TIMEOUT: (u32, u32) = (0xF, 0);

/// The word that feeds the watchdog.
pub const KICK_MAGIC: u32 = 0x76;

/// Feeding the watchdog.
pub open spec fn kick_script() -> Seq<HwOp> {
    seq![HwOp::Write { addr: (WDT_BASE + 0xc) as usize, value: KICK_MAGIC }]
}

/// Starts the watchdog with its longest timeout; it resets the chip when it is not fed.
pub fn start() -> (ops: Vec<HwOp>)
    ensures
        ops@ == seq![
            HwOp::Write { addr: (WDT_BASE + 4) as usize, value: placed(TORR_TIMEOUT, 15) },
            HwOp::Write { addr: WDT_BASE, value: placed(CR_EN, 1) },
        ] + kick_script(),
{
    let mut ops: Vec<HwOp> = Vec::new();
    ops.push(HwOp::Write { addr: WDT_BASE + 4, value: field_val(TORR_TIMEOUT, 15) });
    ops.push(HwOp::Write { addr: WDT_BASE, value: field_val(CR_EN, 1) });
    let mut tail: Vec<HwOp> = kick();
    ops.append(&mut tail);
    ops
}

/// Feeds the watchdog.
pub fn kick() -> (ops: Vec<HwOp>)
    ensures
        ops@ == kick_script(),
{
    let mut ops: Vec<HwOp> = Vec::new();
    ops.push(HwOp::Write { addr: WDT_BASE + 0xc, value: KICK_MAGIC });
    ops
}

} // verus!
