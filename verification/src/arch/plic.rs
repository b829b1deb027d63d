//! The interrupt controller.

use vstd::prelude::*;

verus! {

/// Interrupt source of the mailbox.
pub const MBOX_IRQ_SRC: u32 = 61;

/// Interrupt source of the USB controller.
pub const USB_IRQ_SRC: u32 = 30;

/// Context of the machine mode of the small core.
pub const CTX: usize = 0;

/// Where the interrupt controller is mapped.
pub const PLIC_BASE: usize = 0x7000_0000;

/// One step on the interrupt controller.
#[derive(Clone, Copy, Debug, PartialEq, Eq, Structural)]
pub enum PlicOp {
    SetThreshold { ctx: usize, value: u32 },
    SetPriority { src: u32, value: u32 },
    Enable { src: u32, ctx: usize },
    Complete { src: u32, ctx: usize },
}

/// Lets the mailbox interrupt through, and no other: the USB controller is polled.
pub fn init() -> (ops: Vec<PlicOp>)
    ensures
        ops@ == seq![
            PlicOp::SetThreshold { ctx: CTX, value: 0 },
            PlicOp::SetPriority { src: MBOX_IRQ_SRC, value: 1 },
            PlicOp::Enable { src: MBOX_IRQ_SRC, ctx: CTX },
        ],
{
    let mut ops: Vec<PlicOp> = Vec::new();
    ops.push(PlicOp::SetThreshold { ctx: CTX, value: 0 });
    ops.push(PlicOp::SetPriority { src: MBOX_IRQ_SRC, value: 1 });
    ops.push(PlicOp::Enable { src: MBOX_IRQ_SRC, ctx: CTX });
    ops
}

/// The claimed source, 0 where none is pending.
pub fn claim(id: Option<u32>) -> (src: u32)
    ensures
        src == (match id {
            Some(n) => n,
            None => 0u32,
        }),
{
    match id {
        Some(n) => n,
        None => 0,
    }
}

/// Ends the handling of `src`; source 0 was never claimed and is not ended.
pub fn complete(src: u32) -> (op: Option<PlicOp>)
    ensures
        op == (if src == 0 {
            None
        } else {
            Some(PlicOp::Complete { src, ctx: CTX })
        }),
{
    if src == 0 {
        None
    } else {
        Some(PlicOp::Complete { src, ctx: CTX })
    }
}

} // verus!
