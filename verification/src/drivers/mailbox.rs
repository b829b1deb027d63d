//! The mailbox controller between the cores: doorbells and a word of payload each way.

use crate::hw::HwOp;
use vstd::prelude::*;

verus! {

pub const HW_MBOX_BASE: usize = 0x0190_0000;

/// Which slots interrupt the big core.
pub const CPU1_EN: usize = HW_MBOX_BASE + 0x04;

/// Which slots interrupt the small core.
pub const CPU2_EN: usize = HW_MBOX_BASE + 0x08;

/// Pending slots of the big core are cleared here.
pub const BIG_INT_CLR: usize = HW_MBOX_BASE + 0x20;

pub const BIG_INT_MASK: usize = HW_MBOX_BASE + 0x24;

/// Pending slots of the small core are cleared here.
pub const SMALL_INT_CLR: usize = HW_MBOX_BASE + 0x30;

/// Pending slots of the small core.
pub const SMALL_INT_VAL: usize = HW_MBOX_BASE + 0x38;

/// Rings the slots that are written.
pub const MBOX_SET: usize = HW_MBOX_BASE + 0x60;

pub const CTX_S2B_PAYLOAD: usize = HW_MBOX_BASE + 0x400;

pub const CTX_S2B_AUX: usize = HW_MBOX_BASE + 0x404;

pub const CTX_B2S_PAYLOAD: usize = HW_MBOX_BASE + 0x408;

/// Where the heartbeat leaves the program counter.
pub const CTX_B2S_AUX: usize = HW_MBOX_BASE + 0x40c;

/// Flags of the line lock: the word of the small core, then that of the big core.
pub const CTX_SLOT2: usize = HW_MBOX_BASE + 0x410;

/// Whose turn it is with the line lock.
pub const CTX_SLOT3: usize = HW_MBOX_BASE + 0x418;

/// Ringing the big core.
pub open spec fn doorbell_script(payload0: u32, payload1: u32) -> Seq<HwOp> {
    seq![
        HwOp::Write { addr: CTX_S2B_PAYLOAD, value: payload0 },
        HwOp::Write { addr: CTX_S2B_AUX, value: payload1 },
        HwOp::Write { addr: BIG_INT_CLR, value: 1 },
        HwOp::Write { addr: BIG_INT_MASK, value: 0 },
        HwOp::Write { addr: CPU1_EN, value: 1 },
        HwOp::Write { addr: MBOX_SET, value: 1 },
    ]
}

/// Puts two words into the slot to the big core and rings it. The enable word has no other user,
/// so it is written as a whole.
pub fn doorbell_big(payload0: u32, payload1: u32) -> (ops: Vec<HwOp>)
    ensures
        ops@ == doorbell_script(payload0, payload1),
{
    let mut ops: Vec<HwOp> = Vec::new();
    ops.push(HwOp::Write { addr: CTX_S2B_PAYLOAD, value: payload0 });
    ops.push(HwOp::Write { addr: CTX_S2B_AUX, value: payload1 });
    ops.push(HwOp::Write { addr: BIG_INT_CLR, value: 1 });
    ops.push(HwOp::Write { addr: BIG_INT_MASK, value: 0 });
    ops.push(HwOp::Write { addr: CPU1_EN, value: 1 });
    ops.push(HwOp::Write { addr: MBOX_SET, value: 1 });
    ops
}

/// Whether a message of the big core is pending.
pub open spec fn b2s_waiting(int_val: u32) -> bool {
    int_val & 2 != 0
}

/// Whether a message of the big core is pending.
pub fn b2s_pending(int_val: u32) -> (r: bool)
    ensures
        r == b2s_waiting(int_val),
{
    int_val & 2 != 0
}

/// Taking a message: the slot is emptied before the pending bit is cleared, and the enable word,
/// whose clearing tells the big core that it may send again, comes last. The word beside the
/// payload belongs to the heartbeat and is left alone.
pub open spec fn claim_script() -> Seq<HwOp> {
    seq![
        HwOp::Write { addr: CTX_B2S_PAYLOAD, value: 0 },
        HwOp::Write { addr: SMALL_INT_CLR, value: 2 },
        HwOp::Write { addr: CPU2_EN, value: 0 },
    ]
}

/// Claims a message of the big core: `int_val` are the pending slots, and `payload` is the word
/// that the slot held. `None` where none is pending; nothing is done then.
pub fn claim_b2s(int_val: u32, payload: u32) -> (r: Option<(u32, Vec<HwOp>)>)
    ensures
        r is Some <==> b2s_waiting(int_val),
        r matches Some((msg, ops)) ==> msg == payload && ops@ == claim_script(),
{
    if !b2s_pending(int_val) {
        return None;
    }
    let mut ops: Vec<HwOp> = Vec::new();
    ops.push(HwOp::Write { addr: CTX_B2S_PAYLOAD, value: 0 });
    ops.push(HwOp::Write { addr: SMALL_INT_CLR, value: 2 });
    ops.push(HwOp::Write { addr: CPU2_EN, value: 0 });
    Some((payload, ops))
}

/// The two directions never write the same register, so a message that is claimed while the main
/// loop rings the big core disturbs neither.
pub proof fn law_directions_lie_apart(payload0: u32, payload1: u32, i: int, j: int)
    requires
        0 <= i < doorbell_script(payload0, payload1).len(),
        0 <= j < claim_script().len(),
    ensures
        doorbell_script(payload0, payload1)[i]->Write_addr != claim_script()[j]->Write_addr,
        claim_script()[j]->Write_addr != CTX_B2S_AUX,
{
}

/// The big core is rung by slot 0: its two words are written, then the slot is cleared, let
/// through and enabled, and set last.
pub proof fn law_doorbell_is_set_last(payload0: u32, payload1: u32)
    ensures
        doorbell_script(payload0, payload1) =~= seq![
            HwOp::Write { addr: 0x0190_0400, value: payload0 },
            HwOp::Write { addr: 0x0190_0404, value: payload1 },
            HwOp::Write { addr: 0x0190_0020, value: 1 },
            HwOp::Write { addr: 0x0190_0024, value: 0 },
            HwOp::Write { addr: 0x0190_0004, value: 1 },
            HwOp::Write { addr: 0x0190_0060, value: 1 },
        ],
{
}

/// A message of the big core is taken from slot 1: the slot is emptied, its bit is cleared, and
/// the enable word is cleared last.
pub proof fn law_message_is_taken_in_order()
    ensures
        claim_script() =~= seq![
            HwOp::Write { addr: 0x0190_0408, value: 0 },
            HwOp::Write { addr: 0x0190_0030, value: 2 },
            HwOp::Write { addr: 0x0190_0008, value: 0 },
        ],
{
}

} // verus!
