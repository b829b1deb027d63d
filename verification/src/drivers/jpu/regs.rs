//! Registers of the JPEG unit, and its bring-up.

use crate::hw::HwOp;
use crate::platform::{JPU_REG_BASE, TOP_BASE, VC_REG_BASE};
use crate::registers::{field_mask, field_val, mask_of, placed};
use vstd::prelude::*;

verus! {

/// The bits that let the clock of the unit run.
pub const CLK_JPEG_ENABLE: u32 = 0x3300;

/// Written to the stream base once, to wake the unit up.
pub const JPU_WARMUP_BBC_BASE: u32 = 0x8026_C000;

/// Size of the buffer for streams.
pub const STREAM_BUF_SIZE: usize = 0x40000;

/// Most memory that a pool manages.
pub const JPU_DRAM_PHYSICAL_SIZE: usize = 0x0010_0000;

/// Size of a page.
pub const VMEM_PAGE_SIZE: usize = 16384;

/// Nanoseconds that the unit is given to fall idle.
pub const IDLE_NANOS: u64 = 10_000_000;

pub const HUFF_PHASE_MIN: u32 = 0x003;

pub const HUFF_PHASE_MAX: u32 = 0x403;

pub const HUFF_PHASE_PTR: u32 = 0x803;

pub const HUFF_PHASE_VAL: u32 = 0xC03;

pub const HUFF_ADDR_MAX: u32 = 0x440;

pub const HUFF_ADDR_PTR: u32 = 0x880;

pub const QMAT_PHASE_Y: u32 = 0x03;

pub const QMAT_PHASE_CB: u32 = 0x43;

pub const QMAT_PHASE_CR: u32 = 0x83;

pub const VC_ENABLE_BLOCKS: (u32, u32) = (0x1F, 0);

pub const PIC_START_START_PIC: (u32, u32) = (1, 0);

pub const PIC_START_START_INIT: (u32, u32) = (1, 1);

pub const PIC_STATUS_DONE: (u32, u32) = (1, 0);

pub const PIC_STATUS_ERROR: (u32, u32) = (1, 1);

pub const PIC_CTRL_USER_HUFF_TAB: (u32, u32) = (1, 6);

pub const PIC_CTRL_HUFF_DC_IDX: (u32, u32) = (7, 7);

pub const PIC_CTRL_HUFF_AC_IDX: (u32, u32) = (7, 10);

pub const PIC_SIZE_HEIGHT: (u32, u32) = (0xFFFF, 0);

pub const PIC_SIZE_WIDTH: (u32, u32) = (0xFFFF, 16);

pub const BBC_STRM_CTRL_PAGES: (u32, u32) = (0x7FFF_FFFF, 0);

pub const BBC_STRM_CTRL_END_FLAG: (u32, u32) = (1, 31);

pub const BBC_BUSY_BUSY: (u32, u32) = (1, 0);

pub const HUFF_CTRL_PHASE: (u32, u32) = (0xFFF, 0);

pub const QMAT_CTRL_PHASE: (u32, u32) = (0xFF, 0);

/// Reset of the unit, in the reset register of the chip.
pub const TOP_RST_JPEG: (u32, u32) = (1, 4);

pub const PIC_START: usize = JPU_REG_BASE;

pub const PIC_STATUS: usize = JPU_REG_BASE + 0x004;

pub const PIC_ERRMB: usize = JPU_REG_BASE + 0x008;

pub const PIC_CTRL: usize = JPU_REG_BASE + 0x010;

pub const PIC_SIZE: usize = JPU_REG_BASE + 0x014;

pub const MCU_INFO: usize = JPU_REG_BASE + 0x018;

pub const ROT_INFO: usize = JPU_REG_BASE + 0x01C;

pub const SCL_INFO: usize = JPU_REG_BASE + 0x020;

pub const CLP_INFO: usize = JPU_REG_BASE + 0x028;

pub const OP_INFO: usize = JPU_REG_BASE + 0x02C;

pub const DPB_CONFIG: usize = JPU_REG_BASE + 0x030;

pub const DPB_BASE_Y: usize = JPU_REG_BASE + 0x034;

pub const DPB_BASE_CB: usize = JPU_REG_BASE + 0x038;

pub const DPB_BASE_CR: usize = JPU_REG_BASE + 0x03C;

pub const DPB_YSTRIDE: usize = JPU_REG_BASE + 0x064;

pub const DPB_CSTRIDE: usize = JPU_REG_BASE + 0x068;

pub const HUFF_CTRL: usize = JPU_REG_BASE + 0x080;

pub const HUFF_ADDR: usize = JPU_REG_BASE + 0x084;

pub const HUFF_DATA: usize = JPU_REG_BASE + 0x088;

pub const QMAT_CTRL: usize = JPU_REG_BASE + 0x090;

pub const QMAT_DATA: usize = JPU_REG_BASE + 0x098;

pub const RST_INTVAL: usize = JPU_REG_BASE + 0x0B0;

pub const RST_INDEX: usize = JPU_REG_BASE + 0x0B4;

pub const RST_COUNT: usize = JPU_REG_BASE + 0x0B8;

pub const DPCM_DIFF_Y: usize = JPU_REG_BASE + 0x0F0;

pub const DPCM_DIFF_CB: usize = JPU_REG_BASE + 0x0F4;

pub const DPCM_DIFF_CR: usize = JPU_REG_BASE + 0x0F8;

pub const GBU_CTRL: usize = JPU_REG_BASE + 0x100;

pub const GBU_WD_PTR: usize = JPU_REG_BASE + 0x114;

pub const GBU_TT_CNT: usize = JPU_REG_BASE + 0x118;

pub const GBU_TT_CNT_H: usize = JPU_REG_BASE + 0x11C;

pub const GBU_BBSR: usize = JPU_REG_BASE + 0x140;

pub const GBU_BBER: usize = JPU_REG_BASE + 0x144;

pub const GBU_BBIR: usize = JPU_REG_BASE + 0x148;

pub const GBU_BBHR: usize = JPU_REG_BASE + 0x14C;

pub const GBU_FF_RPTR: usize = JPU_REG_BASE + 0x160;

pub const BBC_END_ADDR: usize = JPU_REG_BASE + 0x208;

pub const BBC_WR_PTR: usize = JPU_REG_BASE + 0x20C;

pub const BBC_RD_PTR: usize = JPU_REG_BASE + 0x210;

pub const BBC_EXT_ADDR: usize = JPU_REG_BASE + 0x214;

pub const BBC_INT_ADDR: usize = JPU_REG_BASE + 0x218;

pub const BBC_DATA_CNT: usize = JPU_REG_BASE + 0x21C;

pub const BBC_COMMAND: usize = JPU_REG_BASE + 0x220;

pub const BBC_BUSY: usize = JPU_REG_BASE + 0x224;

pub const BBC_CTRL: usize = JPU_REG_BASE + 0x228;

pub const BBC_CUR_POS: usize = JPU_REG_BASE + 0x22C;

pub const BBC_BAS_ADDR: usize = JPU_REG_BASE + 0x230;

pub const BBC_STRM_CTRL: usize = JPU_REG_BASE + 0x234;

/// Clock register of the unit.
pub const TOP_CLK_JPEG: usize = TOP_BASE + 0x2008;

/// Reset register of the chip.
pub const TOP_RST: usize = TOP_BASE + 0x3000;

/// Powering the codec blocks; the register is read back so that the write has arrived.
pub open spec fn vc_script() -> Seq<HwOp> {
    seq![
        HwOp::Modify {
            addr: VC_REG_BASE,
            mask: mask_of(VC_ENABLE_BLOCKS),
            value: placed(VC_ENABLE_BLOCKS, 0x1F),
        },
        HwOp::Read { addr: VC_REG_BASE },
    ]
}

/// Powers the codec blocks.
fn enable_vc_subblocks() -> (ops: Vec<HwOp>)
    ensures
        ops@ == vc_script(),
{
    let mut ops: Vec<HwOp> = Vec::new();
    ops.push(
        HwOp::Modify {
            addr: VC_REG_BASE,
            mask: field_mask(VC_ENABLE_BLOCKS),
            value: field_val(VC_ENABLE_BLOCKS, 0x1F),
        },
    );
    ops.push(HwOp::Read { addr: VC_REG_BASE });
    ops
}

/// Waiting until the stream reader is idle, or for 10 ms.
pub open spec fn bbc_idle_op() -> HwOp {
    HwOp::Wait {
        addr: BBC_BUSY,
        mask: mask_of(BBC_BUSY_BUSY),
        set: false,
        timeout_nanos: IDLE_NANOS,
    }
}

/// Waits until the stream reader is idle, or for 10 ms.
pub fn wait_bbc_idle() -> (op: HwOp)
    ensures
        op == bbc_idle_op(),
{
    HwOp::Wait {
        addr: BBC_BUSY,
        mask: field_mask(BBC_BUSY_BUSY),
        set: false,
        timeout_nanos: IDLE_NANOS,
    }
}

/// The bring-up: clock and reset, power, a first access, and a soft reset.
pub open spec fn hardware_init_script() -> Seq<HwOp> {
    seq![
        HwOp::Modify { addr: TOP_CLK_JPEG, mask: CLK_JPEG_ENABLE, value: CLK_JPEG_ENABLE },
        HwOp::Modify {
            addr: TOP_RST,
            mask: mask_of(TOP_RST_JPEG),
            value: placed(TOP_RST_JPEG, 1),
        },
    ] + vc_script() + seq![
        HwOp::Read { addr: PIC_STATUS },
        HwOp::Write { addr: BBC_BAS_ADDR, value: JPU_WARMUP_BBC_BASE },
        HwOp::Read { addr: BBC_BAS_ADDR },
        HwOp::Write { addr: PIC_START, value: placed(PIC_START_START_INIT, 1) },
        HwOp::Wait {
            addr: PIC_START,
            mask: mask_of(PIC_START_START_INIT),
            set: false,
            timeout_nanos: IDLE_NANOS,
        },
    ]
}

/// Brings the unit up. The address extension of the codec domain is left alone.
pub fn hardware_init() -> (ops: Vec<HwOp>)
    ensures
        ops@ == hardware_init_script(),
{
    let mut ops: Vec<HwOp> = Vec::new();
    ops.push(
        HwOp::Modify { addr: TOP_CLK_JPEG, mask: CLK_JPEG_ENABLE, value: CLK_JPEG_ENABLE },
    );
    ops.push(
        HwOp::Modify {
            addr: TOP_RST,
            mask: field_mask(TOP_RST_JPEG),
            value: field_val(TOP_RST_JPEG, 1),
        },
    );
    let mut vc: Vec<HwOp> = enable_vc_subblocks();
    ops.append(&mut vc);
    ops.push(HwOp::Read { addr: PIC_STATUS });
    ops.push(HwOp::Write { addr: BBC_BAS_ADDR, value: JPU_WARMUP_BBC_BASE });
    ops.push(HwOp::Read { addr: BBC_BAS_ADDR });
    ops.push(HwOp::Write { addr: PIC_START, value: field_val(PIC_START_START_INIT, 1) });
    ops.push(
        HwOp::Wait {
            addr: PIC_START,
            mask: field_mask(PIC_START_START_INIT),
            set: false,
            timeout_nanos: IDLE_NANOS,
        },
    );
    assert(ops@ =~= hardware_init_script());
    ops
}

/// A reset pulse: reset for 1 ms, then clock and release, 1 ms more, and power.
pub open spec fn hard_reset_script() -> Seq<HwOp> {
    seq![
        HwOp::Modify {
            addr: TOP_RST,
            mask: mask_of(TOP_RST_JPEG),
            value: placed(TOP_RST_JPEG, 0),
        },
        HwOp::Delay { nanos: 1_000_000 },
        HwOp::Write { addr: TOP_CLK_JPEG, value: CLK_JPEG_ENABLE },
        HwOp::Modify {
            addr: TOP_RST,
            mask: mask_of(TOP_RST_JPEG),
            value: placed(TOP_RST_JPEG, 1),
        },
        HwOp::Delay { nanos: 1_000_000 },
    ] + vc_script()
}

/// Resets a unit that hangs.
pub fn hard_reset() -> (ops: Vec<HwOp>)
    ensures
        ops@ == hard_reset_script(),
{
    let mut ops: Vec<HwOp> = Vec::new();
    ops.push(
        HwOp::Modify {
            addr: TOP_RST,
            mask: field_mask(TOP_RST_JPEG),
            value: field_val(TOP_RST_JPEG, 0),
        },
    );
    ops.push(HwOp::Delay { nanos: 1_000_000 });
    ops.push(HwOp::Write { addr: TOP_CLK_JPEG, value: CLK_JPEG_ENABLE });
    ops.push(
        HwOp::Modify {
            addr: TOP_RST,
            mask: field_mask(TOP_RST_JPEG),
            value: field_val(TOP_RST_JPEG, 1),
        },
    );
    ops.push(HwOp::Delay { nanos: 1_000_000 });
    let mut vc: Vec<HwOp> = enable_vc_subblocks();
    ops.append(&mut vc);
    ops
}

/// The unit is brought up by its clock and the release of its reset, bit 4, then the power of all
/// five codec blocks; it is touched for the first time, and an initialisation is started and
/// waited for. A unit that hangs is held in reset for a millisecond with its clock running, and
/// given one more.
pub proof fn law_unit_is_brought_up()
    ensures
        hardware_init_script() =~= seq![
            HwOp::Modify { addr: 0x0300_2008, mask: 0x3300, value: 0x3300 },
            HwOp::Modify { addr: 0x0300_3000, mask: 0x10, value: 0x10 },
            HwOp::Modify { addr: 0x0B03_0000, mask: 0x1f, value: 0x1f },
            HwOp::Read { addr: 0x0B03_0000 },
            HwOp::Read { addr: 0x0B00_0004 },
            HwOp::Write { addr: 0x0B00_0230, value: 0x8026_C000 },
            HwOp::Read { addr: 0x0B00_0230 },
            HwOp::Write { addr: 0x0B00_0000, value: 0x2 },
            HwOp::Wait {
                addr: 0x0B00_0000,
                mask: 0x2,
                set: false,
                timeout_nanos: 10_000_000,
            },
        ],
        hard_reset_script() =~= seq![
            HwOp::Modify { addr: 0x0300_3000, mask: 0x10, value: 0 },
            HwOp::Delay { nanos: 1_000_000 },
            HwOp::Write { addr: 0x0300_2008, value: 0x3300 },
            HwOp::Modify { addr: 0x0300_3000, mask: 0x10, value: 0x10 },
            HwOp::Delay { nanos: 1_000_000 },
            HwOp::Modify { addr: 0x0B03_0000, mask: 0x1f, value: 0x1f },
            HwOp::Read { addr: 0x0B03_0000 },
        ],
        bbc_idle_op() == (HwOp::Wait {
            addr: 0x0B00_0224,
            mask: 1,
            set: false,
            timeout_nanos: 10_000_000,
        }),
{
    assert(1u32 << 4u32 == 0x10 && (1u32 & 1) << 4u32 == 0x10 && (0u32 & 1) << 4u32 == 0 && 0x1Fu32
        << 0u32 == 0x1f && (0x1Fu32 & 0x1F) << 0u32 == 0x1f && 1u32 << 1u32 == 0x2 && (1u32 & 1)
        << 1u32 == 0x2 && 1u32 << 0u32 == 1) by (bit_vector);
}

} // verus!
