//! What is particular to the controller of this SoC.

use crate::drivers::usb::dwc2::regs::{
    GAHBCFG, GAHBCFG_DMA_EN, GAHBCFG_GLBL_INTR_EN, GAHBCFG_HBSTLEN, GDFIFOCFG,
    GDFIFOCFG_EPINFOBASE, GHWCFG2_ARCH, GHWCFG2_NUM_HOST_CHAN, GHWCFG3_DFIFO_DEPTH,
    GHWCFG4_DED_FIFO_EN, GHWCFG4_UTMI_PHY_DATA_WIDTH, GNPTXFSIZ, GNPTXFSIZ_NPTXFDEP,
    GNPTXFSIZ_NPTXFSTADDR, GRXFSIZ, GRXFSIZ_RXFDEP, GSNPSID_VERSION, GUSBCFG,
    GUSBCFG_FORCEHOSTMODE, GUSBCFG_PHYIF16, GUSBCFG_TOUTCAL, GUSBCFG_ULPI_UTMI_SEL, HPTXFSIZ,
    HPTXFSIZ_PTXFDEP, HPTXFSIZ_PTXFSTADDR,
};
use crate::hw::HwOp;
use crate::platform::CV182X_USB2_PHY_BASE;
use crate::registers::{
    any_set, field_is_set, field_mask, field_read, field_val, mask_of, placed, taken,
};
use vstd::prelude::*;

verus! {

/// First version of the controller that is told where endpoint information begins.
pub const DWC2_CORE_REV_2_91A: u32 = 0x291a;

/// Length of bursts on the bus.
pub const HBSTLEN_INCR16: u32 = 7;

/// The register of the PHY that overrides the signals of the controller.
pub const PHY_REG014: usize = CV182X_USB2_PHY_BASE + 0x14;

/// Registers that say what the controller can do; they never change.
#[derive(Clone, Copy, Debug, PartialEq, Eq, Structural)]
pub struct HwConfig {
    pub gsnpsid: u32,
    pub ghwcfg2: u32,
    pub ghwcfg3: u32,
    pub ghwcfg4: u32,
}

/// Depths of the receive, non-periodic and periodic queues.
#[derive(Clone, Copy, Debug, PartialEq, Eq, Structural)]
pub struct FifoSizes {
    pub rx: u32,
    pub nptx: u32,
    pub ptx: u32,
}

/// The depths for a memory of `total` words and `hc` channels: the usual ones where they fit,
/// else a leaner split whose periodic queue takes what is left.
pub open spec fn fifo_sizes(total: u32, hc: u32) -> FifoSizes {
    if 536 + 32 + 768 <= total {
        FifoSizes { rx: 536, nptx: 32, ptx: 768 }
    } else if 516 + hc + 256 + 768 <= total {
        FifoSizes { rx: (516 + hc) as u32, nptx: 256, ptx: 768 }
    } else {
        FifoSizes {
            rx: (516 + hc) as u32,
            nptx: 256,
            ptx: if 516 + hc + 256 <= total {
                (total - 516 - hc - 256) as u32
            } else {
                0
            },
        }
    }
}

/// Computes the depths of the queues.
pub fn dynamic_fifo(total: u32, hc: u32) -> (r: FifoSizes)
    requires
        516 + hc <= u32::MAX,
    ensures
        r == fifo_sizes(total, hc),
{
    let mut rx: u32 = 536;
    let mut nptx: u32 = 32;
    let mut ptx: u32 = 768;
    if rx.saturating_add(nptx).saturating_add(ptx) > total {
        rx = 516 + hc;
        nptx = 256;
        ptx = 768;
    }
    let sum: u32 = rx.saturating_add(nptx).saturating_add(ptx);
    if sum > total {
        ptx = total.saturating_sub(rx).saturating_sub(nptx);
    }
    FifoSizes { rx, nptx, ptx }
}

/// The queues fit the memory, wherever the receive and the non-periodic queue do.
pub proof fn law_fifos_fit(total: u32, hc: u32)
    requires
        516 + hc + 256 <= total || 536 + 32 + 768 <= total,
    ensures
        ({
            let f = fifo_sizes(total, hc);
            f.rx + f.nptx + f.ptx <= total
        }),
{
}

/// Setting up the queues one behind the other.
pub open spec fn fifo_script(hw: HwConfig) -> Seq<HwOp> {
    let f = fifo_sizes(
        taken(GHWCFG3_DFIFO_DEPTH, hw.ghwcfg3),
        (1 + taken(GHWCFG2_NUM_HOST_CHAN, hw.ghwcfg2)) as u32,
    );
    let base = seq![
        HwOp::Write { addr: GRXFSIZ, value: placed(GRXFSIZ_RXFDEP, f.rx) },
        HwOp::Write {
            addr: GNPTXFSIZ,
            value: placed(GNPTXFSIZ_NPTXFDEP, f.nptx) | placed(GNPTXFSIZ_NPTXFSTADDR, f.rx),
        },
        HwOp::Write {
            addr: HPTXFSIZ,
            value: placed(HPTXFSIZ_PTXFDEP, f.ptx) | placed(
                HPTXFSIZ_PTXFSTADDR,
                (f.rx + f.nptx) as u32,
            ),
        },
    ];
    if any_set(GHWCFG4_DED_FIFO_EN, hw.ghwcfg4) && taken(GSNPSID_VERSION, hw.gsnpsid)
        >= DWC2_CORE_REV_2_91A {
        base.push(
            HwOp::Modify {
                addr: GDFIFOCFG,
                mask: mask_of(GDFIFOCFG_EPINFOBASE),
                value: placed(
                    GDFIFOCFG_EPINFOBASE,
                    ((f.rx + f.nptx + f.ptx) % 0x1_0000_0000) as u32,
                ),
            },
        )
    } else {
        base
    }
}

/// Sets up the queues.
pub fn init_host_fifos_cv182x(hw: &HwConfig) -> (ops: Vec<HwOp>)
    ensures
        ops@ == fifo_script(*hw),
{
    let total: u32 = field_read(GHWCFG3_DFIFO_DEPTH, hw.ghwcfg3);
    let chans: u32 = field_read(GHWCFG2_NUM_HOST_CHAN, hw.ghwcfg2);
    let raw: u32 = hw.ghwcfg2;
    proof {
        assert((raw & (0xFu32 << 14u32)) >> 14u32 <= 15) by (bit_vector);
    }
    let f: FifoSizes = dynamic_fifo(total, 1 + chans);
    let mut ops: Vec<HwOp> = Vec::new();
    ops.push(HwOp::Write { addr: GRXFSIZ, value: field_val(GRXFSIZ_RXFDEP, f.rx) });
    ops.push(
        HwOp::Write {
            addr: GNPTXFSIZ,
            value: field_val(GNPTXFSIZ_NPTXFDEP, f.nptx) | field_val(GNPTXFSIZ_NPTXFSTADDR, f.rx),
        },
    );
    ops.push(
        HwOp::Write {
            addr: HPTXFSIZ,
            value: field_val(HPTXFSIZ_PTXFDEP, f.ptx) | field_val(
                HPTXFSIZ_PTXFSTADDR,
                f.rx + f.nptx,
            ),
        },
    );
    if field_is_set(GHWCFG4_DED_FIFO_EN, hw.ghwcfg4) && field_read(GSNPSID_VERSION, hw.gsnpsid)
        >= DWC2_CORE_REV_2_91A {
        let epbase: u32 = f.rx.wrapping_add(f.nptx).wrapping_add(f.ptx);
        ops.push(
            HwOp::Modify {
                addr: GDFIFOCFG,
                mask: field_mask(GDFIFOCFG_EPINFOBASE),
                value: field_val(GDFIFOCFG_EPINFOBASE, epbase),
            },
        );
    }
    ops
}

/// The interface to the PHY: host mode stays forced, and the data width follows what the
/// controller reports.
pub open spec fn gusbcfg_op(hw: HwConfig) -> HwOp {
    HwOp::Modify {
        addr: GUSBCFG,
        mask: mask_of(GUSBCFG_FORCEHOSTMODE) | mask_of(GUSBCFG_ULPI_UTMI_SEL) | mask_of(
            GUSBCFG_TOUTCAL,
        ) | mask_of(GUSBCFG_PHYIF16),
        value: placed(GUSBCFG_FORCEHOSTMODE, 1) | placed(GUSBCFG_ULPI_UTMI_SEL, 0) | placed(
            GUSBCFG_TOUTCAL,
            7,
        ) | placed(
            GUSBCFG_PHYIF16,
            if taken(GHWCFG4_UTMI_PHY_DATA_WIDTH, hw.ghwcfg4) == 1 {
                1
            } else {
                0
            },
        ),
    }
}

/// Sets up the interface to the PHY; it is 16 bits wide only where nothing else is possible.
pub fn init_gusbcfg_cv182x_utmi16_hs(hw: &HwConfig) -> (op: HwOp)
    ensures
        op == gusbcfg_op(*hw),
{
    let want_16bit: bool = field_read(GHWCFG4_UTMI_PHY_DATA_WIDTH, hw.ghwcfg4) == 1;
    HwOp::Modify {
        addr: GUSBCFG,
        mask: field_mask(GUSBCFG_FORCEHOSTMODE) | field_mask(GUSBCFG_ULPI_UTMI_SEL) | field_mask(
            GUSBCFG_TOUTCAL,
        ) | field_mask(GUSBCFG_PHYIF16),
        value: field_val(GUSBCFG_FORCEHOSTMODE, 1) | field_val(GUSBCFG_ULPI_UTMI_SEL, 0)
            | field_val(GUSBCFG_TOUTCAL, 7) | field_val(
            GUSBCFG_PHYIF16,
            if want_16bit {
                1
            } else {
                0
            },
        ),
    }
}

/// Bus bursts and the global interrupt; DMA where the controller has it.
pub open spec fn gahb_script(hw: HwConfig) -> Seq<HwOp> {
    let base = seq![
        HwOp::Modify {
            addr: GAHBCFG,
            mask: mask_of(GAHBCFG_HBSTLEN) | mask_of(GAHBCFG_GLBL_INTR_EN),
            value: placed(GAHBCFG_HBSTLEN, HBSTLEN_INCR16) | placed(GAHBCFG_GLBL_INTR_EN, 1),
        },
    ];
    if taken(GHWCFG2_ARCH, hw.ghwcfg2) == 2 {
        base.push(
            HwOp::Modify {
                addr: GAHBCFG,
                mask: mask_of(GAHBCFG_DMA_EN),
                value: placed(GAHBCFG_DMA_EN, 1),
            },
        )
    } else {
        base
    }
}

/// Sets up the bus side of the controller.
pub fn init_gahb_dma_cv182x(hw: &HwConfig) -> (ops: Vec<HwOp>)
    ensures
        ops@ == gahb_script(*hw),
{
    let mut ops: Vec<HwOp> = Vec::new();
    ops.push(
        HwOp::Modify {
            addr: GAHBCFG,
            mask: field_mask(GAHBCFG_HBSTLEN) | field_mask(GAHBCFG_GLBL_INTR_EN),
            value: field_val(GAHBCFG_HBSTLEN, HBSTLEN_INCR16) | field_val(
                GAHBCFG_GLBL_INTR_EN,
                1,
            ),
        },
    );
    if field_read(GHWCFG2_ARCH, hw.ghwcfg2) == 2 {
        ops.push(
            HwOp::Modify {
                addr: GAHBCFG,
                mask: field_mask(GAHBCFG_DMA_EN),
                value: field_val(GAHBCFG_DMA_EN, 1),
            },
        );
    }
    ops
}

/// Giving the signals of the PHY back to the controller.
pub open spec fn phy_script() -> Seq<HwOp> {
    seq![
        HwOp::Read { addr: PHY_REG014 },
        HwOp::Write { addr: PHY_REG014, value: 0 },
        HwOp::Spin { iters: 200_000 },
        HwOp::Read { addr: PHY_REG014 },
    ]
}

/// Gives the signals of the PHY back to the controller.
pub fn cv182x_usb2_phy_host_clear_utmi_override() -> (ops: Vec<HwOp>)
    ensures
        ops@ == phy_script(),
{
    let mut ops: Vec<HwOp> = Vec::new();
    ops.push(HwOp::Read { addr: PHY_REG014 });
    ops.push(HwOp::Write { addr: PHY_REG014, value: 0 });
    ops.push(HwOp::Spin { iters: 200_000 });
    ops.push(HwOp::Read { addr: PHY_REG014 });
    ops
}

} // verus!
