//! Bring-up of the controller, and its port.

use crate::drivers::usb::dwc2::cv182x::{
    cv182x_usb2_phy_host_clear_utmi_override, fifo_script, gahb_script, gusbcfg_op,
    init_gahb_dma_cv182x, init_gusbcfg_cv182x_utmi16_hs, init_host_fifos_cv182x, phy_script,
    HwConfig,
};
use crate::drivers::usb::dwc2::regs::{
    GINTMSK, GINTMSK_HCHINT, GINTSTS, GINTSTS_CURMODE_HOST, GOTGCTL, GOTGCTL_AVALOEN,
    GOTGCTL_AVALOVAL, GOTGCTL_DBNCE_FLTR_BYPASS, GOTGCTL_VBVALOEN, GOTGCTL_VBVALOVAL, GRSTCTL,
    GRSTCTL_AHBIDLE, GRSTCTL_CSFTRST, GRSTCTL_CSFTRST_DONE, GRSTCTL_RXFFLSH, GRSTCTL_TXFFLSH,
    GRSTCTL_TXFNUM, GSNPSID_VERSION, GUSBCFG, GUSBCFG_FORCEHOSTMODE, HAINTMSK, HCFG,
    HCFG_FSLSPCLKSEL, HCFG_FSLSSUPP, HPRT0, HPRT0_CONNDET, HPRT0_ENA, HPRT0_ENACHG,
    HPRT0_OVRCURCHG, HPRT0_PWR, HPRT0_RST, PCGCTL,
};
use crate::error::UsbError;
use crate::hw::HwOp;
use crate::registers::{field_mask, field_read, field_val, mask_of, merged, placed, taken};
use vstd::prelude::*;

verus! {

/// First version of the controller that reports the end of a soft reset.
pub const DWC2_CORE_REV_4_20A: u32 = 0x420a;

/// Rounds that the controller is given to answer.
pub const RESET_ITERS: u32 = 3_000_000;

pub const ERR_NOT_HOST: &'static str = "CURMODE_HOST not set after FORCEHOSTMODE";

/// Waiting until the bus side is idle.
pub open spec fn ahb_idle_op() -> HwOp {
    HwOp::Poll {
        addr: GRSTCTL,
        mask: mask_of(GRSTCTL_AHBIDLE),
        set: true,
        iters: RESET_ITERS,
        spin: 32,
        error: UsbError::Timeout,
    }
}

/// Waits until the bus side is idle.
fn wait_ahb_idle() -> (op: HwOp)
    ensures
        op == ahb_idle_op(),
{
    HwOp::Poll {
        addr: GRSTCTL,
        mask: field_mask(GRSTCTL_AHBIDLE),
        set: true,
        iters: RESET_ITERS,
        spin: 32,
        error: UsbError::Timeout,
    }
}

/// A soft reset: older controllers clear the request, newer ones report the end, which is
/// acknowledged.
pub open spec fn soft_reset_script(hw: HwConfig) -> Seq<HwOp> {
    let start = seq![
        ahb_idle_op(),
        HwOp::Modify {
            addr: GRSTCTL,
            mask: mask_of(GRSTCTL_CSFTRST),
            value: placed(GRSTCTL_CSFTRST, 1),
        },
    ];
    if taken(GSNPSID_VERSION, hw.gsnpsid) >= DWC2_CORE_REV_4_20A {
        start + seq![
            HwOp::Poll {
                addr: GRSTCTL,
                mask: mask_of(GRSTCTL_CSFTRST_DONE),
                set: true,
                iters: RESET_ITERS,
                spin: 32,
                error: UsbError::Timeout,
            },
            HwOp::Modify {
                addr: GRSTCTL,
                mask: mask_of(GRSTCTL_CSFTRST) | mask_of(GRSTCTL_CSFTRST_DONE),
                value: placed(GRSTCTL_CSFTRST, 0) | placed(GRSTCTL_CSFTRST_DONE, 1),
            },
            HwOp::Spin { iters: 4096 },
        ]
    } else {
        start + seq![
            HwOp::Poll {
                addr: GRSTCTL,
                mask: mask_of(GRSTCTL_CSFTRST),
                set: false,
                iters: RESET_ITERS,
                spin: 32,
                error: UsbError::Timeout,
            },
            HwOp::Spin { iters: 4096 },
        ]
    }
}

/// Resets the controller.
fn core_soft_reset(hw: &HwConfig) -> (ops: Vec<HwOp>)
    ensures
        ops@ == soft_reset_script(*hw),
{
    let mut ops: Vec<HwOp> = Vec::new();
    ops.push(wait_ahb_idle());
    ops.push(
        HwOp::Modify {
            addr: GRSTCTL,
            mask: field_mask(GRSTCTL_CSFTRST),
            value: field_val(GRSTCTL_CSFTRST, 1),
        },
    );
    if field_read(GSNPSID_VERSION, hw.gsnpsid) >= DWC2_CORE_REV_4_20A {
        ops.push(
            HwOp::Poll {
                addr: GRSTCTL,
                mask: field_mask(GRSTCTL_CSFTRST_DONE),
                set: true,
                iters: RESET_ITERS,
                spin: 32,
                error: UsbError::Timeout,
            },
        );
        ops.push(
            HwOp::Modify {
                addr: GRSTCTL,
                mask: field_mask(GRSTCTL_CSFTRST) | field_mask(GRSTCTL_CSFTRST_DONE),
                value: field_val(GRSTCTL_CSFTRST, 0) | field_val(GRSTCTL_CSFTRST_DONE, 1),
            },
        );
    } else {
        ops.push(
            HwOp::Poll {
                addr: GRSTCTL,
                mask: field_mask(GRSTCTL_CSFTRST),
                set: false,
                iters: RESET_ITERS,
                spin: 32,
                error: UsbError::Timeout,
            },
        );
    }
    ops.push(HwOp::Spin { iters: 4096 });
    assert(ops@ =~= soft_reset_script(*hw));
    ops
}

/// Forcing host mode.
pub open spec fn force_host_script() -> Seq<HwOp> {
    seq![
        HwOp::Modify {
            addr: GUSBCFG,
            mask: mask_of(GUSBCFG_FORCEHOSTMODE),
            value: placed(GUSBCFG_FORCEHOSTMODE, 1),
        },
        HwOp::Spin { iters: 100_000 },
        HwOp::Poll {
            addr: GINTSTS,
            mask: mask_of(GINTSTS_CURMODE_HOST),
            set: true,
            iters: 500_000,
            spin: 32,
            error: UsbError::Hardware(ERR_NOT_HOST),
        },
    ]
}

/// Forces host mode.
fn force_host_mode() -> (ops: Vec<HwOp>)
    ensures
        ops@ == force_host_script(),
{
    let mut ops: Vec<HwOp> = Vec::new();
    ops.push(
        HwOp::Modify {
            addr: GUSBCFG,
            mask: field_mask(GUSBCFG_FORCEHOSTMODE),
            value: field_val(GUSBCFG_FORCEHOSTMODE, 1),
        },
    );
    ops.push(HwOp::Spin { iters: 100_000 });
    ops.push(
        HwOp::Poll {
            addr: GINTSTS,
            mask: field_mask(GINTSTS_CURMODE_HOST),
            set: true,
            iters: 500_000,
            spin: 32,
            error: UsbError::Hardware(ERR_NOT_HOST),
        },
    );
    ops
}

/// Overriding the session signals so that the port is powered.
pub open spec fn session_script() -> Seq<HwOp> {
    seq![
        HwOp::Modify {
            addr: GOTGCTL,
            mask: mask_of(GOTGCTL_DBNCE_FLTR_BYPASS) | mask_of(GOTGCTL_AVALOEN) | mask_of(
                GOTGCTL_AVALOVAL,
            ) | mask_of(GOTGCTL_VBVALOEN) | mask_of(GOTGCTL_VBVALOVAL),
            value: placed(GOTGCTL_DBNCE_FLTR_BYPASS, 1) | placed(GOTGCTL_AVALOEN, 1) | placed(
                GOTGCTL_AVALOVAL,
                1,
            ) | placed(GOTGCTL_VBVALOEN, 1) | placed(GOTGCTL_VBVALOVAL, 1),
        },
        HwOp::Spin { iters: 200_000 },
    ]
}

/// Overrides the session signals.
fn init_gotgctl_otg_host_session_overrides() -> (ops: Vec<HwOp>)
    ensures
        ops@ == session_script(),
{
    let mut ops: Vec<HwOp> = Vec::new();
    ops.push(
        HwOp::Modify {
            addr: GOTGCTL,
            mask: field_mask(GOTGCTL_DBNCE_FLTR_BYPASS) | field_mask(GOTGCTL_AVALOEN)
                | field_mask(GOTGCTL_AVALOVAL) | field_mask(GOTGCTL_VBVALOEN) | field_mask(
                GOTGCTL_VBVALOVAL,
            ),
            value: field_val(GOTGCTL_DBNCE_FLTR_BYPASS, 1) | field_val(GOTGCTL_AVALOEN, 1)
                | field_val(GOTGCTL_AVALOVAL, 1) | field_val(GOTGCTL_VBVALOEN, 1) | field_val(
                GOTGCTL_VBVALOVAL,
                1,
            ),
        },
    );
    ops.push(HwOp::Spin { iters: 200_000 });
    ops
}

/// Flushing queues: start, then wait until the request is cleared.
pub open spec fn flush_script(start: u32, busy: u32) -> Seq<HwOp> {
    seq![
        ahb_idle_op(),
        HwOp::Write { addr: GRSTCTL, value: start },
        HwOp::Poll {
            addr: GRSTCTL,
            mask: busy,
            set: false,
            iters: RESET_ITERS,
            spin: 8,
            error: UsbError::Timeout,
        },
        HwOp::Spin { iters: 64 },
        HwOp::Spin { iters: 2_000 },
    ]
}

/// Flushes queues.
fn flush(start: u32, busy: u32) -> (ops: Vec<HwOp>)
    ensures
        ops@ == flush_script(start, busy),
{
    let mut ops: Vec<HwOp> = Vec::new();
    ops.push(wait_ahb_idle());
    ops.push(HwOp::Write { addr: GRSTCTL, value: start });
    ops.push(
        HwOp::Poll {
            addr: GRSTCTL,
            mask: busy,
            set: false,
            iters: RESET_ITERS,
            spin: 8,
            error: UsbError::Timeout,
        },
    );
    ops.push(HwOp::Spin { iters: 64 });
    ops.push(HwOp::Spin { iters: 2_000 });
    ops
}

/// The bring-up: no interrupts, reset, host mode, reset again, session, PHY, bus, queues, then
/// the interrupts of both channels.
pub open spec fn host_init_script(hw: HwConfig) -> Seq<HwOp> {
    seq![
        HwOp::Write { addr: GINTMSK, value: 0 },
        HwOp::Write { addr: GINTSTS, value: 0xFFFF_FFFF },
    ] + soft_reset_script(hw) + force_host_script() + soft_reset_script(hw) + session_script()
        + seq![gusbcfg_op(hw), HwOp::Write { addr: PCGCTL, value: 0 }] + gahb_script(hw) + seq![
        HwOp::Modify {
            addr: HCFG,
            mask: mask_of(HCFG_FSLSSUPP) | mask_of(HCFG_FSLSPCLKSEL),
            value: placed(HCFG_FSLSSUPP, 0) | placed(HCFG_FSLSPCLKSEL, 0),
        },
    ] + fifo_script(hw) + flush_script(
        placed(GRSTCTL_TXFFLSH, 1) | placed(GRSTCTL_TXFNUM, 0x10),
        mask_of(GRSTCTL_TXFFLSH),
    ) + flush_script(placed(GRSTCTL_RXFFLSH, 1), mask_of(GRSTCTL_RXFFLSH)) + seq![
        HwOp::Write { addr: HAINTMSK, value: 3 },
        HwOp::Modify {
            addr: GINTMSK,
            mask: mask_of(GINTMSK_HCHINT),
            value: placed(GINTMSK_HCHINT, 1),
        },
        HwOp::Write { addr: GINTSTS, value: 0xFFFF_FFFF },
    ] + phy_script()
}

/// Brings the controller up as a host. The port is powered, and the bus reset, later.
pub fn dwc2_host_init(hw: &HwConfig) -> (ops: Vec<HwOp>)
    ensures
        ops@ == host_init_script(*hw),
{
    let mut ops: Vec<HwOp> = Vec::new();
    ops.push(HwOp::Write { addr: GINTMSK, value: 0 });
    ops.push(HwOp::Write { addr: GINTSTS, value: 0xFFFF_FFFF });
    let mut part: Vec<HwOp> = core_soft_reset(hw);
    ops.append(&mut part);
    part = force_host_mode();
    ops.append(&mut part);
    part = core_soft_reset(hw);
    ops.append(&mut part);
    part = init_gotgctl_otg_host_session_overrides();
    ops.append(&mut part);
    ops.push(init_gusbcfg_cv182x_utmi16_hs(hw));
    ops.push(HwOp::Write { addr: PCGCTL, value: 0 });
    part = init_gahb_dma_cv182x(hw);
    ops.append(&mut part);
    ops.push(
        HwOp::Modify {
            addr: HCFG,
            mask: field_mask(HCFG_FSLSSUPP) | field_mask(HCFG_FSLSPCLKSEL),
            value: field_val(HCFG_FSLSSUPP, 0) | field_val(HCFG_FSLSPCLKSEL, 0),
        },
    );
    part = init_host_fifos_cv182x(hw);
    ops.append(&mut part);
    part =
    flush(
        field_val(GRSTCTL_TXFFLSH, 1) | field_val(GRSTCTL_TXFNUM, 0x10),
        field_mask(GRSTCTL_TXFFLSH),
    );
    ops.append(&mut part);
    part = flush(field_val(GRSTCTL_RXFFLSH, 1), field_mask(GRSTCTL_RXFFLSH));
    ops.append(&mut part);
    ops.push(HwOp::Write { addr: HAINTMSK, value: 3 });
    ops.push(
        HwOp::Modify {
            addr: GINTMSK,
            mask: field_mask(GINTMSK_HCHINT),
            value: field_val(GINTMSK_HCHINT, 1),
        },
    );
    ops.push(HwOp::Write { addr: GINTSTS, value: 0xFFFF_FFFF });
    part = cv182x_usb2_phy_host_clear_utmi_override();
    ops.append(&mut part);
    assert(ops@ =~= host_init_script(*hw));
    ops
}

/// 1 for true, 0 for false.
pub open spec fn flag(b: bool) -> u32 {
    if b {
        1
    } else {
        0
    }
}

/// Setting power and reset of the port. Bits that are cleared by writing 1 to them are written as
/// 0.
pub open spec fn port_op(pwr: bool, rst: bool) -> HwOp {
    HwOp::Modify {
        addr: HPRT0,
        mask: mask_of(HPRT0_PWR) | mask_of(HPRT0_RST) | mask_of(HPRT0_CONNDET) | mask_of(
            HPRT0_ENA,
        ) | mask_of(HPRT0_ENACHG) | mask_of(HPRT0_OVRCURCHG),
        value: placed(HPRT0_PWR, flag(pwr)) | placed(HPRT0_RST, flag(rst)) | placed(
            HPRT0_CONNDET,
            0,
        ) | placed(HPRT0_ENA, 0) | placed(HPRT0_ENACHG, 0) | placed(HPRT0_OVRCURCHG, 0),
    }
}

/// Sets power and reset of the port.
pub fn hprt0_port(pwr: bool, rst: bool) -> (op: HwOp)
    ensures
        op == port_op(pwr, rst),
{
    let p: u32 = if pwr {
        1
    } else {
        0
    };
    let r: u32 = if rst {
        1
    } else {
        0
    };
    HwOp::Modify {
        addr: HPRT0,
        mask: field_mask(HPRT0_PWR) | field_mask(HPRT0_RST) | field_mask(HPRT0_CONNDET)
            | field_mask(HPRT0_ENA) | field_mask(HPRT0_ENACHG) | field_mask(HPRT0_OVRCURCHG),
        value: field_val(HPRT0_PWR, p) | field_val(HPRT0_RST, r) | field_val(HPRT0_CONNDET, 0)
            | field_val(HPRT0_ENA, 0) | field_val(HPRT0_ENACHG, 0) | field_val(
            HPRT0_OVRCURCHG,
            0,
        ),
    }
}

/// Whatever the port register holds, setting power and reset writes them as asked, writes 0 to
/// every bit that writing 1 would clear (so the port is never disabled by accident), and leaves
/// all other bits as they are.
pub proof fn law_port_write_is_safe(old: u32, pwr: bool, rst: bool)
    ensures
        port_op(pwr, rst) matches HwOp::Modify { addr, mask, value } && {
            let new = merged(old, mask, value);
            &&& new & 0x2e == 0
            &&& (new & 0x1000 != 0) == pwr
            &&& (new & 0x100 != 0) == rst
            &&& new & !0x112eu32 == old & !0x112eu32
        },
{
    let p = flag(pwr);
    let r = flag(rst);
    let mask = (1u32 << 12u32) | (1u32 << 8u32) | (1u32 << 1u32) | (1u32 << 2u32) | (1u32 << 3u32)
        | (1u32 << 5u32);
    let value = ((p & 1) << 12u32) | ((r & 1) << 8u32) | ((0u32 & 1) << 1u32) | ((0u32 & 1)
        << 2u32) | ((0u32 & 1) << 3u32) | ((0u32 & 1) << 5u32);
    let new = (old & !mask) | value;
    assert(new & 0x2e == 0 && (new & 0x1000 != 0) == (p == 1) && (new & 0x100 != 0) == (r == 1)
        && new & !0x112eu32 == old & !0x112eu32) by (bit_vector)
        requires
            p <= 1,
            r <= 1,
            mask == (1u32 << 12u32) | (1u32 << 8u32) | (1u32 << 1u32) | (1u32 << 2u32) | (1u32
                << 3u32) | (1u32 << 5u32),
            value == ((p & 1) << 12u32) | ((r & 1) << 8u32) | ((0u32 & 1) << 1u32) | ((0u32 & 1)
                << 2u32) | ((0u32 & 1) << 3u32) | ((0u32 & 1) << 5u32),
            new == (old & !mask) | value,
    ;
}

/// Clearing a change of connection, where there is one: that bit is written as 1, and the other
/// bits that are cleared by writing 1 to them as 0.
pub open spec fn conndet_op() -> HwOp {
    HwOp::ModifyIfSet {
        addr: HPRT0,
        test: mask_of(HPRT0_CONNDET),
        mask: mask_of(HPRT0_CONNDET) | mask_of(HPRT0_ENA) | mask_of(HPRT0_ENACHG) | mask_of(
            HPRT0_OVRCURCHG,
        ),
        value: placed(HPRT0_CONNDET, 1) | placed(HPRT0_ENA, 0) | placed(HPRT0_ENACHG, 0) | placed(
            HPRT0_OVRCURCHG,
            0,
        ),
    }
}

/// Clears a change of connection.
pub fn hprt0_clear_conndet() -> (op: HwOp)
    ensures
        op == conndet_op(),
{
    HwOp::ModifyIfSet {
        addr: HPRT0,
        test: field_mask(HPRT0_CONNDET),
        mask: field_mask(HPRT0_CONNDET) | field_mask(HPRT0_ENA) | field_mask(HPRT0_ENACHG)
            | field_mask(HPRT0_OVRCURCHG),
        value: field_val(HPRT0_CONNDET, 1) | field_val(HPRT0_ENA, 0) | field_val(HPRT0_ENACHG, 0)
            | field_val(HPRT0_OVRCURCHG, 0),
    }
}

/// Whatever the port register holds, clearing a change of connection happens where there is one,
/// writes 1 to no other bit that this would clear (so the port is never disabled by accident),
/// and leaves all other bits as they are.
pub proof fn law_conndet_write_is_safe(old: u32)
    ensures
        conndet_op() matches HwOp::ModifyIfSet { addr, test, mask, value } && {
            let new = merged(old, mask, value);
            &&& test == 0x2
            &&& new & 0x2e == 0x2
            &&& new & !0x2eu32 == old & !0x2eu32
        },
{
    let test = 1u32 << 1u32;
    let mask = (1u32 << 1u32) | (1u32 << 2u32) | (1u32 << 3u32) | (1u32 << 5u32);
    let value = ((1u32 & 1) << 1u32) | ((0u32 & 1) << 2u32) | ((0u32 & 1) << 3u32) | ((0u32 & 1)
        << 5u32);
    let new = (old & !mask) | value;
    assert(test == 0x2 && new & 0x2e == 0x2 && new & !0x2eu32 == old & !0x2eu32) by (bit_vector)
        requires
            test == 1u32 << 1u32,
            mask == (1u32 << 1u32) | (1u32 << 2u32) | (1u32 << 3u32) | (1u32 << 5u32),
            value == ((1u32 & 1) << 1u32) | ((0u32 & 1) << 2u32) | ((0u32 & 1) << 3u32) | ((0u32
                & 1) << 5u32),
            new == (old & !mask) | value,
    ;
}

/// A reset of the bus: 60 ms of reset, then 80 ms to recover.
pub open spec fn reset_pulse_script() -> Seq<HwOp> {
    seq![
        port_op(true, true),
        HwOp::Delay { nanos: 60_000_000 },
        port_op(true, false),
        HwOp::Delay { nanos: 80_000_000 },
    ]
}

/// Resets the bus; a device must be connected.
pub fn port_reset_pulse() -> (ops: Vec<HwOp>)
    ensures
        ops@ == reset_pulse_script(),
{
    let mut ops: Vec<HwOp> = Vec::new();
    ops.push(hprt0_port(true, true));
    ops.push(HwOp::Delay { nanos: 60_000_000 });
    ops.push(hprt0_port(true, false));
    ops.push(HwOp::Delay { nanos: 80_000_000 });
    ops
}

} // verus!
