//! The hub that the controller itself is: one port, and registers in place of requests.

use crate::drivers::usb::dwc2::controller::{
    conndet_op, hprt0_clear_conndet, hprt0_port, port_op, port_reset_pulse, reset_pulse_script,
};
use crate::drivers::usb::dwc2::regs::{
    HPRT0, HPRT0_CONNSTS, HPRT0_ENA, HPRT0_RST, HPRT0_SPD,
};
use crate::drivers::usb::hub::{
    connected, port_enabled, speed_of, Hub, PortAction, PortActionView, PortSpeed, StatusSource,
    StatusSourceView, W0_CONNECTION, W0_ENABLE, W0_RESET,
};
use crate::drivers::usb::topology::{BusAction, BusWalk, WalkMode};
use crate::hw::HwOp;
use crate::registers::{any_set, field_is_set, field_read, taken};
use vstd::prelude::*;

verus! {

/// The hub that the controller is.
#[derive(Clone, Copy, Debug, PartialEq, Eq, Structural)]
pub struct RootHub;

/// The speed of the port as hubs show it: the controller counts from high speed down, hubs from
/// full speed over low speed to high speed.
pub open spec fn speed_bits(spd: u32) -> int {
    if spd == 0 {
        2
    } else if spd == 1 {
        0
    } else {
        1
    }
}

/// The port status that a port register stands for.
pub open spec fn root_status(raw: u32) -> u16 {
    ((if any_set(HPRT0_CONNSTS, raw) {
        1int
    } else {
        0
    }) + (if any_set(HPRT0_ENA, raw) {
        2int
    } else {
        0
    }) + (if any_set(HPRT0_RST, raw) {
        16int
    } else {
        0
    }) + 512 * speed_bits(taken(HPRT0_SPD, raw))) as u16
}

impl RootHub {
    /// The port status that a port register stands for.
    pub fn status_register(raw: u32) -> (r: u16)
        ensures
            r == root_status(raw),
    {
        let mut w0: u16 = 0;
        if field_is_set(HPRT0_CONNSTS, raw) {
            w0 = w0 + W0_CONNECTION;
        }
        if field_is_set(HPRT0_ENA, raw) {
            w0 = w0 + W0_ENABLE;
        }
        if field_is_set(HPRT0_RST, raw) {
            w0 = w0 + W0_RESET;
        }
        let spd: u32 = field_read(HPRT0_SPD, raw);
        let bits: u16 = if spd == 0 {
            2
        } else if spd == 1 {
            0
        } else {
            1
        };
        w0 + 512 * bits
    }

    /// Begins the walk over the bus: every device that a driver takes is handed to it.
    pub fn enumerate_bus(&self) -> (r: (BusWalk, BusAction))
        ensures
            r.0.wf(),
            r.0@ == BusWalk::start(WalkMode::Probe),
            r.1 == BusWalk::first_action(),
    {
        BusWalk::new(WalkMode::Probe)
    }
}

impl Hub for RootHub {
    open spec fn ports(&self) -> u8 {
        1
    }

    open spec fn powering(&self, port: u8) -> PortActionView {
        PortActionView::Script { ops: seq![port_op(true, false)] }
    }

    open spec fn status_from(&self, port: u8) -> StatusSourceView {
        StatusSourceView::Register { addr: HPRT0 }
    }

    open spec fn resetting(&self, port: u8) -> PortActionView {
        PortActionView::Script { ops: reset_pulse_script() }
    }

    open spec fn clearing_connection(&self, port: u8) -> PortActionView {
        PortActionView::Script {
            ops: seq![conndet_op()],
        }
    }

    open spec fn clearing_reset(&self, port: u8) -> PortActionView {
        PortActionView::Script { ops: Seq::empty() }
    }

    open spec fn power_nanos(&self) -> u64 {
        0
    }

    fn nports(&self) -> (r: u8) {
        1
    }

    fn port_power(&self, port: u8) -> (r: PortAction) {
        let mut ops: Vec<HwOp> = Vec::new();
        ops.push(hprt0_port(true, false));
        PortAction::Script { ops }
    }

    fn port_status_w0(&self, port: u8) -> (r: StatusSource) {
        StatusSource::Register { addr: HPRT0 }
    }

    fn reset_port(&self, port: u8) -> (r: PortAction) {
        PortAction::Script { ops: port_reset_pulse() }
    }

    fn clear_connection_change(&self, port: u8) -> (r: PortAction) {
        let mut ops: Vec<HwOp> = Vec::new();
        ops.push(hprt0_clear_conndet());
        PortAction::Script { ops }
    }

    fn clear_reset_change(&self, port: u8) -> (r: PortAction) {
        PortAction::Script { ops: Vec::new() }
    }

    fn pwr_good(&self) -> (r: u64) {
        0
    }
}

/// The port register of the controller as a port status: bit 0 says that something is connected,
/// bit 2 that the port is enabled, bit 8 that it is being reset; in bits 17 and 18 the fastest
/// devices have 0, those of full speed 1 and slow ones 2.
pub proof fn law_root_status_bits(raw: u32)
    ensures
        connected(root_status(raw)) <==> raw & 0x1 != 0,
        port_enabled(root_status(raw)) <==> raw & 0x4 != 0,
        (root_status(raw) / 16) % 2 == 1 <==> raw & 0x100 != 0,
        speed_of(root_status(raw)) == (if (raw >> 17u32) & 3 == 0 {
            PortSpeed::Hs
        } else if (raw >> 17u32) & 3 == 1 {
            PortSpeed::Fs
        } else {
            PortSpeed::Ls
        }),
{
    assert(1u32 << 0u32 == 0x1 && 1u32 << 2u32 == 0x4 && 1u32 << 8u32 == 0x100 && (raw & (3u32
        << 17u32)) >> 17u32 == (raw >> 17u32) & 3) by (bit_vector);
}

} // verus!
