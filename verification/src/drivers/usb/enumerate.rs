//! Bring-up of the controller, then a walk over the bus for a device to claim.

use crate::drivers::usb::dwc2::controller::{
    dwc2_host_init, host_init_script, port_reset_pulse, reset_pulse_script,
};
use crate::drivers::usb::dwc2::cv182x::HwConfig;
use crate::drivers::usb::dwc2::regs::HPRT0_CONNSTS;
use crate::error::{UsbError, UsbResult};
use crate::hw::HwOp;
use crate::registers::{any_set, field_is_set};
use vstd::prelude::*;

verus! {

/// Nanoseconds that a device is given to appear.
pub const ROOT_CONNECT_NANOS: u64 = 5_000_000_000;

pub const ERR_NO_ROOT_DEVICE: &'static str =
    "HPRT0 CONNSTS=0: no device on root port (enable VBUS e.g. GPIOB6 / cable / PHY)";

/// What is done before the walk: bring-up, a wait for a device, and a reset of the bus.
#[derive(Debug)]
pub struct TopologyPlan {
    pub bring_up: Vec<HwOp>,
    pub connect_nanos: u64,
    pub reset: Vec<HwOp>,
}

/// Plans the bring-up. The walk that follows claims the first device that a driver takes.
pub fn enumerate_topology_only(hw: &HwConfig) -> (r: TopologyPlan)
    ensures
        r.bring_up@ == host_init_script(*hw),
        r.connect_nanos == ROOT_CONNECT_NANOS,
        r.reset@ == reset_pulse_script(),
{
    TopologyPlan {
        bring_up: dwc2_host_init(hw),
        connect_nanos: ROOT_CONNECT_NANOS,
        reset: port_reset_pulse(),
    }
}

/// One look at the port: `None` to look again.
pub fn check_root_device_connected(hprt0: u32, elapsed_nanos: u64) -> (r: Option<UsbResult<()>>)
    ensures
        r == (if any_set(HPRT0_CONNSTS, hprt0) {
            Some(Ok(()))
        } else if elapsed_nanos >= ROOT_CONNECT_NANOS {
            Some(Err(UsbError::Hardware(ERR_NO_ROOT_DEVICE)))
        } else {
            None
        }),
{
    if field_is_set(HPRT0_CONNSTS, hprt0) {
        return Some(Ok(()));
    }
    if elapsed_nanos >= ROOT_CONNECT_NANOS {
        return Some(Err(UsbError::Hardware(ERR_NO_ROOT_DEVICE)));
    }
    None
}

} // verus!
