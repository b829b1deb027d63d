//! The walk over the bus, hub by hub and port by port.
//!
//! The walk asks for one operation at a time and is told how it went. A port whose device does
//! not come up is skipped; every other failure ends the walk.

use crate::drivers::usb::device::{
    class_from, find_driver, first_interface_class, has_driver, hub_device, UsbDevice, MAX_USB_ADDR,
};
use crate::drivers::usb::dwc2::control::ControlEp;
use crate::drivers::usb::hub::{
    connected, hub_of, is_connected, is_enabled, law_port_status_bits, port_enabled, speed_of,
    DeviceHub, Hub, PortSpeed,
};
use crate::drivers::usb::root::RootHub;
use crate::error::{UsbError, UsbResult};
use vstd::prelude::*;

verus! {

/// Nanoseconds that a device is given to appear at the controller.
pub const CONNECT_NANOS: u64 = 5_000_000_000;

/// Nanoseconds that a device is given to take its address.
pub const ADDRESS_NANOS: u64 = 50_000_000;

/// Nanoseconds that are added to what a hub asks for after powering its ports.
pub const POWER_EXTRA_NANOS: u64 = 100_000_000;

/// The configuration that devices are put into.
pub const CONFIGURATION: u8 = 1;

pub const ERR_NO_DEVICE: &'static str =
    "no device on root port (enable VBUS e.g. GPIOB6 / cable / PHY)";

pub const ERR_ROOT_CHILD: &'static str = "root port child not enabled";

pub const ERR_NOT_CLAIMED: &'static str = "no device claimed by any class driver";

pub const ERR_ADDRESSES: &'static str = "usb address space full";

/// What becomes of a device that a driver takes.
#[derive(Clone, Copy, Debug, PartialEq, Eq, Structural)]
pub enum WalkMode {
    /// The driver is given the device at once.
    Probe,
    /// The first such device is the result of the walk.
    Claim,
}

/// A hub: the controller or a device.
#[derive(Clone, Copy, Debug, PartialEq, Eq, Structural)]
pub enum HubRef {
    Root,
    Device(DeviceHub),
}

/// A hub on the way from the controller, with the port that is being looked at.
#[derive(Clone, Copy, Debug, PartialEq, Eq, Structural)]
pub struct Level {
    pub hub: DeviceHub,
    pub port: u8,
}

/// A device that has said what it is.
#[derive(Clone, Copy, Debug, PartialEq, Eq, Structural)]
pub struct Pending {
    pub control_ep: ControlEp,
    pub addr: u8,
    pub vid: u16,
    pub pid: u16,
    pub dev_class: u8,
    pub speed: PortSpeed,
}

/// What the walk is waiting for.
#[derive(Clone, Copy, Debug, PartialEq, Eq, Structural)]
pub enum Phase {
    RootPower,
    RootConnect,
    Status,
    ClearConnection,
    Reset,
    ClearReset,
    After,
    Identify { speed: PortSpeed },
    Address { p: Pending },
    Settle { p: Pending },
    Configure { p: Pending },
    Classify { p: Pending },
    HubDescriptor { ep: ControlEp },
    PowerStatus,
    PowerPort,
    PowerSettle,
    DriverProbe,
    Finished,
}

/// How an operation went.
#[derive(Clone, Copy, Debug, PartialEq, Eq)]
pub enum BusEvent {
    /// An operation without a result is over.
    Done(UsbResult<()>),
    /// Whether something is connected.
    Connected(bool),
    /// A port status.
    Status(UsbResult<u16>),
    /// Vendor, product, packet size and class of a device.
    Identity(UsbResult<(u16, u16, u32, u8)>),
    /// The bytes that were asked for.
    Bytes(UsbResult<[u8; 64]>),
}

/// The operation that is asked for.
#[derive(Clone, Copy, Debug, PartialEq, Eq)]
pub enum BusAction {
    PortPower { hub: HubRef, port: u8 },
    WaitConnect { port: u8, timeout_nanos: u64 },
    PortStatus { hub: HubRef, port: u8 },
    ClearConnection { hub: HubRef, port: u8 },
    ResetPort { hub: HubRef, port: u8 },
    ClearReset { hub: HubRef, port: u8 },
    /// Ask the device on the default address what it is.
    ProbeDefault,
    SetAddress { ep: ControlEp, addr: u8 },
    Delay { nanos: u64 },
    SetConfiguration { ep: ControlEp, cfg: u8 },
    /// Read the first 64 bytes of the configuration.
    ReadPrefix { ep: ControlEp },
    /// Read 64 bytes of the hub descriptor.
    ReadHubDescriptor { ep: ControlEp },
    /// Hand the device to its driver.
    DriverProbe { dev: UsbDevice },
    /// The walk is over.
    Finish(UsbResult<()>),
}

/// A walk over the bus.
pub struct BusWalk {
    mode: WalkMode,
    stack: Vec<Level>,
    next_addr: u8,
    phase: Phase,
    claimed: Option<UsbDevice>,
}

/// Contents of a [`BusWalk`].
#[verifier::ext_equal]
pub struct WalkView {
    pub mode: WalkMode,
    /// The hubs on the way from the controller, without the controller itself.
    pub stack: Seq<Level>,
    /// The address that the next device is given.
    pub next_addr: u8,
    pub phase: Phase,
    /// The first device that a driver takes.
    pub claimed: Option<UsbDevice>,
}

impl View for BusWalk {
    type V = WalkView;

    closed spec fn view(&self) -> WalkView {
        WalkView {
            mode: self.mode,
            stack: self.stack@,
            next_addr: self.next_addr,
            phase: self.phase,
            claimed: self.claimed,
        }
    }
}

// ---------------------------------------------------------------------------
// The rules of the walk
// ---------------------------------------------------------------------------
/// Where the walk is: the hub, and its port.
pub open spec fn here(v: WalkView) -> (HubRef, u8) {
    if v.stack.len() == 0 {
        (HubRef::Root, 1)
    } else {
        (HubRef::Device(v.stack.last().hub), v.stack.last().port)
    }
}

/// The walk, in another phase.
pub open spec fn in_phase(v: WalkView, phase: Phase) -> WalkView {
    WalkView { phase, ..v }
}

/// The walk, at another port of the same hub.
pub open spec fn at_port(v: WalkView, port: u8) -> WalkView {
    WalkView { stack: v.stack.drop_last().push(Level { port, ..v.stack.last() }), ..v }
}

/// The walk ends.
pub open spec fn finished(v: WalkView, r: UsbResult<()>) -> (WalkView, BusAction) {
    (in_phase(v, Phase::Finished), BusAction::Finish(r))
}

/// The device at the current port is looked for.
pub open spec fn look(v: WalkView) -> (WalkView, BusAction) {
    (in_phase(v, Phase::Status), BusAction::PortStatus { hub: here(v).0, port: here(v).1 })
}

/// The result of a walk that has seen all ports.
pub open spec fn end_result(v: WalkView) -> UsbResult<()> {
    if v.mode == WalkMode::Claim && v.claimed is None {
        Err(UsbError::Protocol(ERR_NOT_CLAIMED))
    } else {
        Ok(())
    }
}

/// The walk goes on to the next port: of the same hub, or of the hub above where it was the last
/// one.
pub open spec fn advanced(v: WalkView) -> (WalkView, BusAction)
    decreases v.stack.len(),
{
    if v.stack.len() == 0 {
        finished(v, end_result(v))
    } else if v.stack.last().port < v.stack.last().hub.nports {
        look(at_port(v, (v.stack.last().port + 1) as u8))
    } else {
        advanced(WalkView { stack: v.stack.drop_last(), ..v })
    }
}

/// There is no usable device at the current port: it is skipped, but the controller must have
/// one.
pub open spec fn child_gone(v: WalkView) -> (WalkView, BusAction) {
    if v.stack.len() == 0 {
        finished(v, Err(UsbError::Protocol(ERR_ROOT_CHILD)))
    } else {
        advanced(v)
    }
}

/// The device at the current port failed on its way to an address.
pub open spec fn child_failed(v: WalkView, e: UsbError) -> (WalkView, BusAction) {
    if e is NotPresent {
        child_gone(v)
    } else {
        finished(v, Err(e))
    }
}

/// An enumerated device failed.
pub open spec fn dispatch_failed(v: WalkView, e: UsbError) -> (WalkView, BusAction) {
    if v.mode == WalkMode::Claim && e is NotPresent {
        advanced(v)
    } else {
        finished(v, Err(e))
    }
}

/// An enumerated device: a hub is walked, a device with a driver is handed over or claimed, any
/// other is ignored.
pub open spec fn dispatched(v: WalkView, dev: UsbDevice) -> (WalkView, BusAction) {
    if hub_device(dev) {
        (
            in_phase(v, Phase::HubDescriptor { ep: dev.control_ep }),
            BusAction::ReadHubDescriptor { ep: dev.control_ep },
        )
    } else if has_driver(dev) {
        match v.mode {
            WalkMode::Probe => (
                in_phase(v, Phase::DriverProbe),
                BusAction::DriverProbe { dev },
            ),
            WalkMode::Claim => advanced(
                WalkView {
                    claimed: if v.claimed is None {
                        Some(dev)
                    } else {
                        v.claimed
                    },
                    ..v
                },
            ),
        }
    } else {
        advanced(v)
    }
}

/// The ports of the innermost hub are powered from `port` on; then they are given time.
pub open spec fn power_from(v: WalkView, port: int) -> (WalkView, BusAction) {
    let hub = v.stack.last().hub;
    if port > hub.nports {
        (
            in_phase(v, Phase::PowerSettle),
            BusAction::Delay { nanos: (hub.power_nanos() + POWER_EXTRA_NANOS) as u64 },
        )
    } else {
        let w = at_port(v, port as u8);
        match v.mode {
            WalkMode::Probe => (
                in_phase(w, Phase::PowerStatus),
                BusAction::PortStatus { hub: HubRef::Device(hub), port: port as u8 },
            ),
            WalkMode::Claim => (
                in_phase(w, Phase::PowerPort),
                BusAction::PortPower { hub: HubRef::Device(hub), port: port as u8 },
            ),
        }
    }
}

/// The device that a pending device becomes.
pub open spec fn device_of(p: Pending, iface_class: u8) -> UsbDevice {
    UsbDevice {
        control_ep: p.control_ep,
        vid: p.vid,
        pid: p.pid,
        dev_class: p.dev_class,
        iface_class,
        speed: p.speed,
    }
}

/// Class of the first interface in what was read, 0 where nothing was.
pub open spec fn class_of(r: UsbResult<[u8; 64]>) -> u8 {
    match r {
        Ok(b) => class_from(b@, 0),
        Err(_) => 0,
    }
}

/// What follows the answer of a device that was asked what it is: it is given the next address.
pub open spec fn identified(
    v: WalkView,
    speed: PortSpeed,
    r: UsbResult<(u16, u16, u32, u8)>,
) -> (WalkView, BusAction) {
    match r {
        Err(e) => child_failed(v, e),
        Ok((vid, pid, mps, dev_class)) => {
            if v.next_addr >= MAX_USB_ADDR {
                finished(v, Err(UsbError::Protocol(ERR_ADDRESSES)))
            } else {
                let control_ep = ControlEp { dev: 0, mps };
                let p = Pending { control_ep, addr: v.next_addr, vid, pid, dev_class, speed };
                (
                    WalkView {
                        next_addr: (v.next_addr + 1) as u8,
                        phase: Phase::Address { p },
                        ..v
                    },
                    BusAction::SetAddress { ep: control_ep, addr: v.next_addr },
                )
            }
        },
    }
}

/// What follows a hub descriptor: its ports are powered.
pub open spec fn hub_described(v: WalkView, ep: ControlEp, r: UsbResult<[u8; 64]>) -> (
    WalkView,
    BusAction,
) {
    match r {
        Err(e) => dispatch_failed(v, e),
        Ok(b) => match hub_of(ep, b@) {
            Err(e) => dispatch_failed(v, e),
            Ok(hub) => power_from(
                WalkView { stack: v.stack.push(Level { hub, port: 0 }), ..v },
                1,
            ),
        },
    }
}

/// A pending device that has taken its address.
pub open spec fn addressed(p: Pending) -> Pending {
    Pending { control_ep: ControlEp { dev: p.addr as u32, ..p.control_ep }, ..p }
}

/// Whether an event is an answer to what the walk asked for.
pub open spec fn expects(phase: Phase, ev: BusEvent) -> bool {
    match phase {
        Phase::RootConnect => ev is Connected,
        Phase::Status | Phase::After | Phase::PowerStatus => ev is Status,
        Phase::Identify { speed } => ev is Identity,
        Phase::Classify { p } => ev is Bytes,
        Phase::HubDescriptor { ep } => ev is Bytes,
        Phase::Finished => false,
        _ => ev is Done,
    }
}

/// What follows an event: the walk after it, and what it asks for next.
pub open spec fn walk_next(v: WalkView, ev: BusEvent) -> (WalkView, BusAction) {
    let (hub, port) = here(v);
    match (v.phase, ev) {
        (Phase::RootPower, BusEvent::Done(r)) => match r {
            Err(e) => finished(v, Err(e)),
            Ok(_) => (
                in_phase(v, Phase::RootConnect),
                BusAction::WaitConnect { port: 1, timeout_nanos: CONNECT_NANOS },
            ),
        },
        (Phase::RootConnect, BusEvent::Connected(c)) => if c {
            look(v)
        } else {
            finished(v, Err(UsbError::Hardware(ERR_NO_DEVICE)))
        },
        (Phase::Status, BusEvent::Status(r)) => if r matches Ok(w0) && connected(w0) {
            (in_phase(v, Phase::ClearConnection), BusAction::ClearConnection { hub, port })
        } else {
            child_gone(v)
        },
        (Phase::ClearConnection, BusEvent::Done(r)) => if r is Ok {
            (in_phase(v, Phase::Reset), BusAction::ResetPort { hub, port })
        } else {
            child_gone(v)
        },
        (Phase::Reset, BusEvent::Done(r)) => if r is Ok {
            (in_phase(v, Phase::ClearReset), BusAction::ClearReset { hub, port })
        } else {
            child_gone(v)
        },
        (Phase::ClearReset, BusEvent::Done(r)) => if r is Ok {
            (in_phase(v, Phase::After), BusAction::PortStatus { hub, port })
        } else {
            child_gone(v)
        },
        (Phase::After, BusEvent::Status(r)) => if r matches Ok(w0) && port_enabled(w0) {
            (in_phase(v, Phase::Identify { speed: speed_of(r->Ok_0) }), BusAction::ProbeDefault)
        } else {
            child_gone(v)
        },
        (Phase::Identify { speed }, BusEvent::Identity(r)) => identified(v, speed, r),
        (Phase::Address { p }, BusEvent::Done(r)) => match r {
            Err(e) => child_failed(v, e),
            Ok(_) => (
                in_phase(v, Phase::Settle { p: addressed(p) }),
                BusAction::Delay { nanos: ADDRESS_NANOS },
            ),
        },
        (Phase::Settle { p }, BusEvent::Done(_)) => (
            in_phase(v, Phase::Configure { p }),
            BusAction::SetConfiguration { ep: p.control_ep, cfg: CONFIGURATION },
        ),
        (Phase::Configure { p }, BusEvent::Done(r)) => match r {
            Err(e) => child_failed(v, e),
            Ok(_) => (
                in_phase(v, Phase::Classify { p }),
                BusAction::ReadPrefix { ep: p.control_ep },
            ),
        },
        (Phase::Classify { p }, BusEvent::Bytes(r)) => dispatched(v, device_of(p, class_of(r))),
        (Phase::HubDescriptor { ep }, BusEvent::Bytes(r)) => hub_described(v, ep, r),
        (Phase::PowerStatus, BusEvent::Status(r)) => if r matches Ok(w0) && connected(w0) {
            power_from(v, port + 1)
        } else {
            (in_phase(v, Phase::PowerPort), BusAction::PortPower { hub, port })
        },
        (Phase::PowerPort, BusEvent::Done(_)) => power_from(v, port + 1),
        (Phase::PowerSettle, BusEvent::Done(_)) => advanced(at_port(v, 0)),
        (Phase::DriverProbe, BusEvent::Done(r)) => match r {
            Err(e) => finished(v, Err(e)),
            Ok(_) => advanced(v),
        },
        _ => finished(v, end_result(v)),
    }
}

/// Whether hubs are such as descriptors give, and their ports exist.
pub open spec fn levels_wf(stack: Seq<Level>) -> bool {
    forall|k: int|
        0 <= k < stack.len() ==> (#[trigger] stack[k]).hub.wf() && stack[k].port
            <= stack[k].hub.nports
}

/// Whether the walk is in order: its hubs are such as descriptors give, ports exist, there is an
/// address to give, and hubs are powered only where there is one.
pub open spec fn walk_wf(v: WalkView) -> bool {
    &&& 1 <= v.next_addr <= MAX_USB_ADDR
    &&& levels_wf(v.stack)
    &&& (v.phase is PowerStatus || v.phase is PowerPort || v.phase is PowerSettle)
        ==> v.stack.len() > 0
    &&& v.phase matches Phase::Address { p } ==> p.control_ep.dev == 0
}

impl BusWalk {
    /// Whether the walk is in order.
    pub open spec fn wf(&self) -> bool {
        walk_wf(self@)
    }

    /// A walk that has just begun.
    pub open spec fn start(mode: WalkMode) -> WalkView {
        WalkView {
            mode,
            stack: Seq::empty(),
            next_addr: 1,
            phase: Phase::RootPower,
            claimed: None,
        }
    }

    /// What a walk asks for first: power for the port of the controller.
    pub open spec fn first_action() -> BusAction {
        BusAction::PortPower { hub: HubRef::Root, port: 1 }
    }

    /// Begins a walk.
    pub fn new(mode: WalkMode) -> (r: (BusWalk, BusAction))
        ensures
            r.0.wf(),
            r.0@ == BusWalk::start(mode),
            r.1 == BusWalk::first_action(),
    {
        let w = BusWalk {
            mode,
            stack: Vec::new(),
            next_addr: 1,
            phase: Phase::RootPower,
            claimed: None,
        };
        (w, BusAction::PortPower { hub: HubRef::Root, port: 1 })
    }

    /// The first device that a driver takes.
    pub fn claimed(&self) -> (r: Option<UsbDevice>)
        ensures
            r == self@.claimed,
    {
        self.claimed
    }

    /// Whether the walk is over.
    pub fn is_finished(&self) -> (r: bool)
        ensures
            r == (self@.phase is Finished),
    {
        matches!(self.phase, Phase::Finished)
    }

    fn here(&self) -> (r: (HubRef, u8))
        ensures
            r == here(self@),
    {
        let n: usize = self.stack.len();
        if n == 0 {
            (HubRef::Root, 1)
        } else {
            let l: Level = self.stack[n - 1];
            (HubRef::Device(l.hub), l.port)
        }
    }

    fn finish(&mut self, r: UsbResult<()>) -> (a: BusAction)
        requires
            old(self).wf(),
        ensures
            final(self).wf(),
            (final(self)@, a) == finished(old(self)@, r),
    {
        self.phase = Phase::Finished;
        BusAction::Finish(r)
    }

    fn set_port(&mut self, port: u8)
        requires
            old(self).wf(),
            old(self)@.stack.len() > 0,
            port <= old(self)@.stack.last().hub.nports,
        ensures
            final(self).wf(),
            final(self)@ == at_port(old(self)@, port),
    {
        let n: usize = self.stack.len();
        let ghost before = self@;
        let l: Level = self.stack[n - 1];
        self.stack[n - 1] = Level { hub: l.hub, port };
        assert(self@.stack =~= at_port(before, port).stack);
    }

    fn look(&mut self) -> (a: BusAction)
        requires
            old(self).wf(),
        ensures
            final(self).wf(),
            (final(self)@, a) == look(old(self)@),
    {
        let (hub, port) = self.here();
        self.phase = Phase::Status;
        BusAction::PortStatus { hub, port }
    }

    fn advance(&mut self) -> (a: BusAction)
        requires
            old(self).wf(),
        ensures
            final(self).wf(),
            (final(self)@, a) == advanced(old(self)@),
    {
        let ghost goal = advanced(self@);
        self.phase = Phase::DriverProbe;
        proof {
            lemma_advanced_ignores_phase(old(self)@, Phase::DriverProbe);
        }
        while self.stack.len() > 0
            invariant
                self.wf(),
                self@.phase is DriverProbe,
                advanced(self@) == goal,
                goal == advanced(old(self)@),
            decreases self@.stack.len(),
        {
            let n: usize = self.stack.len();
            let l: Level = self.stack[n - 1];
            if l.port < l.hub.nports {
                self.set_port(l.port + 1);
                return self.look();
            }
            let ghost before = self@;
            self.stack.pop();
            assert(self@.stack =~= before.stack.drop_last());
            assert(self@ =~= (WalkView { stack: before.stack.drop_last(), ..before }));
        }
        let r: UsbResult<()> = match (self.mode, self.claimed) {
            (WalkMode::Claim, None) => Err(UsbError::Protocol(ERR_NOT_CLAIMED)),
            _ => Ok(()),
        };
        self.finish(r)
    }

    fn child_gone(&mut self) -> (a: BusAction)
        requires
            old(self).wf(),
        ensures
            final(self).wf(),
            (final(self)@, a) == child_gone(old(self)@),
    {
        if self.stack.len() == 0 {
            self.finish(Err(UsbError::Protocol(ERR_ROOT_CHILD)))
        } else {
            self.advance()
        }
    }

    fn child_failed(&mut self, e: UsbError) -> (a: BusAction)
        requires
            old(self).wf(),
        ensures
            final(self).wf(),
            (final(self)@, a) == child_failed(old(self)@, e),
    {
        match e {
            UsbError::NotPresent => self.child_gone(),
            _ => self.finish(Err(e)),
        }
    }

    fn dispatch_failed(&mut self, e: UsbError) -> (a: BusAction)
        requires
            old(self).wf(),
        ensures
            final(self).wf(),
            (final(self)@, a) == dispatch_failed(old(self)@, e),
    {
        match (self.mode, e) {
            (WalkMode::Claim, UsbError::NotPresent) => self.advance(),
            _ => self.finish(Err(e)),
        }
    }

    fn dispatch(&mut self, dev: UsbDevice) -> (a: BusAction)
        requires
            old(self).wf(),
        ensures
            final(self).wf(),
            (final(self)@, a) == dispatched(old(self)@, dev),
    {
        if dev.is_hub() {
            self.phase = Phase::HubDescriptor { ep: dev.control_ep };
            return BusAction::ReadHubDescriptor { ep: dev.control_ep };
        }
        if find_driver(&dev) {
            match self.mode {
                WalkMode::Probe => {
                    self.phase = Phase::DriverProbe;
                    BusAction::DriverProbe { dev }
                },
                WalkMode::Claim => {
                    if self.claimed.is_none() {
                        self.claimed = Some(dev);
                    }
                    self.advance()
                },
            }
        } else {
            self.advance()
        }
    }

    fn power_from(&mut self, port: u8) -> (a: BusAction)
        requires
            old(self).wf(),
            old(self)@.stack.len() > 0,
        ensures
            final(self).wf(),
            (final(self)@, a) == power_from(old(self)@, port as int),
    {
        let n: usize = self.stack.len();
        let hub: DeviceHub = self.stack[n - 1].hub;
        if port > hub.nports() {
            self.phase = Phase::PowerSettle;
            return BusAction::Delay { nanos: hub.pwr_good() + POWER_EXTRA_NANOS };
        }
        self.set_port(port);
        match self.mode {
            WalkMode::Probe => {
                self.phase = Phase::PowerStatus;
                BusAction::PortStatus { hub: HubRef::Device(hub), port }
            },
            WalkMode::Claim => {
                self.phase = Phase::PowerPort;
                BusAction::PortPower { hub: HubRef::Device(hub), port }
            },
        }
    }

    fn identified(&mut self, speed: PortSpeed, r: UsbResult<(u16, u16, u32, u8)>) -> (a: BusAction)
        requires
            old(self).wf(),
        ensures
            final(self).wf(),
            (final(self)@, a) == identified(old(self)@, speed, r),
    {
        match r {
            Err(e) => self.child_failed(e),
            Ok((vid, pid, mps, dev_class)) => {
                let addr: u8 = self.next_addr;
                if addr >= MAX_USB_ADDR {
                    return self.finish(Err(UsbError::Protocol(ERR_ADDRESSES)));
                }
                self.next_addr = addr + 1;
                let control_ep = ControlEp::new(0, mps);
                let p = Pending { control_ep, addr, vid, pid, dev_class, speed };
                self.phase = Phase::Address { p };
                BusAction::SetAddress { ep: control_ep, addr }
            },
        }
    }

    fn hub_described(&mut self, ep: ControlEp, r: UsbResult<[u8; 64]>) -> (a: BusAction)
        requires
            old(self).wf(),
        ensures
            final(self).wf(),
            (final(self)@, a) == hub_described(old(self)@, ep, r),
    {
        match r {
            Err(e) => self.dispatch_failed(e),
            Ok(b) => match DeviceHub::new(ep, &b) {
                Err(e) => self.dispatch_failed(e),
                Ok(hub) => {
                    let ghost before = self@;
                    self.stack.push(Level { hub, port: 0 });
                    assert(self@ =~= (WalkView {
                        stack: before.stack.push(Level { hub, port: 0 }),
                        ..before
                    }));
                    self.power_from(1)
                },
            },
        }
    }

    /// Takes the answer to what the walk asked for, and asks for the next operation.
    pub fn step(&mut self, ev: BusEvent) -> (a: BusAction)
        requires
            old(self).wf(),
            expects(old(self)@.phase, ev),
        ensures
            final(self).wf(),
            (final(self)@, a) == walk_next(old(self)@, ev),
    {
        let (hub, port) = self.here();
        match (self.phase, ev) {
            (Phase::RootPower, BusEvent::Done(r)) => match r {
                Err(e) => self.finish(Err(e)),
                Ok(_) => {
                    self.phase = Phase::RootConnect;
                    BusAction::WaitConnect { port: 1, timeout_nanos: CONNECT_NANOS }
                },
            },
            (Phase::RootConnect, BusEvent::Connected(c)) => {
                if c {
                    self.look()
                } else {
                    self.finish(Err(UsbError::Hardware(ERR_NO_DEVICE)))
                }
            },
            (Phase::Status, BusEvent::Status(r)) => {
                if let Ok(w0) = r {
                    if is_connected(w0) {
                        self.phase = Phase::ClearConnection;
                        return BusAction::ClearConnection { hub, port };
                    }
                }
                self.child_gone()
            },
            (Phase::ClearConnection, BusEvent::Done(r)) => {
                if r.is_ok() {
                    self.phase = Phase::Reset;
                    BusAction::ResetPort { hub, port }
                } else {
                    self.child_gone()
                }
            },
            (Phase::Reset, BusEvent::Done(r)) => {
                if r.is_ok() {
                    self.phase = Phase::ClearReset;
                    BusAction::ClearReset { hub, port }
                } else {
                    self.child_gone()
                }
            },
            (Phase::ClearReset, BusEvent::Done(r)) => {
                if r.is_ok() {
                    self.phase = Phase::After;
                    BusAction::PortStatus { hub, port }
                } else {
                    self.child_gone()
                }
            },
            (Phase::After, BusEvent::Status(r)) => {
                if let Ok(w0) = r {
                    if is_enabled(w0) {
                        self.phase = Phase::Identify { speed: PortSpeed::from_status(w0) };
                        return BusAction::ProbeDefault;
                    }
                }
                self.child_gone()
            },
            (Phase::Identify { speed }, BusEvent::Identity(r)) => self.identified(speed, r),
            (Phase::Address { p }, BusEvent::Done(r)) => {
                let mut ep: ControlEp = p.control_ep;
                match ep.set_address(p.addr, r) {
                    Err(e) => self.child_failed(e),
                    Ok(_) => {
                        let q = Pending {
                            control_ep: ep,
                            addr: p.addr,
                            vid: p.vid,
                            pid: p.pid,
                            dev_class: p.dev_class,
                            speed: p.speed,
                        };
                        self.phase = Phase::Settle { p: q };
                        BusAction::Delay { nanos: ADDRESS_NANOS }
                    },
                }
            },
            (Phase::Settle { p }, BusEvent::Done(_)) => {
                self.phase = Phase::Configure { p };
                BusAction::SetConfiguration { ep: p.control_ep, cfg: CONFIGURATION }
            },
            (Phase::Configure { p }, BusEvent::Done(r)) => match r {
                Err(e) => self.child_failed(e),
                Ok(_) => {
                    self.phase = Phase::Classify { p };
                    BusAction::ReadPrefix { ep: p.control_ep }
                },
            },
            (Phase::Classify { p }, BusEvent::Bytes(r)) => {
                let iface_class: u8 = match r {
                    Ok(b) => first_interface_class(&b),
                    Err(_) => 0,
                };
                let dev = UsbDevice {
                    control_ep: p.control_ep,
                    vid: p.vid,
                    pid: p.pid,
                    dev_class: p.dev_class,
                    iface_class,
                    speed: p.speed,
                };
                self.dispatch(dev)
            },
            (Phase::HubDescriptor { ep }, BusEvent::Bytes(r)) => self.hub_described(ep, r),
            (Phase::PowerStatus, BusEvent::Status(r)) => {
                if let Ok(w0) = r {
                    if is_connected(w0) {
                        return self.power_from(port + 1);
                    }
                }
                self.phase = Phase::PowerPort;
                BusAction::PortPower { hub, port }
            },
            (Phase::PowerPort, BusEvent::Done(_)) => self.power_from(port + 1),
            (Phase::PowerSettle, BusEvent::Done(_)) => {
                self.set_port(0);
                self.advance()
            },
            (Phase::DriverProbe, BusEvent::Done(r)) => match r {
                Err(e) => self.finish(Err(e)),
                Ok(_) => self.advance(),
            },
            _ => self.finish(Ok(())),
        }
    }
}

/// Where the walk goes next does not depend on what it was waiting for.
proof fn lemma_advanced_ignores_phase(v: WalkView, phase: Phase)
    ensures
        advanced(in_phase(v, phase)) == advanced(v),
    decreases v.stack.len(),
{
    let w = in_phase(v, phase);
    if v.stack.len() > 0 && !(v.stack.last().port < v.stack.last().hub.nports) {
        let u = WalkView { stack: v.stack.drop_last(), ..v };
        lemma_advanced_ignores_phase(u, phase);
        assert(in_phase(u, phase) =~= (WalkView { stack: w.stack.drop_last(), ..w }));
    }
}

/// Begins a walk for a device to claim.
pub fn enumerate_bus(root: &RootHub) -> (r: (BusWalk, BusAction))
    ensures
        r.0.wf(),
        r.0@ == BusWalk::start(WalkMode::Claim),
        r.1 == BusWalk::first_action(),
{
    BusWalk::new(WalkMode::Claim)
}

// ---------------------------------------------------------------------------
// What holds of every walk
// ---------------------------------------------------------------------------
/// Moving on gives out no address, ends only with the result of a whole walk, and keeps what was
/// claimed.
pub proof fn law_advance(v: WalkView)
    ensures
        ({
            let (w, a) = advanced(v);
            &&& w.next_addr == v.next_addr
            &&& w.claimed == v.claimed
            &&& w.mode == v.mode
            &&& a is PortStatus || a == BusAction::Finish(end_result(v))
        }),
    decreases v.stack.len(),
{
    if v.stack.len() > 0 && !(v.stack.last().port < v.stack.last().hub.nports) {
        law_advance(WalkView { stack: v.stack.drop_last(), ..v });
    }
}

/// Addresses are given out in order, each at most once: an address is given exactly where the
/// count goes up by one, and the count never goes down; no device is given 0 or an address of 127
/// or above.
pub proof fn law_addresses_are_distinct(v: WalkView, ev: BusEvent)
    requires
        walk_wf(v),
        expects(v.phase, ev),
    ensures
        ({
            let (w, a) = walk_next(v, ev);
            match a {
                BusAction::SetAddress { ep, addr } => {
                    &&& addr == v.next_addr
                    &&& 1 <= addr < MAX_USB_ADDR
                    &&& w.next_addr == addr + 1
                },
                _ => w.next_addr == v.next_addr,
            }
        }),
{
    law_advance(v);
    law_advance(at_port(v, 0));
    law_advance(WalkView { claimed: walk_next(v, ev).0.claimed, ..v });
    if let Phase::Classify { p } = v.phase {
        if let BusEvent::Bytes(r) = ev {
            let dev = device_of(p, class_of(r));
            law_advance(
                WalkView {
                    claimed: if v.claimed is None {
                        Some(dev)
                    } else {
                        v.claimed
                    },
                    ..v
                },
            );
        }
    }
}

/// Whatever goes wrong at a port of a hub before the device there is asked what it is, the walk
/// goes on: it ends at most because that was the last port.
pub proof fn law_bad_port_is_skipped(v: WalkView, ev: BusEvent)
    requires
        walk_wf(v),
        expects(v.phase, ev),
        v.stack.len() > 0,
        v.phase is Status || v.phase is ClearConnection || v.phase is Reset || v.phase is ClearReset
            || v.phase is After,
    ensures
        walk_next(v, ev).1 matches BusAction::Finish(r) ==> r == end_result(v),
{
    law_advance(v);
}

/// A failure of the device itself ends the walk with that failure, unless it says that there is
/// no device.
pub proof fn law_hard_failure_ends_walk(v: WalkView, e: UsbError)
    requires
        walk_wf(v),
        !(e is NotPresent),
    ensures
        v.phase is Identify ==> walk_next(v, BusEvent::Identity(Err(e))).1 == BusAction::Finish(
            Err(e),
        ),
        v.phase is Address || v.phase is Configure || v.phase is DriverProbe ==> walk_next(
            v,
            BusEvent::Done(Err(e)),
        ).1 == BusAction::Finish(Err(e)),
        v.phase is HubDescriptor ==> walk_next(v, BusEvent::Bytes(Err(e))).1 == BusAction::Finish(
            Err(e),
        ),
{
}

/// A port that something is connected to is not powered again, and every other port of a hub is.
pub proof fn law_power_spares_connected(v: WalkView, r: UsbResult<u16>)
    requires
        walk_wf(v),
        v.phase is PowerStatus,
    ensures
        ({
            let (w, a) = walk_next(v, BusEvent::Status(r));
            let port = v.stack.last().port;
            if r matches Ok(w0) && connected(w0) {
                !(a is PortPower) || a->PortPower_port != port
            } else {
                a == BusAction::PortPower { hub: HubRef::Device(v.stack.last().hub), port }
            }
        }),
{
}

// ---------------------------------------------------------------------------
// What a device goes through
// ---------------------------------------------------------------------------
/// A device at the current port, all of whose operations succeed, goes through these in turn: its
/// connection is taken note of, the port is reset and the reset taken note of, and the port is
/// looked at again; the device is asked what it is on the default address, gets the next address
/// and a twentieth of a second, and from there on is spoken to at this address: it is put into
/// configuration 1 and its first interface is looked for. What it becomes carries the address,
/// the packet size, the names and the class that it gave, and the speed that its port showed
/// behind the reset.
pub proof fn law_device_goes_through_these(
    v: WalkView,
    w0: u16,
    w1: u16,
    vid: u16,
    pid: u16,
    mps: u32,
    class: u8,
    prefix: UsbResult<[u8; 64]>,
)
    requires
        v.phase == Phase::Status,
        w0 & 0x1 != 0,
        w1 & 0x2 != 0,
        v.next_addr < 127,
    ensures
        ({
            let (hub, port) = here(v);
            let a = v.next_addr;
            let fresh = ControlEp { dev: 0, mps };
            let moved = ControlEp { dev: a as u32, mps };
            let done = BusEvent::Done(Ok(()));
            let (v1, a1) = walk_next(v, BusEvent::Status(Ok(w0)));
            let (v2, a2) = walk_next(v1, done);
            let (v3, a3) = walk_next(v2, done);
            let (v4, a4) = walk_next(v3, done);
            let (v5, a5) = walk_next(v4, BusEvent::Status(Ok(w1)));
            let (v6, a6) = walk_next(v5, BusEvent::Identity(Ok((vid, pid, mps, class))));
            let (v7, a7) = walk_next(v6, done);
            let (v8, a8) = walk_next(v7, done);
            let (v9, a9) = walk_next(v8, done);
            let dev = UsbDevice {
                control_ep: moved,
                vid,
                pid,
                dev_class: class,
                iface_class: match prefix {
                    Ok(b) => class_from(b@, 0),
                    Err(e) => 0,
                },
                speed: speed_of(w1),
            };
            &&& a1 == (BusAction::ClearConnection { hub, port })
            &&& a2 == (BusAction::ResetPort { hub, port })
            &&& a3 == (BusAction::ClearReset { hub, port })
            &&& a4 == (BusAction::PortStatus { hub, port })
            &&& a5 == BusAction::ProbeDefault
            &&& a6 == (BusAction::SetAddress { ep: fresh, addr: a })
            &&& a7 == (BusAction::Delay { nanos: 50_000_000 })
            &&& a8 == (BusAction::SetConfiguration { ep: moved, cfg: 1 })
            &&& a9 == (BusAction::ReadPrefix { ep: moved })
            &&& v9.next_addr == a + 1 && v9.stack == v.stack && v9.claimed == v.claimed
            &&& walk_next(v9, BusEvent::Bytes(prefix)) == dispatched(v9, dev)
        }),
{
    law_port_status_bits(w0);
    law_port_status_bits(w1);
}

/// A device that is a hub is asked for its descriptor; one with a driver is handed over, or
/// claimed where none was before; any other is passed over.
pub proof fn law_device_is_dispatched(v: WalkView, dev: UsbDevice)
    ensures
        hub_device(dev) ==> dispatched(v, dev).1 == (BusAction::ReadHubDescriptor {
            ep: dev.control_ep,
        }),
        !hub_device(dev) && dev.iface_class == 14 && v.mode == WalkMode::Probe ==> dispatched(
            v,
            dev,
        ).1 == (BusAction::DriverProbe { dev }),
        !hub_device(dev) && dev.iface_class == 14 && v.mode == WalkMode::Claim && v.claimed
            is None ==> dispatched(v, dev) == advanced(WalkView { claimed: Some(dev), ..v }),
        !hub_device(dev) && dev.iface_class == 14 && v.mode == WalkMode::Claim && v.claimed
            is Some ==> dispatched(v, dev) == advanced(v),
        !hub_device(dev) && dev.iface_class != 14 ==> dispatched(v, dev) == advanced(v),
{
    if v.claimed is Some {
        assert((WalkView { claimed: v.claimed, ..v }) =~= v);
    }
}

/// The ports of a hub that was found are powered in turn from the first to the last, then given
/// the time that the hub asks for and a tenth of a second; then its first port is looked at.
pub proof fn law_ports_are_powered_in_turn(v: WalkView, ep: ControlEp, d: [u8; 64], port: u8)
    requires
        d@[0] >= 7,
        d@[1] == 0x29,
        1 <= d@[2] <= 16,
        v.mode == WalkMode::Claim,
        v.phase == (Phase::HubDescriptor { ep }),
    ensures
        ({
            let (n, a) = walk_next(v, BusEvent::Bytes(Ok(d)));
            let hub = DeviceHub {
                control_ep: ep,
                nports: d@[2],
                pwr_on_pwr_good_ms: (2 * d@[5]) as u32,
            };
            &&& n.stack == v.stack.push(Level { hub, port: 1 })
            &&& a == (BusAction::PortPower { hub: HubRef::Device(hub), port: 1 })
            &&& 1 <= port < hub.nports ==> walk_next(
                at_port(n, port),
                BusEvent::Done(Ok(())),
            ).1 == (BusAction::PortPower { hub: HubRef::Device(hub), port: (port + 1) as u8 })
            &&& port == hub.nports ==> {
                let (s, b) = walk_next(at_port(n, port), BusEvent::Done(Ok(())));
                &&& b == (BusAction::Delay { nanos: (2_000_000 * d@[5] + 100_000_000) as u64 })
                &&& walk_next(s, BusEvent::Done(Ok(()))).1 == (BusAction::PortStatus {
                    hub: HubRef::Device(hub),
                    port: 1,
                })
            }
        }),
{
    let hub = hub_of(ep, d@)->Ok_0;
    let (n, a) = walk_next(v, BusEvent::Bytes(Ok(d)));
    assert(v.stack.push(Level { hub, port: 0 }).drop_last() =~= v.stack);
    assert(n.stack =~= v.stack.push(Level { hub, port: 1 }));
    assert(n.stack.drop_last() =~= v.stack);
    let w = at_port(n, port);
    assert(w.stack.last() == (Level { hub, port }));
    assert(w.stack.drop_last() =~= v.stack);
    if port == hub.nports {
        let s = walk_next(w, BusEvent::Done(Ok(()))).0;
        assert(s.stack.last() == (Level { hub, port }));
        let z = at_port(s, 0);
        assert(z.stack.last() == (Level { hub, port: 0 }));
    }
}

/// Addresses run out at 127: a device that is asked what it is then ends the walk.
pub proof fn law_addresses_run_out(v: WalkView, speed: PortSpeed, id: (u16, u16, u32, u8))
    requires
        v.phase == (Phase::Identify { speed }),
        v.next_addr >= 127,
    ensures
        walk_next(v, BusEvent::Identity(Ok(id))).1 == BusAction::Finish(
            Err(UsbError::Protocol(ERR_ADDRESSES)),
        ),
{
}

/// The walk begins by powering the port of the controller, gives a device five seconds to appear,
/// and looks at that port; the first device gets address 1. Without a device it fails, and so it
/// does where the device at that port does not come up.
pub proof fn law_walk_begins_at_the_controller(mode: WalkMode, w0: UsbResult<u16>)
    ensures
        ({
            let v = BusWalk::start(mode);
            let (v1, a1) = walk_next(v, BusEvent::Done(Ok(())));
            let (v2, a2) = walk_next(v1, BusEvent::Connected(true));
            let (v3, a3) = walk_next(v1, BusEvent::Connected(false));
            &&& BusWalk::first_action() == (BusAction::PortPower { hub: HubRef::Root, port: 1 })
            &&& v.next_addr == 1 && v.stack.len() == 0 && v.claimed is None && v.mode == mode
            &&& a1 == (BusAction::WaitConnect { port: 1, timeout_nanos: 5_000_000_000 })
            &&& a2 == (BusAction::PortStatus { hub: HubRef::Root, port: 1 })
            &&& a3 == BusAction::Finish(Err(UsbError::Hardware(ERR_NO_DEVICE)))
            &&& (w0 is Err || w0->Ok_0 % 2 == 0) ==> walk_next(v2, BusEvent::Status(w0)).1
                == BusAction::Finish(Err(UsbError::Protocol(ERR_ROOT_CHILD)))
        }),
{
}

} // verus!
