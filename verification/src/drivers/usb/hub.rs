//! Hubs: their ports, their requests, and what their status means.

use crate::drivers::usb::dwc2::control::ControlEp;
use crate::drivers::usb::setup::{hi8, le_bytes16, lo8, ControlRequest, RequestView};
use crate::error::{UsbError, UsbResult};
use crate::hw::{HwOp, WaitStep};
use vstd::prelude::*;

verus! {

/// Type of a hub descriptor.
pub const USB_DT_HUB: u8 = 0x29;

/// Most ports of a hub that are looked at.
pub const MAX_HUB_PORTS: u8 = 16;

/// Bytes that are asked of a hub descriptor.
pub const HUB_DESCRIPTOR_LEN: usize = 64;

/// Nanoseconds that a hub port is given after a reset.
pub const HUB_RESET_NANOS: u64 = 100_000_000;

/// Status bit: something is connected.
pub const W0_CONNECTION: u16 = 1;

/// Status bit: the port is enabled.
pub const W0_ENABLE: u16 = 2;

/// Status bit: the port is being reset.
pub const W0_RESET: u16 = 16;

pub const ERR_HUB_DESCRIPTOR: &'static str = "invalid hub descriptor";

/// Whether a port status says that something is connected.
pub open spec fn connected(w0: u16) -> bool {
    w0 % 2 == 1
}

/// Whether a port status says that the port is enabled.
pub open spec fn port_enabled(w0: u16) -> bool {
    (w0 / 2) % 2 == 1
}

/// Whether a port status says that something is connected.
pub fn is_connected(w0: u16) -> (r: bool)
    ensures
        r == connected(w0),
{
    w0 % 2 == 1
}

/// Whether a port status says that the port is enabled.
pub fn is_enabled(w0: u16) -> (r: bool)
    ensures
        r == port_enabled(w0),
{
    (w0 / 2) % 2 == 1
}

/// Features of a hub port.
#[derive(Clone, Copy, Debug, PartialEq, Eq, Structural)]
pub enum PortFeature {
    Reset,
    Power,
    ConnectionChange,
    ResetChange,
}

/// The selector of a feature.
pub open spec fn feature_code(f: PortFeature) -> u16 {
    match f {
        PortFeature::Reset => 4,
        PortFeature::Power => 8,
        PortFeature::ConnectionChange => 16,
        PortFeature::ResetChange => 20,
    }
}

impl PortFeature {
    /// The selector of the feature.
    pub fn code(self) -> (r: u16)
        ensures
            r == feature_code(self),
    {
        match self {
            PortFeature::Reset => 4,
            PortFeature::Power => 8,
            PortFeature::ConnectionChange => 16,
            PortFeature::ResetChange => 20,
        }
    }
}

/// A request to a hub port.
pub open spec fn port_packet(code: u8, feature: PortFeature, port: u16) -> Seq<u8> {
    seq![
        0x23u8,
        code,
        lo8(feature_code(feature)),
        hi8(feature_code(feature)),
        lo8(port),
        hi8(port),
        0,
        0,
    ]
}

/// Constructors of SETUP packets for hubs.
pub struct HubRequest;

impl HubRequest {
    /// `SET_FEATURE` of a port.
    pub fn set_port_feature(port: u16, feature: PortFeature) -> (r: [u8; 8])
        ensures
            r@ == port_packet(3, feature, port),
    {
        let (fl, fh) = le_bytes16(feature.code());
        let (pl, ph) = le_bytes16(port);
        let r: [u8; 8] = [0x23, 0x03, fl, fh, pl, ph, 0, 0];
        assert(r@ =~= port_packet(3, feature, port));
        r
    }

    /// `CLEAR_FEATURE` of a port.
    pub fn clear_port_feature(port: u16, feature: PortFeature) -> (r: [u8; 8])
        ensures
            r@ == port_packet(1, feature, port),
    {
        let (fl, fh) = le_bytes16(feature.code());
        let (pl, ph) = le_bytes16(port);
        let r: [u8; 8] = [0x23, 0x01, fl, fh, pl, ph, 0, 0];
        assert(r@ =~= port_packet(1, feature, port));
        r
    }

    /// `GET_STATUS` of a port, four bytes.
    pub fn get_port_status(port: u16) -> (r: [u8; 8])
        ensures
            r@ == seq![0xA3u8, 0, 0, 0, lo8(port), hi8(port), 4, 0],
    {
        let (pl, ph) = le_bytes16(port);
        let r: [u8; 8] = [0xA3, 0x00, 0, 0, pl, ph, 4, 0];
        assert(r@ =~= seq![0xA3u8, 0, 0, 0, lo8(port), hi8(port), 4, 0]);
        r
    }

    /// `GET_DESCRIPTOR` of a hub.
    pub fn get_hub_descriptor(w_length: u16) -> (r: [u8; 8])
        ensures
            r@ == seq![0xA0u8, 6, 0, 0x29, 0, 0, lo8(w_length), hi8(w_length)],
    {
        let (ll, lh) = le_bytes16(w_length);
        let r: [u8; 8] = [0xA0, 0x06, 0x00, USB_DT_HUB, 0x00, 0x00, ll, lh];
        assert(r@ =~= seq![0xA0u8, 6, 0, 0x29, 0, 0, lo8(w_length), hi8(w_length)]);
        r
    }
}

/// Speed of a port.
#[derive(Clone, Copy, Debug, PartialEq, Eq, Structural)]
pub enum PortSpeed {
    Hs,
    Fs,
    Ls,
}

/// The speed in bits 9 and 10 of a port status.
pub open spec fn speed_of(status: u16) -> PortSpeed {
    if (status / 512) % 4 == 0 {
        PortSpeed::Fs
    } else if (status / 512) % 4 == 1 {
        PortSpeed::Ls
    } else {
        PortSpeed::Hs
    }
}

pub const SPEED_HS: &'static str = "HS";

pub const SPEED_FS: &'static str = "FS";

pub const SPEED_LS: &'static str = "LS";

impl PortSpeed {
    /// The speed that a port status shows.
    pub fn from_status(status: u16) -> (r: PortSpeed)
        ensures
            r == speed_of(status),
    {
        let bits: u16 = (status / 512) % 4;
        if bits == 0 {
            PortSpeed::Fs
        } else if bits == 1 {
            PortSpeed::Ls
        } else {
            PortSpeed::Hs
        }
    }

    /// A short name.
    pub fn as_str(&self) -> (r: &'static str)
        ensures
            r == (match *self {
                PortSpeed::Hs => SPEED_HS,
                PortSpeed::Fs => SPEED_FS,
                PortSpeed::Ls => SPEED_LS,
            }),
    {
        match *self {
            PortSpeed::Hs => SPEED_HS,
            PortSpeed::Fs => SPEED_FS,
            PortSpeed::Ls => SPEED_LS,
        }
    }
}

/// What an operation on a port takes.
#[derive(Debug)]
pub enum PortAction {
    /// A request to the hub, then a wait.
    Control { request: ControlRequest, settle_nanos: u64 },
    /// Steps on the controller.
    Script { ops: Vec<HwOp> },
}

/// Contents of a [`PortAction`].
#[verifier::ext_equal]
pub enum PortActionView {
    Control { request: RequestView, settle_nanos: u64 },
    Script { ops: Seq<HwOp> },
}

impl View for PortAction {
    type V = PortActionView;

    open spec fn view(&self) -> PortActionView {
        match *self {
            PortAction::Control { request, settle_nanos } => PortActionView::Control {
                request: request@,
                settle_nanos,
            },
            PortAction::Script { ops } => PortActionView::Script { ops: ops@ },
        }
    }
}

/// How the status of a port is read.
#[derive(Debug)]
pub enum StatusSource {
    /// By a request to the hub with a reply of four bytes.
    Control { request: ControlRequest },
    /// From a register.
    Register { addr: usize },
}

/// Contents of a [`StatusSource`].
#[verifier::ext_equal]
pub enum StatusSourceView {
    Control { request: RequestView },
    Register { addr: usize },
}

impl View for StatusSource {
    type V = StatusSourceView;

    open spec fn view(&self) -> StatusSourceView {
        match *self {
            StatusSource::Control { request } => StatusSourceView::Control { request: request@ },
            StatusSource::Register { addr } => StatusSourceView::Register { addr },
        }
    }
}

/// A hub with ports from 1 on: the controller itself, or a device.
pub trait Hub {
    /// Number of ports.
    spec fn ports(&self) -> u8;

    /// Powering a port.
    spec fn powering(&self, port: u8) -> PortActionView;

    /// Reading the status of a port.
    spec fn status_from(&self, port: u8) -> StatusSourceView;

    /// Resetting a port.
    spec fn resetting(&self, port: u8) -> PortActionView;

    /// Clearing the note that a connection has changed.
    spec fn clearing_connection(&self, port: u8) -> PortActionView;

    /// Clearing the note that a reset is over.
    spec fn clearing_reset(&self, port: u8) -> PortActionView;

    /// Nanoseconds until the power of a port is stable.
    spec fn power_nanos(&self) -> u64;

    /// Number of ports.
    fn nports(&self) -> (r: u8)
        ensures
            r == self.ports(),
    ;

    /// Powers a port.
    fn port_power(&self, port: u8) -> (r: PortAction)
        ensures
            r@ == self.powering(port),
    ;

    /// Reads the status of a port.
    fn port_status_w0(&self, port: u8) -> (r: StatusSource)
        ensures
            r@ == self.status_from(port),
    ;

    /// Resets a port and waits until it is stable.
    fn reset_port(&self, port: u8) -> (r: PortAction)
        ensures
            r@ == self.resetting(port),
    ;

    /// Clears the note that a connection has changed.
    fn clear_connection_change(&self, port: u8) -> (r: PortAction)
        ensures
            r@ == self.clearing_connection(port),
    ;

    /// Clears the note that a reset is over.
    fn clear_reset_change(&self, port: u8) -> (r: PortAction)
        ensures
            r@ == self.clearing_reset(port),
    ;

    /// Nanoseconds until the power of a port is stable.
    fn pwr_good(&self) -> (r: u64)
        ensures
            r == self.power_nanos(),
    ;
}

/// One look at a port that something should be connected to; a status that cannot be read counts
/// as no connection.
pub fn wait_connect(status: UsbResult<u16>, elapsed_nanos: u64, timeout_nanos: u64) -> (r: WaitStep)
    ensures
        r == (if status matches Ok(w0) && connected(w0) {
            WaitStep::Done
        } else if elapsed_nanos >= timeout_nanos {
            WaitStep::Expired
        } else {
            WaitStep::Again
        }),
{
    if let Ok(w0) = status {
        if is_connected(w0) {
            return WaitStep::Done;
        }
    }
    if elapsed_nanos >= timeout_nanos {
        WaitStep::Expired
    } else {
        WaitStep::Again
    }
}

/// A hub on the bus.
#[derive(Clone, Copy, Debug, PartialEq, Eq, Structural)]
pub struct DeviceHub {
    pub control_ep: ControlEp,
    pub nports: u8,
    /// Milliseconds until the power of a port is stable.
    pub pwr_on_pwr_good_ms: u32,
}

/// The hub that a hub descriptor stands for.
pub open spec fn hub_of(ep: ControlEp, d: Seq<u8>) -> UsbResult<DeviceHub> {
    if d[0] < 7 || d[1] != USB_DT_HUB {
        Err(UsbError::Protocol(ERR_HUB_DESCRIPTOR))
    } else {
        Ok(
            DeviceHub {
                control_ep: ep,
                nports: if d[2] < MAX_HUB_PORTS {
                    d[2]
                } else {
                    MAX_HUB_PORTS
                },
                pwr_on_pwr_good_ms: (d[5] * 2) as u32,
            },
        )
    }
}

impl DeviceHub {
    /// Whether the numbers are such as a descriptor gives.
    pub open spec fn wf(&self) -> bool {
        self.nports <= MAX_HUB_PORTS && self.pwr_on_pwr_good_ms <= 510
    }

    /// The request for the descriptor of a hub.
    pub fn descriptor_request() -> (r: ControlRequest)
        ensures
            r@ == (RequestView::In { setup: seq![0xA0u8, 6, 0, 0x29, 0, 0, 64, 0], len: 64 }),
    {
        let r = ControlRequest::data_in(HubRequest::get_hub_descriptor(64), HUB_DESCRIPTOR_LEN);
        assert(lo8(64) == 64 && hi8(64) == 0);
        r
    }

    /// The hub at a control endpoint, by its descriptor.
    pub fn new(control_ep: ControlEp, buf: &[u8; 64]) -> (r: UsbResult<DeviceHub>)
        ensures
            r == hub_of(control_ep, buf@),
            r matches Ok(h) ==> h.wf(),
    {
        if buf[0] < 7 || buf[1] != USB_DT_HUB {
            return Err(UsbError::Protocol(ERR_HUB_DESCRIPTOR));
        }
        let nports: u8 = if buf[2] < MAX_HUB_PORTS {
            buf[2]
        } else {
            MAX_HUB_PORTS
        };
        Ok(DeviceHub { control_ep, nports, pwr_on_pwr_good_ms: buf[5] as u32 * 2 })
    }

    /// The port status in the reply to a request for it.
    pub fn status_reply(buf: &[u8; 4]) -> (r: u16)
        ensures
            r == buf@[0] + 256 * buf@[1],
    {
        buf[0] as u16 + 256 * buf[1] as u16
    }
}

/// A request to a port of a hub, and a wait.
pub open spec fn port_request(
    code: u8,
    feature: PortFeature,
    port: u8,
    settle_nanos: u64,
) -> PortActionView {
    PortActionView::Control {
        request: RequestView::NoData { setup: port_packet(code, feature, port as u16) },
        settle_nanos,
    }
}

impl Hub for DeviceHub {
    open spec fn ports(&self) -> u8 {
        self.nports
    }

    open spec fn powering(&self, port: u8) -> PortActionView {
        port_request(3, PortFeature::Power, port, 0)
    }

    open spec fn status_from(&self, port: u8) -> StatusSourceView {
        StatusSourceView::Control {
            request: RequestView::In {
                setup: seq![0xA3u8, 0, 0, 0, lo8(port as u16), hi8(port as u16), 4, 0],
                len: 4,
            },
        }
    }

    open spec fn resetting(&self, port: u8) -> PortActionView {
        port_request(3, PortFeature::Reset, port, HUB_RESET_NANOS)
    }

    open spec fn clearing_connection(&self, port: u8) -> PortActionView {
        port_request(1, PortFeature::ConnectionChange, port, 0)
    }

    open spec fn clearing_reset(&self, port: u8) -> PortActionView {
        port_request(1, PortFeature::ResetChange, port, 0)
    }

    open spec fn power_nanos(&self) -> u64 {
        (self.pwr_on_pwr_good_ms * 1_000_000) as u64
    }

    fn nports(&self) -> (r: u8) {
        self.nports
    }

    fn port_power(&self, port: u8) -> (r: PortAction) {
        PortAction::Control {
            request: ControlRequest::no_data(
                HubRequest::set_port_feature(port as u16, PortFeature::Power),
            ),
            settle_nanos: 0,
        }
    }

    fn port_status_w0(&self, port: u8) -> (r: StatusSource) {
        StatusSource::Control {
            request: ControlRequest::data_in(HubRequest::get_port_status(port as u16), 4),
        }
    }

    fn reset_port(&self, port: u8) -> (r: PortAction) {
        PortAction::Control {
            request: ControlRequest::no_data(
                HubRequest::set_port_feature(port as u16, PortFeature::Reset),
            ),
            settle_nanos: HUB_RESET_NANOS,
        }
    }

    fn clear_connection_change(&self, port: u8) -> (r: PortAction) {
        PortAction::Control {
            request: ControlRequest::no_data(
                HubRequest::clear_port_feature(port as u16, PortFeature::ConnectionChange),
            ),
            settle_nanos: 0,
        }
    }

    fn clear_reset_change(&self, port: u8) -> (r: PortAction) {
        PortAction::Control {
            request: ControlRequest::no_data(
                HubRequest::clear_port_feature(port as u16, PortFeature::ResetChange),
            ),
            settle_nanos: 0,
        }
    }

    fn pwr_good(&self) -> (r: u64) {
        self.pwr_on_pwr_good_ms as u64 * 1_000_000
    }
}

// ---------------------------------------------------------------------------
// Bits and bytes
// ---------------------------------------------------------------------------
/// A port status says in bit 0 whether something is connected, in bit 1 whether the port is
/// enabled, in bit 9 that the device is slow and in bit 10 that it is fast; with neither of
/// these two it runs at full speed.
pub proof fn law_port_status_bits(w0: u16)
    ensures
        connected(w0) <==> w0 & 0x1 != 0,
        port_enabled(w0) <==> w0 & 0x2 != 0,
        w0 & 0x400 != 0 ==> speed_of(w0) == PortSpeed::Hs,
        w0 & 0x600 == 0x200 ==> speed_of(w0) == PortSpeed::Ls,
        w0 & 0x600 == 0 ==> speed_of(w0) == PortSpeed::Fs,
{
    assert(((w0 % 2 == 1) == (w0 & 0x1 != 0)) && (((w0 / 2) % 2 == 1) == (w0 & 0x2 != 0)) && (w0
        & 0x400 != 0 ==> (w0 / 512) % 4 >= 2) && (w0 & 0x600 == 0x200 ==> (w0 / 512) % 4 == 1) && (w0
        & 0x600 == 0 ==> (w0 / 512) % 4 == 0)) by (bit_vector);
}

/// A hub descriptor, of type 29 and at least seven bytes long, gives the number of ports in byte
/// 2, of which at most sixteen count, and in byte 5 half the milliseconds until power is stable.
pub proof fn law_hub_descriptor(ep: ControlEp, d: Seq<u8>)
    requires
        d.len() == 64,
    ensures
        hub_of(ep, d) is Ok <==> d[0] >= 7 && d[1] == 0x29,
        hub_of(ep, d) matches Ok(h) ==> {
            &&& h.control_ep == ep
            &&& d[2] <= 16 ==> h.nports == d[2]
            &&& d[2] > 16 ==> h.nports == 16
            &&& h.power_nanos() == 2_000_000 * d[5]
        },
{
}

/// The requests to port `n` of a hub: features 8 and 4 are set to power and to reset it, features
/// 16 and 20 are cleared to take note of a connection and of a reset, and its status is read in
/// four bytes. A reset is given a tenth of a second.
pub proof fn law_port_requests(h: DeviceHub, n: u8)
    ensures
        h.powering(n) == (PortActionView::Control {
            request: RequestView::NoData { setup: seq![0x23u8, 3, 8, 0, n, 0, 0, 0] },
            settle_nanos: 0,
        }),
        h.resetting(n) == (PortActionView::Control {
            request: RequestView::NoData { setup: seq![0x23u8, 3, 4, 0, n, 0, 0, 0] },
            settle_nanos: 100_000_000,
        }),
        h.clearing_connection(n) == (PortActionView::Control {
            request: RequestView::NoData { setup: seq![0x23u8, 1, 16, 0, n, 0, 0, 0] },
            settle_nanos: 0,
        }),
        h.clearing_reset(n) == (PortActionView::Control {
            request: RequestView::NoData { setup: seq![0x23u8, 1, 20, 0, n, 0, 0, 0] },
            settle_nanos: 0,
        }),
        h.status_from(n) == (StatusSourceView::Control {
            request: RequestView::In { setup: seq![0xA3u8, 0, 0, 0, n, 0, 4, 0], len: 4 },
        }),
{
    assert(lo8(n as u16) == n && hi8(n as u16) == 0);
    assert(port_packet(3, PortFeature::Power, n as u16) =~= seq![0x23u8, 3, 8, 0, n, 0, 0, 0]);
    assert(port_packet(3, PortFeature::Reset, n as u16) =~= seq![0x23u8, 3, 4, 0, n, 0, 0, 0]);
    assert(port_packet(1, PortFeature::ConnectionChange, n as u16) =~= seq![
        0x23u8,
        1,
        16,
        0,
        n,
        0,
        0,
        0,
    ]);
    assert(port_packet(1, PortFeature::ResetChange, n as u16) =~= seq![
        0x23u8,
        1,
        20,
        0,
        n,
        0,
        0,
        0,
    ]);
}

} // verus!
