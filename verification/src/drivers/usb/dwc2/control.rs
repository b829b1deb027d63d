//! Control transfers: their stages, and the standard requests.

use crate::drivers::usb::dwc2::ch::XferPlan;
use crate::drivers::usb::dwc2::dma::{
    dma_rx_slice, dma_write_at, readable, write_outcome, written, DMA_BUF_TOTAL, DMA_OFF_SMALL_IO,
    OFF_EP0,
};
use crate::drivers::usb::dwc2::isoch::ERR_DMA_VIEW;
use crate::drivers::usb::dwc2::regs::{
    EPTYPE_CONTROL, HCCHAR_DEVADDR, HCCHAR_EPDIR, HCCHAR_EPNUM, HCCHAR_EPTYPE, HCCHAR_MPS,
    HCTSIZ_PID, HCTSIZ_PKTCNT, HCTSIZ_XFERSIZE, PID_DATA0, PID_DATA1, PID_SETUP,
};
use crate::drivers::usb::setup::{hi8, lo8, ControlRequest, RequestView, StdRequest};
use crate::error::{UsbError, UsbResult};
use crate::hw::HwOp;
use crate::registers::{field_val, placed};
use vstd::prelude::*;

verus! {

/// Most bytes in the data stage of a control transfer.
pub const MAX_CONTROL_DATA: usize = 4096;

/// Type of a configuration descriptor.
pub const USB_DT_CONFIGURATION: u8 = 2;

/// Length of a device descriptor.
pub const DEVICE_DESCRIPTOR_LEN: usize = 18;

/// Length of the head of a configuration descriptor.
pub const CONFIGURATION_HEAD_LEN: usize = 9;

pub const ERR_READ_LEN: &'static str = "bad control_ep read len";

pub const ERR_WRITE_LEN: &'static str = "bad control_ep write data len";

pub const ERR_NOT_DEFAULT: &'static str = "set_address on non-default address";

pub const ERR_SHORT_DESCRIPTOR: &'static str = "short descriptor";

pub const ERR_NOT_CONFIGURATION: &'static str = "not a configuration descriptor";

pub const ERR_CONFIGURATION_LARGE: &'static str = "configuration descriptor too large (>4096)";

/// The control endpoint of a device: its address and the size of its packets.
#[derive(Clone, Copy, Debug, PartialEq, Eq, Structural)]
pub struct ControlEp {
    pub dev: u32,
    pub mps: u32,
}

/// One stage of a control transfer.
#[derive(Clone, Copy, Debug, PartialEq, Eq)]
pub enum Stage {
    /// The SETUP packet.
    Setup { packet: [u8; 8] },
    /// A packet towards the host: `len` bytes that belong at `off`, taken from `dma_off` of the
    /// window.
    DataIn { off: usize, len: usize, data1: bool, dma_off: usize },
    /// A packet towards the device: `len` bytes from `off`.
    DataOut { off: usize, len: usize, data1: bool },
    /// The status packet, without data.
    Status { dir_in: bool },
}

/// Characteristics of the control endpoint of a device.
pub open spec fn control_hcchar(ep: ControlEp, dir_in: bool) -> u32 {
    let out = placed(HCCHAR_MPS, ep.mps) | placed(HCCHAR_EPNUM, 0) | placed(HCCHAR_DEVADDR, ep.dev)
        | placed(HCCHAR_EPTYPE, EPTYPE_CONTROL);
    if dir_in {
        out | placed(HCCHAR_EPDIR, 1)
    } else {
        out
    }
}

/// Size register of a transfer of one packet.
pub open spec fn one_packet(pid: u32, len: u32) -> u32 {
    placed(HCTSIZ_PID, pid) | placed(HCTSIZ_PKTCNT, 1) | placed(HCTSIZ_XFERSIZE, len)
}

/// Packet identifier by its toggle.
pub open spec fn data_pid(data1: bool) -> u32 {
    if data1 {
        PID_DATA1
    } else {
        PID_DATA0
    }
}

/// The transfer that a stage stands for.
pub open spec fn stage_plan(ep: ControlEp, s: Stage) -> XferPlan {
    match s {
        Stage::Setup { packet } => XferPlan {
            hcchar: control_hcchar(ep, false),
            hctsiz: one_packet(PID_SETUP, 8),
            dma_off: OFF_EP0,
        },
        Stage::DataIn { off, len, data1, dma_off } => XferPlan {
            hcchar: control_hcchar(ep, true),
            hctsiz: one_packet(data_pid(data1), len as u32),
            dma_off,
        },
        Stage::DataOut { off, len, data1 } => XferPlan {
            hcchar: control_hcchar(ep, false),
            hctsiz: one_packet(data_pid(data1), len as u32),
            dma_off: DMA_OFF_SMALL_IO,
        },
        Stage::Status { dir_in } => XferPlan {
            hcchar: control_hcchar(ep, dir_in),
            hctsiz: one_packet(PID_DATA1, 0),
            dma_off: OFF_EP0,
        },
    }
}

/// Cache maintenance of a stage, with the window at `base`: what goes out is written back before
/// the transfer, what comes in is forgotten behind it.
pub open spec fn stage_cache(base: usize, s: Stage) -> Option<HwOp> {
    match s {
        Stage::Setup { packet } => Some(
            HwOp::CleanCache { start: (base + OFF_EP0) as usize, size: 8 },
        ),
        Stage::DataIn { off, len, data1, dma_off } => Some(
            HwOp::InvalidateCache { start: (base + dma_off) as usize, size: len },
        ),
        Stage::DataOut { off, len, data1 } => Some(
            HwOp::CleanCache { start: (base + DMA_OFF_SMALL_IO) as usize, size: len },
        ),
        Stage::Status { dir_in } => None,
    }
}

/// The data stage from `off` on: packets of full size and a shorter one at the end, with toggles
/// in turn.
pub open spec fn data_stages(off: int, len: int, mps: int, data1: bool, dir_in: bool) -> Seq<Stage>
    decreases len - off,
{
    if off >= len || mps <= 0 {
        Seq::empty()
    } else {
        let n = if mps < len - off {
            mps
        } else {
            len - off
        };
        let s = if dir_in {
            Stage::DataIn {
                off: off as usize,
                len: n as usize,
                data1,
                dma_off: DMA_OFF_SMALL_IO,
            }
        } else {
            Stage::DataOut { off: off as usize, len: n as usize, data1 }
        };
        seq![s] + data_stages(off + n, len, mps, !data1, dir_in)
    }
}

/// The stages of a control transfer that reads `len` bytes.
pub open spec fn read_stages(packet: [u8; 8], len: int, mps: int) -> Seq<Stage> {
    seq![Stage::Setup { packet }] + data_stages(0, len, mps, true, true) + seq![
        Stage::Status { dir_in: false },
    ]
}

/// The stages of a control transfer that writes `len` bytes.
pub open spec fn write_stages(packet: [u8; 8], len: int, mps: int) -> Seq<Stage> {
    seq![Stage::Setup { packet }] + data_stages(0, len, mps, true, false) + seq![
        Stage::Status { dir_in: true },
    ]
}

/// Where a packet of the data stage belongs, how long it is, and its toggle.
pub open spec fn packet_of(s: Stage) -> (int, int, bool) {
    match s {
        Stage::DataIn { off, len, data1, dma_off } => (off as int, len as int, data1),
        Stage::DataOut { off, len, data1 } => (off as int, len as int, data1),
        _ => (0, 0, false),
    }
}

/// The packets of a data stage lie one behind the other without a gap, none is empty or greater
/// than the endpoint takes, toggles alternate from `data1` on, and together they cover all bytes.
pub proof fn law_data_stages_tile(off: int, len: int, mps: int, data1: bool, dir_in: bool)
    requires
        0 <= off <= len <= usize::MAX,
        0 < mps,
    ensures
        ({
            let s = data_stages(off, len, mps, data1, dir_in);
            &&& off < len ==> s.len() > 0 && packet_of(s[0]).0 == off && packet_of(s[0]).2 == data1
                && packet_of(s.last()).0 + packet_of(s.last()).1 == len
            &&& off == len ==> s.len() == 0
            &&& forall|k: int|
                0 <= k < s.len() ==> 0 < packet_of(#[trigger] s[k]).1 <= mps
            &&& forall|k: int|
                #![trigger s[k]]
                0 < k < s.len() ==> {
                    &&& packet_of(s[k]).0 == packet_of(s[k - 1]).0 + packet_of(s[k - 1]).1
                    &&& packet_of(s[k]).2 != packet_of(s[k - 1]).2
                    &&& packet_of(s[k - 1]).1 == mps
                }
        }),
    decreases len - off,
{
    if off < len {
        let s = data_stages(off, len, mps, data1, dir_in);
        let n = if mps < len - off {
            mps
        } else {
            len - off
        };
        law_data_stages_tile(off + n, len, mps, !data1, dir_in);
        let rest = data_stages(off + n, len, mps, !data1, dir_in);
        assert(forall|k: int| 0 < k < s.len() ==> #[trigger] s[k] == rest[k - 1]);
        if rest.len() > 0 {
            assert(s.last() == rest.last());
        }
    }
}

/// Packet size that a device descriptor stands for; anything unusual counts as the smallest.
pub open spec fn normal_mps(b: u8) -> u32 {
    if b == 8 || b == 16 || b == 32 || b == 64 {
        b as u32
    } else {
        8
    }
}

/// Packet size of the control endpoint.
pub fn normalize_ep0_mps(b: u8) -> (r: u32)
    ensures
        r == normal_mps(b),
        r == 8 || r == 16 || r == 32 || r == 64,
{
    if b == 8 || b == 16 || b == 32 || b == 64 {
        b as u32
    } else {
        8
    }
}

/// What a device descriptor says of a device: vendor, product, packet size, class.
pub open spec fn identity_of(d: Seq<u8>) -> (u16, u16, u32, u8) {
    (
        (d[8] + 256 * d[9]) as u16,
        (d[10] + 256 * d[11]) as u16,
        normal_mps(d[7]),
        d[4],
    )
}

/// Reads a device descriptor.
pub fn parse_device_descriptor(d: &[u8]) -> (r: UsbResult<(u16, u16, u32, u8)>)
    ensures
        r == (if d@.len() < 18 {
            Err(UsbError::Protocol(ERR_SHORT_DESCRIPTOR))
        } else {
            Ok(identity_of(d@))
        }),
{
    if d.len() < DEVICE_DESCRIPTOR_LEN {
        return Err(UsbError::Protocol(ERR_SHORT_DESCRIPTOR));
    }
    let vid: u16 = d[8] as u16 + 256 * d[9] as u16;
    let pid: u16 = d[10] as u16 + 256 * d[11] as u16;
    Ok((vid, pid, normalize_ep0_mps(d[7]), d[4]))
}

/// A configuration descriptor in a buffer of 4096 bytes: what was read, then zeros.
pub open spec fn configuration_bytes(body: Seq<u8>) -> Seq<u8> {
    Seq::new(
        4096,
        |i: int|
            if i < body.len() {
                body[i]
            } else {
                0u8
            },
    )
}

/// What follows the head of configuration descriptor `cfg_index`: the request for all of it, or
/// the reason why it is not read.
pub open spec fn body_request(cfg_index: u8, head: Seq<u8>) -> UsbResult<RequestView> {
    let total = (head[2] + 256 * head[3]) as u16;
    if head[1] != USB_DT_CONFIGURATION {
        Err(UsbError::Protocol(ERR_NOT_CONFIGURATION))
    } else if total > 4096 {
        Err(UsbError::Protocol(ERR_CONFIGURATION_LARGE))
    } else {
        Ok(
            RequestView::In {
                setup: seq![0x80u8, 6, cfg_index, 2, 0, 0, lo8(total), hi8(total)],
                len: total as int,
            },
        )
    }
}

impl Stage {
    /// The transfer that the stage stands for.
    pub fn plan(&self, ep: &ControlEp) -> (r: XferPlan)
        requires
            packet_of(*self).1 <= MAX_CONTROL_DATA,
        ensures
            r == stage_plan(*ep, *self),
    {
        match *self {
            Stage::Setup { packet } => XferPlan {
                hcchar: ep.hcchar(false),
                hctsiz: size_of_one(PID_SETUP, 8),
                dma_off: OFF_EP0,
            },
            Stage::DataIn { off, len, data1, dma_off } => XferPlan {
                hcchar: ep.hcchar(true),
                hctsiz: size_of_one(
                    if data1 {
                        PID_DATA1
                    } else {
                        PID_DATA0
                    },
                    len as u32,
                ),
                dma_off,
            },
            Stage::DataOut { off, len, data1 } => XferPlan {
                hcchar: ep.hcchar(false),
                hctsiz: size_of_one(
                    if data1 {
                        PID_DATA1
                    } else {
                        PID_DATA0
                    },
                    len as u32,
                ),
                dma_off: DMA_OFF_SMALL_IO,
            },
            Stage::Status { dir_in } => XferPlan {
                hcchar: ep.hcchar(dir_in),
                hctsiz: size_of_one(PID_DATA1, 0),
                dma_off: OFF_EP0,
            },
        }
    }

    /// Cache maintenance of the stage, with the window at `base`.
    pub fn cache_op(&self, base: usize) -> (r: Option<HwOp>)
        requires
            base + DMA_OFF_SMALL_IO <= usize::MAX,
            *self matches Stage::DataIn { off, len, data1, dma_off } ==> base + dma_off
                <= usize::MAX,
        ensures
            r == stage_cache(base, *self),
    {
        match *self {
            Stage::Setup { packet } => Some(
                HwOp::CleanCache { start: base + OFF_EP0, size: 8 },
            ),
            Stage::DataIn { off, len, data1, dma_off } => Some(
                HwOp::InvalidateCache { start: base + dma_off, size: len },
            ),
            Stage::DataOut { off, len, data1 } => Some(
                HwOp::CleanCache { start: base + DMA_OFF_SMALL_IO, size: len },
            ),
            Stage::Status { dir_in } => None,
        }
    }
}

/// Size register of a transfer of one packet.
fn size_of_one(pid: u32, len: u32) -> (r: u32)
    ensures
        r == one_packet(pid, len),
{
    field_val(HCTSIZ_PID, pid) | field_val(HCTSIZ_PKTCNT, 1) | field_val(HCTSIZ_XFERSIZE, len)
}

/// The packets of a data stage of `len` bytes.
fn packets(len: usize, mps: u32, dir_in: bool) -> (r: Vec<Stage>)
    requires
        0 < mps,
        len <= MAX_CONTROL_DATA,
    ensures
        r@ == data_stages(0, len as int, mps as int, true, dir_in),
{
    let mut r: Vec<Stage> = Vec::new();
    let mut off: usize = 0;
    let mut data1: bool = true;
    let ghost whole = data_stages(0, len as int, mps as int, true, dir_in);
    let mut more: bool = 0 < len;
    while more
        invariant
            0 < mps,
            len <= MAX_CONTROL_DATA,
            off <= len,
            more == (off < len),
            whole =~= r@ + data_stages(off as int, len as int, mps as int, data1, dir_in),
        decreases len - off,
    {
        let step: usize = if (mps as usize) < len - off {
            mps as usize
        } else {
            len - off
        };
        let s: Stage = if dir_in {
            Stage::DataIn { off, len: step, data1, dma_off: DMA_OFF_SMALL_IO }
        } else {
            Stage::DataOut { off, len: step, data1 }
        };
        let ghost rest = data_stages(off + step, len as int, mps as int, !data1, dir_in);
        proof {
            assert(data_stages(off as int, len as int, mps as int, data1, dir_in) =~= seq![s]
                + rest);
        }
        r.push(s);
        off = off + step;
        data1 = !data1;
        more = off < len;
    }
    r
}

impl ControlEp {
    /// The control endpoint of the device at address `dev`.
    pub fn new(dev: u32, control_ep_mps: u32) -> (ep: ControlEp)
        ensures
            ep == (ControlEp { dev, mps: control_ep_mps }),
    {
        ControlEp { dev, mps: control_ep_mps }
    }

    /// Address of the device.
    pub fn dev(&self) -> (r: u32)
        ensures
            r == self.dev,
    {
        self.dev
    }

    /// Characteristics of the endpoint.
    pub fn hcchar(&self, dir_in: bool) -> (r: u32)
        ensures
            r == control_hcchar(*self, dir_in),
    {
        let out: u32 = field_val(HCCHAR_MPS, self.mps) | field_val(HCCHAR_EPNUM, 0) | field_val(
            HCCHAR_DEVADDR,
            self.dev,
        ) | field_val(HCCHAR_EPTYPE, EPTYPE_CONTROL);
        if dir_in {
            out | field_val(HCCHAR_EPDIR, 1)
        } else {
            out
        }
    }

    /// The stages of the first request to a new device, on the default address with packets of 64
    /// bytes: its descriptor, in one packet.
    pub fn probe_default_addr() -> (r: (ControlEp, Vec<Stage>))
        ensures
            r.0 == (ControlEp { dev: 0, mps: 64 }),
            exists|packet: [u8; 8]|
                packet@ == seq![0x80u8, 6, 0, 1, 0, 0, 18, 0] && r.1@ == seq![
                    Stage::Setup { packet },
                    Stage::DataIn { off: 0, len: 18, data1: true, dma_off: OFF_EP0 },
                    Stage::Status { dir_in: false },
                ],
    {
        let packet = StdRequest::get_descriptor_device();
        let mut stages: Vec<Stage> = Vec::new();
        stages.push(Stage::Setup { packet });
        stages.push(Stage::DataIn { off: 0, len: 18, data1: true, dma_off: OFF_EP0 });
        stages.push(Stage::Status { dir_in: false });
        assert(stages@ == seq![
            Stage::Setup { packet },
            Stage::DataIn { off: 0, len: 18, data1: true, dma_off: OFF_EP0 },
            Stage::Status { dir_in: false },
        ]);
        (ControlEp { dev: 0, mps: 64 }, stages)
    }

    /// The request that gives the device its address; only a device on the default address can be
    /// given one.
    pub fn set_address_request(&self, addr: u8) -> (r: UsbResult<ControlRequest>)
        ensures
            self.dev != 0 ==> r == Err::<ControlRequest, UsbError>(
                UsbError::Protocol(ERR_NOT_DEFAULT),
            ),
            self.dev == 0 ==> (r matches Ok(req) && req@ == (RequestView::NoData {
                setup: seq![0u8, 5, addr, 0, 0, 0, 0, 0],
            })),
    {
        if self.dev != 0 {
            return Err(UsbError::Protocol(ERR_NOT_DEFAULT));
        }
        Ok(ControlRequest::no_data(StdRequest::set_address(addr)))
    }

    /// Moves the endpoint to the new address once the device has taken it.
    pub fn set_address(&mut self, addr: u8, sent: UsbResult<()>) -> (r: UsbResult<()>)
        ensures
            r == (if old(self).dev != 0 {
                Err(UsbError::Protocol(ERR_NOT_DEFAULT))
            } else {
                sent
            }),
            *final(self) == (if r is Ok {
                ControlEp { dev: addr as u32, ..*old(self) }
            } else {
                *old(self)
            }),
    {
        if self.dev != 0 {
            return Err(UsbError::Protocol(ERR_NOT_DEFAULT));
        }
        match sent {
            Ok(u) => {
                self.dev = addr as u32;
                Ok(u)
            },
            Err(e) => Err(e),
        }
    }

    /// The request that activates a configuration.
    pub fn set_configuration(&self, cfg: u8) -> (r: ControlRequest)
        ensures
            r@ == (RequestView::NoData { setup: seq![0u8, 9, cfg, 0, 0, 0, 0, 0] }),
    {
        ControlRequest::no_data(StdRequest::set_configuration(cfg))
    }

    /// The request that selects an alternate setting.
    pub fn set_interface(&self, alt: u8, interface: u8) -> (r: ControlRequest)
        ensures
            r@ == (RequestView::NoData { setup: seq![1u8, 0x0B, alt, 0, interface, 0, 0, 0] }),
    {
        ControlRequest::no_data(StdRequest::set_interface(alt, interface))
    }

    /// The first of the two requests for a configuration descriptor: its head.
    pub fn get_configuration_descriptor(&self, cfg_index: u8) -> (r: ControlRequest)
        ensures
            r@ == (RequestView::In {
                setup: seq![0x80u8, 6, cfg_index, 2, 0, 0, 9, 0],
                len: 9,
            }),
    {
        let r = ControlRequest::data_in(
            StdRequest::get_descriptor_configuration(cfg_index, 9),
            CONFIGURATION_HEAD_LEN,
        );
        assert(lo8(9) == 9 && hi8(9) == 0);
        r
    }

    /// The second of the two requests for a configuration descriptor, by its head: all of it, as
    /// far as it is one and not too large.
    pub fn get_configuration_body(&self, cfg_index: u8, head: &[u8; 9]) -> (r: UsbResult<
        ControlRequest,
    >)
        ensures
            match body_request(cfg_index, head@) {
                Ok(v) => r matches Ok(req) && req@ == v,
                Err(e) => r == Err::<ControlRequest, UsbError>(e),
            },
    {
        if head[1] != USB_DT_CONFIGURATION {
            return Err(UsbError::Protocol(ERR_NOT_CONFIGURATION));
        }
        let total: u16 = head[2] as u16 + 256 * head[3] as u16;
        if total > 4096 {
            return Err(UsbError::Protocol(ERR_CONFIGURATION_LARGE));
        }
        Ok(
            ControlRequest::data_in(
                StdRequest::get_descriptor_configuration(cfg_index, total),
                total as usize,
            ),
        )
    }

    /// The buffer that holds a configuration descriptor: what was read, then zeros.
    pub fn configuration_buffer(&self, body: &[u8]) -> (r: [u8; 4096])
        requires
            body@.len() <= 4096,
        ensures
            r@ == configuration_bytes(body@),
    {
        let mut r: [u8; 4096] = [0u8; 4096];
        let mut i: usize = 0;
        while i < body.len()
            invariant
                i <= body@.len() <= 4096,
                forall|k: int|
                    0 <= k < 4096 ==> r@[k] == (if k < i {
                        body@[k]
                    } else {
                        0u8
                    }),
            decreases body@.len() - i,
        {
            r[i] = body[i];
            i = i + 1;
        }
        assert(r@ =~= configuration_bytes(body@));
        r
    }

    /// The stages of a transfer without data.
    pub fn write_no_data(&self, setup_packet: [u8; 8]) -> (r: Vec<Stage>)
        ensures
            r@ == seq![Stage::Setup { packet: setup_packet }, Stage::Status { dir_in: true }],
    {
        let mut r: Vec<Stage> = Vec::new();
        r.push(Stage::Setup { packet: setup_packet });
        r.push(Stage::Status { dir_in: true });
        r
    }

    /// The stages of a transfer of `len` bytes towards the host.
    pub fn read(&self, setup_packet: [u8; 8], len: usize) -> (r: UsbResult<Vec<Stage>>)
        requires
            0 < len <= 4096 ==> 0 < self.mps,
        ensures
            len == 0 || len > 4096 ==> r == Err::<Vec<Stage>, UsbError>(
                UsbError::Protocol(ERR_READ_LEN),
            ),
            0 < len <= 4096 ==> (r matches Ok(v) && v@ == read_stages(
                setup_packet,
                len as int,
                self.mps as int,
            )),
    {
        if len == 0 || len > MAX_CONTROL_DATA {
            return Err(UsbError::Protocol(ERR_READ_LEN));
        }
        let mut r: Vec<Stage> = Vec::new();
        r.push(Stage::Setup { packet: setup_packet });
        let mut data: Vec<Stage> = packets(len, self.mps, true);
        r.append(&mut data);
        r.push(Stage::Status { dir_in: false });
        assert(r@ =~= read_stages(setup_packet, len as int, self.mps as int));
        Ok(r)
    }

    /// The stages of a transfer of `len` bytes towards the device.
    pub fn write(&self, setup_packet: [u8; 8], len: usize) -> (r: UsbResult<Vec<Stage>>)
        requires
            len <= 4096 ==> 0 < self.mps,
        ensures
            len > 4096 ==> r == Err::<Vec<Stage>, UsbError>(UsbError::Protocol(ERR_WRITE_LEN)),
            len <= 4096 ==> (r matches Ok(v) && v@ == write_stages(
                setup_packet,
                len as int,
                self.mps as int,
            )),
    {
        if len > MAX_CONTROL_DATA {
            return Err(UsbError::Protocol(ERR_WRITE_LEN));
        }
        let mut r: Vec<Stage> = Vec::new();
        r.push(Stage::Setup { packet: setup_packet });
        let mut data: Vec<Stage> = packets(len, self.mps, false);
        r.append(&mut data);
        r.push(Stage::Status { dir_in: true });
        assert(r@ =~= write_stages(setup_packet, len as int, self.mps as int));
        Ok(r)
    }
}

// ---------------------------------------------------------------------------
// Going through the stages
// ---------------------------------------------------------------------------
/// What a stage puts into the window before its transfer, and where: the SETUP packet, or its
/// part of the data `out`.
pub open spec fn stage_load(s: Stage, out: Seq<u8>) -> Option<(int, Seq<u8>)> {
    match s {
        Stage::Setup { packet } => Some((OFF_EP0 as int, packet@)),
        Stage::DataOut { off, len, data1 } => Some(
            (DMA_OFF_SMALL_IO as int, out.subrange(off as int, off + len)),
        ),
        _ => None,
    }
}

impl Stage {
    /// Puts what the stage sends into the window.
    pub fn load(&self, window: &mut Vec<u8>, out: &[u8]) -> (r: UsbResult<()>)
        requires
            old(window)@.len() == DMA_BUF_TOTAL,
            *self matches Stage::DataOut { off, len, data1 } ==> off + len <= out@.len(),
        ensures
            final(window)@.len() == DMA_BUF_TOTAL,
            match stage_load(*self, out@) {
                Some((at, src)) => {
                    &&& r == write_outcome(at, src.len() as int)
                    &&& r is Ok ==> final(window)@ == written(old(window)@, at, src)
                    &&& r is Err ==> final(window)@ == old(window)@
                },
                None => r is Ok && final(window)@ == old(window)@,
            },
    {
        match *self {
            Stage::Setup { packet } => dma_write_at(window, OFF_EP0, &packet),
            Stage::DataOut { off, len, data1 } => {
                let all: usize = out.len();
                assert(off + len <= all);
                dma_write_at(
                    window,
                    DMA_OFF_SMALL_IO,
                    vstd::slice::slice_subrange(out, off, off + len),
                )
            },
            _ => Ok(()),
        }
    }
}

/// A control transfer under way.
pub struct ControlRun {
    pub stages: Vec<Stage>,
    /// The stage that is performed now.
    pub pos: usize,
    /// What was read so far.
    pub data: Vec<u8>,
}

/// Contents of a [`ControlRun`].
#[verifier::ext_equal]
pub struct RunView {
    pub stages: Seq<Stage>,
    pub pos: int,
    pub data: Seq<u8>,
}

impl View for ControlRun {
    type V = RunView;

    open spec fn view(&self) -> RunView {
        RunView { stages: self.stages@, pos: self.pos as int, data: self.data@ }
    }
}

/// What follows a stage.
#[derive(Clone, Copy, Debug, PartialEq, Eq)]
pub enum RunStep {
    /// Perform this stage.
    Perform(Stage),
    /// The transfer is over; what was read has been gathered.
    Finish(UsbResult<()>),
}

/// A transfer before its first stage.
pub open spec fn run_start(stages: Seq<Stage>) -> RunView {
    RunView { stages, pos: 0, data: Seq::empty() }
}

/// What follows the stage that is performed, where it went as `result` says and left `window`
/// behind: a failure ends the transfer, bytes that came in are gathered, and the last stage
/// completes it.
pub open spec fn run_next(v: RunView, result: UsbResult<()>, window: Seq<u8>) -> (RunView, RunStep) {
    let over = v.stages.len() as int;
    match result {
        Err(e) => (RunView { pos: over, ..v }, RunStep::Finish(Err(e))),
        Ok(_) => match v.stages[v.pos] {
            Stage::DataIn { off, len, data1, dma_off } => if readable(dma_off as int, len as int) {
                run_on(
                    RunView {
                        data: v.data + window.subrange(dma_off as int, dma_off + len),
                        ..v
                    },
                )
            } else {
                (
                    RunView { pos: over, ..v },
                    RunStep::Finish(Err(UsbError::Hardware(ERR_DMA_VIEW))),
                )
            },
            _ => run_on(v),
        },
    }
}

/// The stage behind the one that was performed, or the end.
pub open spec fn run_on(v: RunView) -> (RunView, RunStep) {
    (
        RunView { pos: v.pos + 1, ..v },
        if v.pos + 1 < v.stages.len() {
            RunStep::Perform(v.stages[v.pos + 1])
        } else {
            RunStep::Finish(Ok(()))
        },
    )
}

impl ControlRun {
    /// Begins a transfer with its first stage.
    pub fn new(stages: Vec<Stage>) -> (r: (ControlRun, RunStep))
        requires
            stages@.len() > 0,
        ensures
            r.0@ == run_start(stages@),
            r.1 == RunStep::Perform(stages@[0]),
    {
        let first: Stage = stages[0];
        let run = ControlRun { stages, pos: 0, data: Vec::new() };
        assert(run@.data =~= Seq::<u8>::empty());
        (run, RunStep::Perform(first))
    }

    /// Takes the news how the stage went, with the window as it left it.
    pub fn step(&mut self, result: UsbResult<()>, window: &[u8]) -> (r: RunStep)
        requires
            old(self)@.pos < old(self)@.stages.len(),
            window@.len() == DMA_BUF_TOTAL,
        ensures
            (final(self)@, r) == run_next(old(self)@, result, window@),
    {
        if let Err(e) = result {
            self.pos = self.stages.len();
            return RunStep::Finish(Err(e));
        }
        if let Stage::DataIn { off, len, data1, dma_off } = self.stages[self.pos] {
            match dma_rx_slice(window, dma_off, len) {
                None => {
                    self.pos = self.stages.len();
                    return RunStep::Finish(Err(UsbError::Hardware(ERR_DMA_VIEW)));
                },
                Some(part) => {
                    self.data.extend_from_slice(part);
                },
            }
        }
        let count: usize = self.stages.len();
        assert(self.pos < count);
        self.pos = self.pos + 1;
        if self.pos < count {
            RunStep::Perform(self.stages[self.pos])
        } else {
            RunStep::Finish(Ok(()))
        }
    }
}

/// A stage that fails ends its transfer with its error, and no stage follows.
pub proof fn law_failed_stage_ends(v: RunView, e: UsbError, window: Seq<u8>)
    ensures
        run_next(v, Err(e), window).1 == RunStep::Finish(Err(e)),
        run_next(v, Err(e), window).0.pos == v.stages.len(),
{
}

/// A transfer without data is its SETUP packet and then its status: where SETUP fails, its error
/// is the result and there is no status stage; else the result is that of the status stage.
pub proof fn law_transfer_without_data(
    packet: [u8; 8],
    setup: UsbResult<()>,
    status: UsbResult<()>,
    window: Seq<u8>,
)
    ensures
        ({
            let start = run_start(
                seq![Stage::Setup { packet }, Stage::Status { dir_in: true }],
            );
            let (v, step) = run_next(start, setup, window);
            match setup {
                Err(e) => step == RunStep::Finish(Err(e)),
                Ok(_) => step == RunStep::Perform(Stage::Status { dir_in: true }) && run_next(
                    v,
                    status,
                    window,
                ).1 == RunStep::Finish(status),
            }
        }),
{
    if let Ok(u) = status {
        assert(u == ());
    }
}

/// A transfer of which every stage from the current one on succeeds; stage `k` leaves
/// `windows[k]` behind.
pub open spec fn run_all(v: RunView, windows: Seq<Seq<u8>>) -> (RunView, RunStep)
    decreases v.stages.len() - v.pos,
{
    let (w, step) = run_next(v, Ok(()), windows[v.pos]);
    if step is Perform && 0 <= v.pos < v.stages.len() {
        run_all(w, windows)
    } else {
        (w, step)
    }
}

/// What the data stage of a read from `off` on brings, where stage `k` leaves `windows[k]`
/// behind and the next stage is `pos`.
pub open spec fn data_read(off: int, len: int, mps: int, pos: int, windows: Seq<Seq<u8>>) -> Seq<u8>
    decreases len - off,
{
    if off >= len || mps <= 0 {
        Seq::empty()
    } else {
        let n = if mps < len - off {
            mps
        } else {
            len - off
        };
        windows[pos].subrange(DMA_OFF_SMALL_IO as int, DMA_OFF_SMALL_IO + n) + data_read(
            off + n,
            len,
            mps,
            pos + 1,
            windows,
        )
    }
}

/// The rest of a read succeeds and gathers the rest of its data.
proof fn lemma_read_on(
    v: RunView,
    off: int,
    len: int,
    mps: int,
    data1: bool,
    windows: Seq<Seq<u8>>,
)
    requires
        0 <= off <= len <= 4096,
        0 < mps,
        0 <= v.pos,
        v.stages.len() == windows.len(),
        forall|k: int| 0 <= k < windows.len() ==> (#[trigger] windows[k]).len() == DMA_BUF_TOTAL,
        v.stages.skip(v.pos) == data_stages(off, len, mps, data1, true) + seq![
            Stage::Status { dir_in: false },
        ],
        v.pos < v.stages.len(),
    ensures
        run_all(v, windows).1 == RunStep::Finish(Ok(())),
        run_all(v, windows).0.data == v.data + data_read(off, len, mps, v.pos, windows),
        data_read(off, len, mps, v.pos, windows).len() == len - off,
    decreases len - off,
{
    let tail = v.stages.skip(v.pos);
    assert(tail[0] == v.stages[v.pos]);
    if off < len {
        let n = if mps < len - off {
            mps
        } else {
            len - off
        };
        let rest = data_stages(off + n, len, mps, !data1, true) + seq![
            Stage::Status { dir_in: false },
        ];
        let w = run_next(v, Ok(()), windows[v.pos]).0;
        assert(tail.skip(1) =~= rest);
        assert(w.stages.skip(w.pos) =~= tail.skip(1));
        lemma_read_on(w, off + n, len, mps, !data1, windows);
        let part = windows[v.pos].subrange(DMA_OFF_SMALL_IO as int, DMA_OFF_SMALL_IO + n);
        let more = data_read(off + n, len, mps, v.pos + 1, windows);
        assert((v.data + part) + more =~= v.data + (part + more));
    } else {
        assert(data_stages(off, len, mps, data1, true) =~= Seq::empty());
        assert(tail.len() == 1);
        assert(v.data + Seq::<u8>::empty() =~= v.data);
    }
}

/// A read whose stages all succeed ends with success, and brings as many bytes as were asked
/// for: those that each packet left in the window, in their order.
pub proof fn law_read_gathers_all(packet: [u8; 8], len: int, mps: int, windows: Seq<Seq<u8>>)
    requires
        0 < len <= 4096,
        0 < mps,
        windows.len() == read_stages(packet, len, mps).len(),
        forall|k: int| 0 <= k < windows.len() ==> (#[trigger] windows[k]).len() == DMA_BUF_TOTAL,
    ensures
        ({
            let (v, step) = run_all(run_start(read_stages(packet, len, mps)), windows);
            &&& step == RunStep::Finish(Ok(()))
            &&& v.data == data_read(0, len, mps, 1, windows)
            &&& v.data.len() == len
        }),
{
    let v = run_start(read_stages(packet, len, mps));
    let w = run_next(v, Ok(()), windows[0]).0;
    law_data_stages_tile(0, len, mps, true, true);
    assert(w.stages.skip(1) =~= data_stages(0, len, mps, true, true) + seq![
        Stage::Status { dir_in: false },
    ]);
    lemma_read_on(w, 0, len, mps, true, windows);
    assert(Seq::<u8>::empty() + data_read(0, len, mps, 1, windows) =~= data_read(
        0,
        len,
        mps,
        1,
        windows,
    ));
}

// ---------------------------------------------------------------------------
// What the device sees of a transfer
// ---------------------------------------------------------------------------
/// Whether a stage brings something from the device: data that is read, or the status of what was
/// written.
pub open spec fn comes_in(s: Stage) -> bool {
    match s {
        Stage::Setup { packet } => false,
        Stage::DataIn { off, len, data1, dma_off } => true,
        Stage::DataOut { off, len, data1 } => false,
        Stage::Status { dir_in } => dir_in,
    }
}

/// Bytes that a stage moves.
pub open spec fn stage_bytes(s: Stage) -> int {
    match s {
        Stage::Setup { packet } => 8,
        Stage::DataIn { off, len, data1, dma_off } => len as int,
        Stage::DataOut { off, len, data1 } => len as int,
        Stage::Status { dir_in } => 0,
    }
}

/// The number of a packet in bits 29 and 30 of the size register: 3 is SETUP, 0 and 2 are data by
/// their toggle, and the status counts as 2.
pub open spec fn stage_pid(s: Stage) -> u32 {
    match s {
        Stage::Setup { packet } => 3,
        Stage::DataIn { off, len, data1, dma_off } => if data1 {
            2
        } else {
            0
        },
        Stage::DataOut { off, len, data1 } => if data1 {
            2
        } else {
            0
        },
        Stage::Status { dir_in } => 2,
    }
}

/// In the transfer of a stage bit 15 of the characteristics is set exactly where data or status
/// comes from the device. The other bits carry the packet size in 0 to 10, endpoint 0, control
/// as the type, and the address of the device in 22 to 28; no other bit is set.
pub proof fn law_stage_characteristics(ep: ControlEp, s: Stage)
    ensures
        ({
            let c = stage_plan(ep, s).hcchar;
            &&& (c & 0x8000 != 0) == comes_in(s)
            &&& c & 0x7ff == ep.mps & 0x7ff
            &&& (c >> 11u32) & 0xf == 0
            &&& (c >> 18u32) & 3 == 0
            &&& (c >> 22u32) & 0x7f == ep.dev & 0x7f
            &&& c & 0xe033_0000 == 0
        }),
{
    let (m, d) = (ep.mps, ep.dev);
    let out = ((m & 0x7FF) << 0u32) | ((0u32 & 0xF) << 11u32) | ((d & 0x7F) << 22u32) | ((0u32 & 3)
        << 18u32);
    let inward = out | ((1u32 & 1) << 15u32);
    assert(out & 0x8000 == 0 && out & 0x7ff == m & 0x7ff && (out >> 11u32) & 0xf == 0 && (out
        >> 18u32) & 3 == 0 && (out >> 22u32) & 0x7f == d & 0x7f && out & 0xe033_0000 == 0)
        by (bit_vector)
        requires
            out == ((m & 0x7FF) << 0u32) | ((0u32 & 0xF) << 11u32) | ((d & 0x7F) << 22u32) | ((0u32
                & 3) << 18u32),
    ;
    assert(inward & 0x8000 != 0 && inward & 0x7ff == out & 0x7ff && (inward >> 11u32) & 0xf == (out
        >> 11u32) & 0xf && (inward >> 18u32) & 3 == (out >> 18u32) & 3 && (inward >> 22u32) & 0x7f
        == (out >> 22u32) & 0x7f && inward & 0xe033_0000 == out & 0xe033_0000) by (bit_vector)
        requires
            out & 0x8000 == 0,
            inward == out | ((1u32 & 1) << 15u32),
            (out >> 11u32) & 0xf == 0,
    ;
}

/// In the transfer of a stage the size register carries the bytes to move in bits 0 to 18, one
/// packet in 19 to 28 and the packet's number in 29 and 30. SETUP packets and status go through
/// the start of the window, what is written through byte 256 of it, and what is read through the
/// place that the stage names.
pub proof fn law_stage_size(ep: ControlEp, s: Stage)
    requires
        stage_bytes(s) <= 4096,
    ensures
        ({
            let z = stage_plan(ep, s).hctsiz;
            &&& z & 0x7_ffff == stage_bytes(s)
            &&& (z >> 19u32) & 0x3ff == 1
            &&& (z >> 29u32) & 3 == stage_pid(s)
            &&& z & 0x8000_0000 == 0
        }),
        stage_plan(ep, s).dma_off == (match s {
            Stage::DataIn { off, len, data1, dma_off } => dma_off as int,
            Stage::DataOut { off, len, data1 } => 256int,
            _ => 0int,
        }),
{
    let (p, n) = (stage_pid(s), stage_bytes(s) as u32);
    let z = ((p & 3) << 29u32) | ((1u32 & 0x3FF) << 19u32) | ((n & 0x7_FFFF) << 0u32);
    assert(z & 0x7_ffff == n && (z >> 19u32) & 0x3ff == 1 && (z >> 29u32) & 3 == p && z
        & 0x8000_0000 == 0) by (bit_vector)
        requires
            z == ((p & 3) << 29u32) | ((1u32 & 0x3FF) << 19u32) | ((n & 0x7_FFFF) << 0u32),
            n <= 4096,
            p <= 3,
    ;
}

/// What goes out is written back from the cache before its transfer, what comes in is forgotten
/// behind it, for just the bytes that the transfer moves at the place where it moves them.
pub proof fn law_stage_cache_covers_transfer(ep: ControlEp, base: usize, s: Stage)
    requires
        base + stage_plan(ep, s).dma_off <= usize::MAX,
    ensures
        stage_bytes(s) > 0 && comes_in(s) ==> stage_cache(base, s) == Some(
            HwOp::InvalidateCache {
                start: (base + stage_plan(ep, s).dma_off) as usize,
                size: stage_bytes(s) as usize,
            },
        ),
        stage_bytes(s) > 0 && !comes_in(s) ==> stage_cache(base, s) == Some(
            HwOp::CleanCache {
                start: (base + stage_plan(ep, s).dma_off) as usize,
                size: stage_bytes(s) as usize,
            },
        ),
        s is Status ==> stage_cache(base, s) is None,
{
}

/// Byte `i` of the data stage moves in packet `i / mps`, as byte `i % mps` of it.
proof fn lemma_data_stage_of(
    off: int,
    len: int,
    mps: int,
    data1: bool,
    dir_in: bool,
    i: int,
)
    requires
        0 <= off <= i < len <= usize::MAX,
        0 < mps,
    ensures
        ({
            let s = data_stages(off, len, mps, data1, dir_in);
            let k = (i - off) / mps;
            &&& 0 <= k < s.len()
            &&& packet_of(s[k]).0 == off + k * mps
            &&& packet_of(s[k]).0 <= i < packet_of(s[k]).0 + packet_of(s[k]).1
            &&& packet_of(s[k]).2 == (data1 == (k % 2 == 0))
            &&& if dir_in {
                s[k] matches Stage::DataIn { off, len, data1, dma_off } && dma_off == 256
            } else {
                s[k] is DataOut
            }
        }),
    decreases len - off,
{
    let s = data_stages(off, len, mps, data1, dir_in);
    let k = (i - off) / mps;
    vstd::arithmetic::div_mod::lemma_fundamental_div_mod(i - off, mps);
    if i - off < mps {
        vstd::arithmetic::div_mod::lemma_basic_div(i - off, mps);
        assert(k == 0);
        assert(0 * mps == 0);
    } else {
        let rest = data_stages(off + mps, len, mps, !data1, dir_in);
        lemma_data_stage_of(off + mps, len, mps, !data1, dir_in, i);
        let j = (i - off - mps) / mps;
        assert(k == j + 1 && k * mps == j * mps + mps) by {
            vstd::arithmetic::div_mod::lemma_div_minus_one(i - off, mps);
            assert((j + 1) * mps == j * mps + mps) by (nonlinear_arith);
        }
        assert(s[k] == rest[j]);
    }
}

/// A transfer that reads begins with the SETUP packet and ends with a status towards the device;
/// in between every byte is read, byte `i` in packet `i / mps`, with toggles in turn from 1 on.
#[verifier::rlimit(40)]
pub proof fn law_read_transfer(packet: [u8; 8], len: int, mps: int, i: int)
    requires
        0 <= i < len <= 4096,
        0 < mps,
    ensures
        ({
            let s = read_stages(packet, len, mps);
            let k = i / mps;
            &&& s[0] == Stage::Setup { packet }
            &&& s.last() == Stage::Status { dir_in: false }
            &&& 0 <= k < s.len() - 2
            &&& s[k + 1] matches Stage::DataIn { off, len: n, data1, dma_off } && off == k * mps
                && off <= i < off + n && n <= mps && data1 == (k % 2 == 0) && dma_off == 256
        }),
{
    let data = data_stages(0, len, mps, true, true);
    lemma_data_stage_of(0, len, mps, true, true, i);
    law_data_stages_tile(0, len, mps, true, true);
    assert(read_stages(packet, len, mps)[i / mps + 1] == data[i / mps]);
}

/// A transfer that writes begins with the SETUP packet and ends with a status from the device; in
/// between every byte is written, byte `i` in packet `i / mps`, with toggles in turn from 1 on.
#[verifier::rlimit(40)]
pub proof fn law_write_transfer(packet: [u8; 8], len: int, mps: int, i: int)
    requires
        0 <= i < len <= 4096,
        0 < mps,
    ensures
        ({
            let s = write_stages(packet, len, mps);
            let k = i / mps;
            &&& s[0] == Stage::Setup { packet }
            &&& s.last() == Stage::Status { dir_in: true }
            &&& 0 <= k < s.len() - 2
            &&& s[k + 1] matches Stage::DataOut { off, len: n, data1 } && off == k * mps && off <= i
                < off + n && n <= mps && data1 == (k % 2 == 0)
        }),
{
    let data = data_stages(0, len, mps, true, false);
    lemma_data_stage_of(0, len, mps, true, false, i);
    law_data_stages_tile(0, len, mps, true, false);
    assert(write_stages(packet, len, mps)[i / mps + 1] == data[i / mps]);
}

/// A transfer that writes puts byte `i` of its data into the window for packet `i / mps`, at the
/// place that this packet is sent from; the SETUP packet is put where it is sent from, and status
/// puts nothing there.
#[verifier::rlimit(40)]
pub proof fn law_write_loads_all(ep: ControlEp, packet: [u8; 8], out: Seq<u8>, mps: int, i: int)
    requires
        0 <= i < out.len() <= 4096,
        0 < mps,
    ensures
        ({
            let s = write_stages(packet, out.len() as int, mps);
            let k = i / mps;
            &&& stage_load(s[0], out) == Some((stage_plan(ep, s[0]).dma_off as int, packet@))
            &&& stage_load(s.last(), out) is None
            &&& stage_load(s[k + 1], out) matches Some((at, part)) && at == stage_plan(
                ep,
                s[k + 1],
            ).dma_off && i - k * mps < part.len() && part[i - k * mps] == out[i]
        }),
{
    law_write_transfer(packet, out.len() as int, mps, i);
    law_data_stages_tile(0, out.len() as int, mps, true, false);
    lemma_data_within(0, out.len() as int, mps, true, false);
    let data = data_stages(0, out.len() as int, mps, true, false);
    assert(write_stages(packet, out.len() as int, mps)[i / mps + 1] == data[i / mps]);
    assert(packet_of(data[i / mps]).0 + packet_of(data[i / mps]).1 <= out.len());
}

/// No packet of a data stage leads beyond its data.
proof fn lemma_data_within(off: int, len: int, mps: int, data1: bool, dir_in: bool)
    requires
        0 <= off <= len <= usize::MAX,
        0 < mps,
    ensures
        forall|k: int|
            0 <= k < data_stages(off, len, mps, data1, dir_in).len() ==> packet_of(
                #[trigger] data_stages(off, len, mps, data1, dir_in)[k],
            ).0 + packet_of(data_stages(off, len, mps, data1, dir_in)[k]).1 <= len,
    decreases len - off,
{
    if off < len {
        let s = data_stages(off, len, mps, data1, dir_in);
        let n = if mps < len - off {
            mps
        } else {
            len - off
        };
        lemma_data_within(off + n, len, mps, !data1, dir_in);
        let rest = data_stages(off + n, len, mps, !data1, dir_in);
        assert(forall|k: int| 0 < k < s.len() ==> #[trigger] s[k] == rest[k - 1]);
    }
}

/// Whether byte `i` of what a device sends in packets of `mps` bytes was left in the window:
/// behind byte 256, as byte `i % mps`, by the stage of packet `i / mps`.
pub open spec fn left_behind(windows: Seq<Seq<u8>>, mps: int, i: int, b: u8) -> bool {
    &&& 1 + i / mps < windows.len()
    &&& windows[1 + i / mps][256 + i % mps] == b
}

/// What is read from packet `k` on is what was sent from there on.
proof fn lemma_read_is_sent(d: Seq<u8>, k: int, mps: int, windows: Seq<Seq<u8>>)
    requires
        0 < mps,
        0 <= k,
        k * mps <= d.len() <= 4096,
        forall|j: int| 0 <= j < windows.len() ==> (#[trigger] windows[j]).len() == DMA_BUF_TOTAL,
        forall|i: int| 0 <= i < d.len() ==> left_behind(windows, mps, i, #[trigger] d[i]),
    ensures
        data_read(k * mps, d.len() as int, mps, 1 + k, windows) == d.skip(k * mps),
    decreases d.len() - k * mps,
{
    let off = k * mps;
    let len = d.len() as int;
    assert(0 <= off) by (nonlinear_arith)
        requires
            off == k * mps,
            0 <= k,
            0 < mps,
    ;
    if off < len {
        let n = if mps < len - off {
            mps
        } else {
            len - off
        };
        let part = windows[1 + k].subrange(DMA_OFF_SMALL_IO as int, DMA_OFF_SMALL_IO + n);
        assert forall|j: int| 0 <= j < n implies 1 + k < windows.len() && windows[1 + k][256 + j]
            == #[trigger] d[off + j] by {
            let i = off + j;
            vstd::arithmetic::div_mod::lemma_fundamental_div_mod_converse(i, mps, k, j);
            assert(left_behind(windows, mps, i, d[i]));
        }
        assert(d[off + 0] == d[off]);
        assert(windows[1 + k].len() == DMA_BUF_TOTAL);
        assert forall|j: int| 0 <= j < n implies part[j] == d[off + j] by {}
        if n == mps {
            assert((k + 1) * mps == off + mps) by (nonlinear_arith)
                requires
                    off == k * mps,
            ;
            lemma_read_is_sent(d, k + 1, mps, windows);
            assert(part + d.skip(off + mps) =~= d.skip(off));
        } else {
            assert(data_read(off + n, len, mps, 2 + k, windows) =~= Seq::empty());
            assert(part + Seq::<u8>::empty() =~= d.skip(off));
        }
    } else {
        assert(d.skip(off) =~= Seq::empty());
    }
}

/// A read brings what the device sent: where the device cuts its bytes into packets of `mps`, and
/// each is left in the window by the stage of its number, the bytes come out in their order, none
/// lost and none added.
pub proof fn law_read_brings_what_was_sent(
    packet: [u8; 8],
    d: Seq<u8>,
    mps: int,
    windows: Seq<Seq<u8>>,
)
    requires
        0 < d.len() <= 4096,
        0 < mps,
        windows.len() == read_stages(packet, d.len() as int, mps).len(),
        forall|j: int| 0 <= j < windows.len() ==> (#[trigger] windows[j]).len() == DMA_BUF_TOTAL,
        forall|i: int| 0 <= i < d.len() ==> left_behind(windows, mps, i, #[trigger] d[i]),
    ensures
        ({
            let (v, step) = run_all(run_start(read_stages(packet, d.len() as int, mps)), windows);
            step == RunStep::Finish(Ok(())) && v.data == d
        }),
{
    law_read_gathers_all(packet, d.len() as int, mps, windows);
    assert(0 * mps == 0);
    lemma_read_is_sent(d, 0, mps, windows);
    assert(d.skip(0) =~= d);
}

/// A device descriptor names the vendor in bytes 8 and 9 and the product in 10 and 11, low byte
/// first, its class in byte 4 and the packet size in byte 7; a packet size other than 8, 16, 32
/// or 64 counts as 8.
pub proof fn law_device_descriptor(
    d: Seq<u8>,
    vendor: u16,
    product: u16,
    size: u8,
    class: u8,
)
    requires
        d.len() >= 18,
        d[4] == class,
        d[7] == size,
        d[8] == vendor % 256,
        d[9] == vendor / 256,
        d[10] == product % 256,
        d[11] == product / 256,
    ensures
        identity_of(d).0 == vendor,
        identity_of(d).1 == product,
        identity_of(d).2 == (if seq![8u8, 16, 32, 64].contains(size) {
            size as u32
        } else {
            8
        }),
        identity_of(d).3 == class,
{
    let sizes = seq![8u8, 16, 32, 64];
    assert(sizes[0] == 8 && sizes[1] == 16 && sizes[2] == 32 && sizes[3] == 64);
    if size == 8 || size == 16 || size == 32 || size == 64 {
        assert(sizes.contains(size));
    }
}

/// The head of a configuration whose bytes 2 and 3 give its length, low byte first, leads to a
/// request for so many bytes; it is refused where it is not one or is longer than 4096 bytes.
pub proof fn law_configuration_is_asked_for_whole(index: u8, head: Seq<u8>, total: u16)
    requires
        head.len() == 9,
        head[2] == total % 256,
        head[3] == total / 256,
    ensures
        body_request(index, head) == (if head[1] != 2 {
            Err(UsbError::Protocol(ERR_NOT_CONFIGURATION))
        } else if total > 4096 {
            Err(UsbError::Protocol(ERR_CONFIGURATION_LARGE))
        } else {
            Ok(
                RequestView::In {
                    setup: seq![0x80u8, 6, index, 2, 0, 0, head[2], head[3]],
                    len: total as int,
                },
            )
        }),
{
}

} // verus!
