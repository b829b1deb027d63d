//! Isochronous IN transfers, one transaction in a microframe.

use crate::drivers::usb::dwc2::ch::{
    enabled, lemma_cause_bits, next_uframe_oddfrm, odd_frame, XferPlan,
};
use crate::drivers::usb::dwc2::dma::{readable, DMA_BUF_TOTAL};
use crate::drivers::usb::dwc2::regs::{
    EPTYPE_ISOCHRONOUS, HCCHAR_CHENA, HCCHAR_DEVADDR, HCCHAR_EPDIR, HCCHAR_EPNUM, HCCHAR_EPTYPE,
    HCCHAR_MC, HCCHAR_MPS, HCINT_AHBERR, HCINT_BBLERR, HCINT_DATATGLERR, HCINT_FRMOVRN, HCINT_NAK,
    HCINT_NYET, HCINT_STALL, HCINT_XACTERR, HCINT_XFERCOMPL, HCTSIZ_PID, HCTSIZ_PKTCNT,
    HCTSIZ_XFERSIZE, PID_DATA0,
};
use crate::error::{UsbError, UsbResult};
use crate::registers::{any_set, field_is_set, field_read, field_val, placed, taken};
use vstd::prelude::*;

verus! {

/// Microframes in a row that may bring nothing.
pub const MAX_UFRAMES: u32 = 80_000;

pub const ERR_BAD_MPS: &'static str = "bad isoch mps_raw";

pub const ERR_AHB: &'static str = "AHBERR on isoch";

pub const ERR_DMA_VIEW: &'static str = "dma view";

/// Bytes in one transaction, by the lower bits of `wMaxPacketSize`.
pub open spec fn mps_of(mps_raw: u16) -> u32 {
    (mps_raw % 2048) as u32
}

/// Whether `wMaxPacketSize` asks for one transaction in a microframe.
pub open spec fn single_transaction(mps_raw: u16) -> bool {
    (mps_raw / 2048) % 4 == 0
}

/// Bytes in one transaction.
pub fn wmax_mps(mps_raw: u16) -> (r: u32)
    ensures
        r == mps_of(mps_raw),
{
    (mps_raw % 2048) as u32
}

/// Bytes that can be received in a microframe: the controller performs one transaction.
pub fn wmax_payload_per_uframe(mps_raw: u16) -> (r: u32)
    ensures
        r == mps_of(mps_raw),
{
    wmax_mps(mps_raw)
}

/// Whether an endpoint asks for one transaction in a microframe.
pub fn is_single_transaction(mps_raw: u16) -> (r: bool)
    ensures
        r == single_transaction(mps_raw),
{
    (mps_raw / 2048) % 4 == 0
}

/// An isochronous IN endpoint.
#[derive(Clone, Copy, Debug, PartialEq, Eq, Structural)]
pub struct IsochInEp {
    pub dev: u32,
    pub ep_num: u32,
    pub mps_raw: u16,
}

/// Characteristics of an isochronous IN endpoint.
pub open spec fn isoch_hcchar(ep: IsochInEp) -> u32 {
    placed(HCCHAR_MPS, mps_of(ep.mps_raw)) | placed(HCCHAR_EPNUM, ep.ep_num) | placed(
        HCCHAR_DEVADDR,
        ep.dev,
    ) | placed(HCCHAR_EPTYPE, EPTYPE_ISOCHRONOUS) | placed(HCCHAR_MC, 1) | placed(HCCHAR_EPDIR, 1)
}

/// The transfer that reads the microframe after the one that `hfnum` shows.
pub open spec fn uframe_plan(ep: IsochInEp, hfnum: u32, dma_off: usize) -> XferPlan {
    XferPlan {
        hcchar: isoch_hcchar(ep) | odd_frame(hfnum) | placed(HCCHAR_CHENA, 1),
        hctsiz: placed(HCTSIZ_PID, PID_DATA0) | placed(HCTSIZ_PKTCNT, 1) | placed(
            HCTSIZ_XFERSIZE,
            mps_of(ep.mps_raw),
        ),
        dma_off,
    }
}

/// Whether the causes tell of a microframe that was lost or had no data.
pub open spec fn uframe_lost(hcint: u32) -> bool {
    any_set(HCINT_FRMOVRN, hcint) || any_set(HCINT_XACTERR, hcint) || any_set(HCINT_BBLERR, hcint)
        || any_set(HCINT_DATATGLERR, hcint) || any_set(HCINT_NYET, hcint) || any_set(
        HCINT_NAK,
        hcint,
    ) || !any_set(HCINT_XFERCOMPL, hcint)
}

/// Bytes received in a microframe that halted for `hcint` and left `hctsiz`: a stall and a bus
/// error are fatal, a lost microframe counts as empty, else all but what is left was received.
pub open spec fn uframe_received(ep: IsochInEp, hcint: u32, hctsiz: u32) -> UsbResult<usize> {
    if any_set(HCINT_STALL, hcint) {
        Err(UsbError::Stall)
    } else if any_set(HCINT_AHBERR, hcint) {
        Err(UsbError::Hardware(ERR_AHB))
    } else if uframe_lost(hcint) {
        Ok(0)
    } else {
        let left = taken(HCTSIZ_XFERSIZE, hctsiz);
        Ok(
            if left <= mps_of(ep.mps_raw) {
                (mps_of(ep.mps_raw) - left) as usize
            } else {
                0
            },
        )
    }
}

impl IsochInEp {
    /// An isochronous IN endpoint of the device at address `dev`.
    pub fn new(dev: u32, ep_num: u8, mps_raw: u16) -> (ep: IsochInEp)
        ensures
            ep == (IsochInEp { dev, ep_num: ep_num as u32, mps_raw }),
    {
        IsochInEp { dev, ep_num: ep_num as u32, mps_raw }
    }

    /// Characteristics of the endpoint.
    fn hcchar(&self) -> (r: u32)
        ensures
            r == isoch_hcchar(*self),
    {
        field_val(HCCHAR_MPS, wmax_mps(self.mps_raw)) | field_val(HCCHAR_EPNUM, self.ep_num)
            | field_val(HCCHAR_DEVADDR, self.dev) | field_val(HCCHAR_EPTYPE, EPTYPE_ISOCHRONOUS)
            | field_val(HCCHAR_MC, 1) | field_val(HCCHAR_EPDIR, 1)
    }

    /// The transfer that reads the next microframe into the window at `dma_off`.
    pub fn read_uframe(&self, hfnum: u32, dma_off: usize) -> (r: UsbResult<XferPlan>)
        ensures
            r == (if mps_of(self.mps_raw) == 0 {
                Err(UsbError::Protocol(ERR_BAD_MPS))
            } else {
                Ok(uframe_plan(*self, hfnum, dma_off))
            }),
    {
        let size: u32 = wmax_mps(self.mps_raw);
        if size == 0 {
            return Err(UsbError::Protocol(ERR_BAD_MPS));
        }
        let hctsiz: u32 = field_val(HCTSIZ_PID, PID_DATA0) | field_val(HCTSIZ_PKTCNT, 1)
            | field_val(HCTSIZ_XFERSIZE, size);
        let hcchar: u32 = enabled(self.hcchar() | next_uframe_oddfrm(hfnum));
        Ok(XferPlan { hcchar, hctsiz, dma_off })
    }

    /// Bytes received in a microframe that halted for `hcint` and left `hctsiz`.
    pub fn uframe_result(&self, hcint: u32, hctsiz: u32) -> (r: UsbResult<usize>)
        ensures
            r == uframe_received(*self, hcint, hctsiz),
            r matches Ok(n) ==> n <= mps_of(self.mps_raw),
    {
        if field_is_set(HCINT_STALL, hcint) {
            return Err(UsbError::Stall);
        }
        if field_is_set(HCINT_AHBERR, hcint) {
            return Err(UsbError::Hardware(ERR_AHB));
        }
        if field_is_set(HCINT_FRMOVRN, hcint) || field_is_set(HCINT_XACTERR, hcint)
            || field_is_set(HCINT_BBLERR, hcint) || field_is_set(HCINT_DATATGLERR, hcint)
            || field_is_set(HCINT_NYET, hcint) || field_is_set(HCINT_NAK, hcint) {
            return Ok(0);
        }
        if !field_is_set(HCINT_XFERCOMPL, hcint) {
            return Ok(0);
        }
        let left: u32 = field_read(HCTSIZ_XFERSIZE, hctsiz);
        let size: u32 = wmax_mps(self.mps_raw);
        if left <= size {
            Ok((size - left) as usize)
        } else {
            Ok(0)
        }
    }

    /// Decides what follows a microframe: `tried` microframes came before it.
    pub fn read_payload(&self, tried: u32, dma_off: usize, result: UsbResult<usize>) -> (r:
        PayloadStep)
        requires
            tried < MAX_UFRAMES,
        ensures
            r == payload_step(tried, dma_off as int, result),
    {
        match result {
            Err(e) => PayloadStep::Failed(e),
            Ok(n) => {
                if n > 0 {
                    if n <= DMA_BUF_TOTAL && dma_off <= DMA_BUF_TOTAL - n {
                        PayloadStep::Got { len: n }
                    } else {
                        PayloadStep::Failed(UsbError::Hardware(ERR_DMA_VIEW))
                    }
                } else if tried + 1 < MAX_UFRAMES {
                    PayloadStep::Again { tried: tried + 1 }
                } else {
                    PayloadStep::Failed(UsbError::Timeout)
                }
            },
        }
    }
}

/// What follows a microframe.
#[derive(Clone, Copy, Debug, PartialEq, Eq)]
pub enum PayloadStep {
    /// This many bytes lie in the window.
    Got { len: usize },
    /// It was empty: read the next one.
    Again { tried: u32 },
    /// Reading is over.
    Failed(UsbError),
}

/// What follows a microframe with `result` after `tried` empty ones: data is handed on where it
/// lies within the window, empty microframes are passed over until there were too many.
pub open spec fn payload_step(tried: u32, dma_off: int, result: UsbResult<usize>) -> PayloadStep {
    match result {
        Err(e) => PayloadStep::Failed(e),
        Ok(n) => if n > 0 {
            if readable(dma_off, n as int) {
                PayloadStep::Got { len: n }
            } else {
                PayloadStep::Failed(UsbError::Hardware(ERR_DMA_VIEW))
            }
        } else if tried + 1 < MAX_UFRAMES {
            PayloadStep::Again { tried: (tried + 1) as u32 }
        } else {
            PayloadStep::Failed(UsbError::Timeout)
        },
    }
}

/// What microframes with these results lead to, read one after the other.
pub open spec fn payload_run(dma_off: int, results: Seq<UsbResult<usize>>) -> PayloadStep
    decreases results.len(),
{
    if results.len() == 0 {
        PayloadStep::Again { tried: 0 }
    } else {
        match payload_run(dma_off, results.drop_last()) {
            PayloadStep::Again { tried } => payload_step(tried, dma_off, results.last()),
            over => over,
        }
    }
}

/// Whether the first `k` microframes were empty.
pub open spec fn all_empty(results: Seq<UsbResult<usize>>, k: int) -> bool {
    forall|i: int| 0 <= i < k ==> #[trigger] results[i] == Ok::<usize, UsbError>(0)
}

/// Empty microframes are passed over; reading times out after exactly [`MAX_UFRAMES`] of them.
pub proof fn law_empty_microframes(dma_off: int, results: Seq<UsbResult<usize>>)
    requires
        all_empty(results, results.len() as int),
    ensures
        payload_run(dma_off, results) == (if results.len() < MAX_UFRAMES {
            PayloadStep::Again { tried: results.len() as u32 }
        } else {
            PayloadStep::Failed(UsbError::Timeout)
        }),
    decreases results.len(),
{
    if results.len() > 0 {
        let before = results.drop_last();
        assert(forall|i: int| 0 <= i < before.len() ==> before[i] == results[i]);
        law_empty_microframes(dma_off, before);
        assert(results[results.len() - 1] == results.last());
    }
}

/// The first microframe that is not empty decides, unless too many came before it: its data is
/// handed on, its error ends the run at once, and nothing that follows matters.
pub proof fn law_first_microframe_decides(dma_off: int, results: Seq<UsbResult<usize>>, k: int)
    requires
        0 <= k < results.len(),
        k < MAX_UFRAMES,
        all_empty(results, k),
        results[k] != Ok::<usize, UsbError>(0),
    ensures
        payload_run(dma_off, results) == (match results[k] {
            Err(e) => PayloadStep::Failed(e),
            Ok(n) => if readable(dma_off, n as int) {
                PayloadStep::Got { len: n }
            } else {
                PayloadStep::Failed(UsbError::Hardware(ERR_DMA_VIEW))
            },
        }),
    decreases results.len(),
{
    let before = results.drop_last();
    assert(forall|i: int| 0 <= i < before.len() ==> before[i] == results[i]);
    if k == results.len() - 1 {
        law_empty_microframes(dma_off, before);
    } else {
        law_first_microframe_decides(dma_off, before, k);
    }
}

/// Where no microframe itself failed with a timeout, reading times out only behind
/// [`MAX_UFRAMES`] empty microframes.
pub proof fn law_timeout_needs_empty_microframes(dma_off: int, results: Seq<UsbResult<usize>>)
    requires
        payload_run(dma_off, results) == PayloadStep::Failed(UsbError::Timeout),
        forall|i: int|
            0 <= i < results.len() ==> #[trigger] results[i] != Err::<usize, UsbError>(
                UsbError::Timeout,
            ),
    ensures
        results.len() >= MAX_UFRAMES,
        all_empty(results, MAX_UFRAMES as int),
    decreases results.len(),
{
    if results.len() > 0 {
        let before = results.drop_last();
        assert(forall|i: int| 0 <= i < before.len() ==> before[i] == results[i]);
        assert(results[results.len() - 1] == results.last());
        if payload_run(dma_off, before) is Again {
            lemma_again_means_empty(dma_off, before);
        } else {
            law_timeout_needs_empty_microframes(dma_off, before);
        }
    }
}

/// Reading goes on only behind empty microframes.
proof fn lemma_again_means_empty(dma_off: int, results: Seq<UsbResult<usize>>)
    requires
        payload_run(dma_off, results) is Again,
    ensures
        all_empty(results, results.len() as int),
        results.len() < MAX_UFRAMES,
        payload_run(dma_off, results) == (PayloadStep::Again { tried: results.len() as u32 }),
    decreases results.len(),
{
    if results.len() > 0 {
        let before = results.drop_last();
        assert(forall|i: int| 0 <= i < before.len() ==> before[i] == results[i]);
        assert(results[results.len() - 1] == results.last());
        lemma_again_means_empty(dma_off, before);
    }
}

// ---------------------------------------------------------------------------
// What the device sees of a microframe
// ---------------------------------------------------------------------------
/// The lower eleven bits of `wMaxPacketSize` are the bytes of one transaction, the two bits above
/// them ask for more than one.
pub proof fn law_packet_size_bits(raw: u16)
    ensures
        mps_of(raw) == raw & 0x7ff,
        single_transaction(raw) <==> raw & 0x1800 == 0,
{
    assert(raw & 0x7ff == raw % 2048 && ((raw & 0x1800 == 0) == ((raw / 2048) % 4 == 0)))
        by (bit_vector);
}

/// A microframe is read from the endpoint of the device: the packet size is in bits 0 to 10, the
/// endpoint in 11 to 14, bit 15 says that data comes in, the type is isochronous, with one
/// transaction, and the address of the device is in 22 to 28. Bit 29 asks for an odd frame where
/// the frame that runs is even, and bit 31 starts the transfer. One packet without a toggle is
/// asked for, as long as the endpoint allows.
pub proof fn law_microframe_registers(ep: IsochInEp, hfnum: u32, dma_off: usize)
    ensures
        ({
            let p = uframe_plan(ep, hfnum, dma_off);
            let (c, z) = (p.hcchar, p.hctsiz);
            &&& c & 0x7ff == ep.mps_raw % 2048
            &&& (c >> 11u32) & 0xf == ep.ep_num & 0xf
            &&& c & 0x8000 != 0
            &&& (c >> 18u32) & 3 == 1
            &&& (c >> 20u32) & 3 == 1
            &&& (c >> 22u32) & 0x7f == ep.dev & 0x7f
            &&& (c & 0x2000_0000 != 0) == (hfnum & 1 == 0)
            &&& c & 0x8000_0000 != 0
            &&& c & 0x4003_0000 == 0
            &&& z == 0x8_0000 + ep.mps_raw % 2048
            &&& p.dma_off == dma_off
        }),
{
    let m = mps_of(ep.mps_raw);
    let (e, d) = (ep.ep_num, ep.dev);
    let f = (hfnum & (0xFFFFu32 << 0u32)) >> 0u32;
    let odd: u32 = if f % 2 == 0 {
        1
    } else {
        0
    };
    assert((f % 2 == 0) == (hfnum & 1 == 0)) by (bit_vector)
        requires
            f == (hfnum & (0xFFFFu32 << 0u32)) >> 0u32,
    ;
    let c = (((m & 0x7FF) << 0u32) | ((e & 0xF) << 11u32) | ((d & 0x7F) << 22u32) | ((1u32 & 3)
        << 18u32) | ((1u32 & 3) << 20u32) | ((1u32 & 1) << 15u32)) | ((odd & 1) << 29u32) | ((1u32
        & 1) << 31u32);
    let z = ((0u32 & 3) << 29u32) | ((1u32 & 0x3FF) << 19u32) | ((m & 0x7_FFFF) << 0u32);
    assert(z == 0x8_0000 + m && c & 0x7ff == m && (c >> 11u32) & 0xf == e & 0xf && c & 0x8000 != 0 && (c >> 18u32) & 3
        == 1 && (c >> 20u32) & 3 == 1 && (c >> 22u32) & 0x7f == d & 0x7f && ((c & 0x2000_0000 != 0)
        == (odd == 1)) && c & 0x8000_0000 != 0 && c & 0x4003_0000 == 0) by (bit_vector)
        requires
            m < 2048,
            odd <= 1,
            c == (((m & 0x7FF) << 0u32) | ((e & 0xF) << 11u32) | ((d & 0x7F) << 22u32) | ((1u32 & 3)
                << 18u32) | ((1u32 & 3) << 20u32) | ((1u32 & 1) << 15u32)) | ((odd & 1) << 29u32) | ((
            1u32 & 1) << 31u32),
            z == ((0u32 & 3) << 29u32) | ((1u32 & 0x3FF) << 19u32) | ((m & 0x7_FFFF) << 0u32),
    ;
}

/// What a microframe brought, by the bits of its causes: bit 3 is a stall and bit 2 a bus error,
/// which are fatal in this order; a frame overrun, a transaction error, babble, a wrong toggle,
/// a NYET, a NAK, or no completion mean that it brought nothing. Else it brought what was asked
/// for less what the size register says is left.
pub proof fn law_microframe_by_its_causes(ep: IsochInEp, hcint: u32, hctsiz: u32)
    ensures
        hcint & 0x8 != 0 ==> uframe_received(ep, hcint, hctsiz) == Err::<usize, UsbError>(
            UsbError::Stall,
        ),
        hcint & 0xc == 0x4 ==> uframe_received(ep, hcint, hctsiz) == Err::<usize, UsbError>(
            UsbError::Hardware(ERR_AHB),
        ),
        hcint & 0xc == 0 && hcint & 0x7d1 != 1 ==> uframe_received(ep, hcint, hctsiz) == Ok::<
            usize,
            UsbError,
        >(0),
        hcint & 0xc == 0 && hcint & 0x7d1 == 1 ==> (uframe_received(ep, hcint, hctsiz) matches Ok(
            n,
        ) && (hctsiz & 0x7_ffff <= ep.mps_raw % 2048 ==> n + (hctsiz & 0x7_ffff) == ep.mps_raw
            % 2048) && (hctsiz & 0x7_ffff > ep.mps_raw % 2048 ==> n == 0)),
{
    lemma_cause_bits();
    let left = (hctsiz & (0x7_FFFFu32 << 0u32)) >> 0u32;
    assert((hcint & 0x8 != 0 ==> hcint & 0xc != 0x4 && hcint & 0xc != 0) && ((hcint & 0xc == 0x4)
        == (hcint & 0x8 == 0 && hcint & 0x4 != 0)) && ((hcint & 0xc == 0) == (hcint & 0x8 == 0
        && hcint & 0x4 == 0)) && ((hcint & 0x7d1 == 1) == (hcint & 0x200 == 0 && hcint & 0x80 == 0
        && hcint & 0x100 == 0 && hcint & 0x400 == 0 && hcint & 0x40 == 0 && hcint & 0x10 == 0
        && hcint & 0x1 != 0)) && (hctsiz & (0x7_FFFFu32 << 0u32)) >> 0u32 == hctsiz & 0x7_ffff)
        by (bit_vector);
}

} // verus!
