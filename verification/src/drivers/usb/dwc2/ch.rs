//! Channels: arming, waiting, retrying, and the interrupt.

use crate::drivers::usb::dwc2::regs::{
    GINTSTS_HCHINT, HCCHAR_CHENA, HCCHAR_ODDFRM, HCINT_CHHLTD, HCINT_NAK, HCINT_STALL,
    HCINT_XACTERR, HCINT_XFERCOMPL, HC_BASE, HFNUM_FRNUM,
};
use crate::error::{UsbError, UsbResult};
use crate::hw::HwOp;
use crate::registers::{any_set, field_is_set, field_mask, field_read, field_val, mask_of, placed, taken};
use vstd::prelude::*;

verus! {

/// Writing this clears all causes of a channel.
pub const HCINT_ALL_W1C: u32 = 0x7FF;

/// Rounds that a channel is given to fall idle, and spins in between.
pub const IDLE_ITERS: u32 = 2_000_000;

/// Rounds that a channel is given to halt.
pub const HALT_ITERS: u32 = 8_000_000;

/// Spins between two looks at a channel.
pub const CHANNEL_SPIN: u32 = 8;

/// How often a transfer is tried again after a NAK.
pub const NAK_RETRIES: u32 = 64;

/// How often a transfer is tried again after a transaction error.
pub const XACT_RETRIES: u32 = 8;

/// Nanoseconds before a transfer is tried again.
pub const RETRY_DELAY: u64 = 1_000_000;

pub const ERR_XACT: &'static str = "ch xfer error (XACT)";

pub const ERR_NAK: &'static str = "ch xfer NAK exhausted";

pub const ERR_NO_XFERCOMPL: &'static str = "CHHLTD without XFERCOMPL";

/// A host channel.
#[derive(Clone, Copy, Debug, PartialEq, Eq, Structural)]
pub struct Channel {
    index: u32,
}

impl Channel {
    /// Number of the channel.
    pub closed spec fn idx(&self) -> u32 {
        self.index
    }

    /// Whether the channel is one that is used.
    pub closed spec fn wf(&self) -> bool {
        self.index <= 1
    }

    /// The channel of control transfers.
    pub fn control() -> (c: Channel)
        ensures
            c.wf(),
            c.idx() == 0,
    {
        Channel { index: 0 }
    }

    /// The channel of video transfers.
    pub fn video() -> (c: Channel)
        ensures
            c.wf(),
            c.idx() == 1,
    {
        Channel { index: 1 }
    }

    /// Number of the channel.
    pub fn index(&self) -> (i: u32)
        requires
            self.wf(),
        ensures
            i == self.idx(),
            i <= 1,
    {
        self.index
    }
}

/// Address of a register of channel `idx`.
pub open spec fn chan_reg(idx: u32, off: int) -> usize {
    (HC_BASE + 0x20 * idx + off) as usize
}

/// A transfer on a channel: its two registers, and where its data lies in the window.
#[derive(Clone, Copy, Debug, PartialEq, Eq, Structural)]
pub struct XferPlan {
    /// Channel characteristics, without the enable bit.
    pub hcchar: u32,
    /// Packet identifier, packet count and size.
    pub hctsiz: u32,
    pub dma_off: usize,
}

/// Arming a channel: wait until it is idle, clear what is left of the last transfer, set size and
/// address, and enable it last.
pub open spec fn arm_script(idx: u32, tsiz: u32, hcchar_ena: u32, dmap: u32) -> Seq<HwOp> {
    seq![
        HwOp::Poll {
            addr: chan_reg(idx, 0),
            mask: mask_of(HCCHAR_CHENA),
            set: false,
            iters: IDLE_ITERS,
            spin: CHANNEL_SPIN,
            error: UsbError::Timeout,
        },
        HwOp::Write { addr: chan_reg(idx, 0x04), value: 0 },
        HwOp::Write { addr: chan_reg(idx, 0x08), value: HCINT_ALL_W1C },
        HwOp::Write {
            addr: chan_reg(idx, 0x0c),
            value: placed(HCINT_CHHLTD, 1) | placed(HCINT_XFERCOMPL, 1),
        },
        HwOp::Write { addr: chan_reg(idx, 0x10), value: tsiz },
        HwOp::Fence,
        HwOp::Write { addr: chan_reg(idx, 0x14), value: dmap },
        HwOp::Fence,
        HwOp::Write { addr: chan_reg(idx, 0), value: hcchar_ena },
    ]
}

/// What a look at a channel that should halt says.
#[derive(Clone, Copy, Debug, PartialEq, Eq)]
pub enum HaltStep {
    /// It has halted for these causes, which are cleared by writing them back.
    Halted { hcint: u32, ack: HwOp },
    /// Spin, and look again.
    Again,
    /// It never halts.
    Failed(UsbError),
}

impl Channel {
    /// Arms the channel for a transfer; `hcchar_ena` has the enable bit.
    pub fn arm(&self, tsiz: u32, hcchar_ena: u32, dmap: u32) -> (ops: Vec<HwOp>)
        requires
            self.wf(),
        ensures
            ops@ == arm_script(self.idx(), tsiz, hcchar_ena, dmap),
    {
        let base: usize = HC_BASE + 0x20 * self.index as usize;
        let mut ops: Vec<HwOp> = Vec::new();
        ops.push(
            HwOp::Poll {
                addr: base,
                mask: field_mask(HCCHAR_CHENA),
                set: false,
                iters: IDLE_ITERS,
                spin: CHANNEL_SPIN,
                error: UsbError::Timeout,
            },
        );
        ops.push(HwOp::Write { addr: base + 0x04, value: 0 });
        ops.push(HwOp::Write { addr: base + 0x08, value: HCINT_ALL_W1C });
        ops.push(
            HwOp::Write {
                addr: base + 0x0c,
                value: field_val(HCINT_CHHLTD, 1) | field_val(HCINT_XFERCOMPL, 1),
            },
        );
        ops.push(HwOp::Write { addr: base + 0x10, value: tsiz });
        ops.push(HwOp::Fence);
        ops.push(HwOp::Write { addr: base + 0x14, value: dmap });
        ops.push(HwOp::Fence);
        ops.push(HwOp::Write { addr: base, value: hcchar_ena });
        ops
    }

    /// One look at a channel that should halt: `done` tells that the interrupt has seen it halt,
    /// `hcint` are its causes, and `left` rounds are to go including this one.
    pub fn wait_halted(&self, done: bool, hcint: u32, left: u32) -> (r: HaltStep)
        requires
            self.wf(),
        ensures
            r == (if left == 0 {
                HaltStep::Failed(UsbError::Timeout)
            } else if done || any_set(HCINT_CHHLTD, hcint) {
                HaltStep::Halted {
                    hcint,
                    ack: HwOp::Write { addr: chan_reg(self.idx(), 0x08), value: hcint },
                }
            } else {
                HaltStep::Again
            }),
    {
        if left == 0 {
            return HaltStep::Failed(UsbError::Timeout);
        }
        if done || field_is_set(HCINT_CHHLTD, hcint) {
            let addr: usize = HC_BASE + 0x20 * self.index as usize + 0x08;
            HaltStep::Halted { hcint, ack: HwOp::Write { addr, value: hcint } }
        } else {
            HaltStep::Again
        }
    }
}

/// The characteristics that start a transfer.
pub fn enabled(hcchar: u32) -> (r: u32)
    ensures
        r == hcchar | placed(HCCHAR_CHENA, 1),
{
    hcchar | field_val(HCCHAR_CHENA, 1)
}

/// The frame parity bit for the microframe after the one that `hfnum` shows.
pub open spec fn odd_frame(hfnum: u32) -> u32 {
    placed(
        HCCHAR_ODDFRM,
        if taken(HFNUM_FRNUM, hfnum) % 2 == 0 {
            1
        } else {
            0
        },
    )
}

/// The frame parity bit for the next microframe: set where the current number is even.
pub fn next_uframe_oddfrm(hfnum: u32) -> (r: u32)
    ensures
        r == odd_frame(hfnum),
{
    let fr: u32 = field_read(HFNUM_FRNUM, hfnum);
    if fr % 2 == 0 {
        field_val(HCCHAR_ODDFRM, 1)
    } else {
        field_val(HCCHAR_ODDFRM, 0)
    }
}

// ---------------------------------------------------------------------------
// Control transfers are tried again
// ---------------------------------------------------------------------------
/// A transfer that may be tried again.
#[derive(Clone, Copy, Debug, PartialEq, Eq, Structural)]
pub struct Xfer {
    /// Tries before this one.
    pub attempt: u32,
    /// Transaction errors that are still forgiven.
    pub xact_left: u32,
}

/// What follows a try.
#[derive(Clone, Copy, Debug, PartialEq, Eq)]
pub enum XferStep {
    /// Wait, arm the channel and try again.
    Retry,
    /// The transfer is over.
    Finished(UsbResult<u32>),
}

/// Whether a try that ends with `st` was the last one, on a transaction error that would else be
/// forgiven.
pub open spec fn out_of_tries(x: Xfer, st: UsbResult<u32>) -> bool {
    st matches Ok(raw) && x.attempt >= NAK_RETRIES && x.xact_left > 0 && !any_set(
        HCINT_STALL,
        raw,
    ) && any_set(HCINT_XACTERR, raw)
}

/// What follows a try that ends with `st`: a stall ends the transfer, a transaction error or a
/// NAK leads to another try as long as there are any, and completion is success. Transaction
/// errors share the tries of NAKs, and are forgiven a few times at most.
pub open spec fn xfer_next(x: Xfer, st: UsbResult<u32>) -> (Xfer, XferStep) {
    match st {
        Err(e) => (x, XferStep::Finished(Err(e))),
        Ok(raw) => {
            if any_set(HCINT_STALL, raw) {
                (x, XferStep::Finished(Err(UsbError::Stall)))
            } else if any_set(HCINT_XACTERR, raw) {
                if x.xact_left == 0 || x.attempt >= NAK_RETRIES {
                    (x, XferStep::Finished(Err(UsbError::Protocol(ERR_XACT))))
                } else {
                    (
                        Xfer {
                            attempt: (x.attempt + 1) as u32,
                            xact_left: (x.xact_left - 1) as u32,
                        },
                        XferStep::Retry,
                    )
                }
            } else if any_set(HCINT_NAK, raw) {
                if x.attempt == NAK_RETRIES {
                    (x, XferStep::Finished(Err(UsbError::Protocol(ERR_NAK))))
                } else {
                    (Xfer { attempt: (x.attempt + 1) as u32, ..x }, XferStep::Retry)
                }
            } else if !any_set(HCINT_XFERCOMPL, raw) {
                (x, XferStep::Finished(Err(UsbError::Protocol(ERR_NO_XFERCOMPL))))
            } else {
                (x, XferStep::Finished(Ok(raw)))
            }
        },
    }
}

impl Xfer {
    /// Whether the counts are within their bounds.
    pub open spec fn wf(&self) -> bool {
        self.attempt <= NAK_RETRIES && self.xact_left <= XACT_RETRIES
    }

    /// Before the first try.
    pub fn new() -> (x: Xfer)
        ensures
            x.wf(),
            x == (Xfer { attempt: 0, xact_left: XACT_RETRIES }),
    {
        Xfer { attempt: 0, xact_left: XACT_RETRIES }
    }

    /// Whether a try that ends with `st` was the last one, on a transaction error that would else
    /// be forgiven.
    pub fn exhausted(&self, st: UsbResult<u32>) -> (r: bool)
        ensures
            r == out_of_tries(*self, st),
    {
        match st {
            Err(_) => false,
            Ok(raw) => self.attempt >= NAK_RETRIES && self.xact_left > 0 && !field_is_set(
                HCINT_STALL,
                raw,
            ) && field_is_set(HCINT_XACTERR, raw),
        }
    }

    /// Decides what follows a try that ends with `st`: the causes for which the channel halted,
    /// or why it never did.
    pub fn xfer(&mut self, st: UsbResult<u32>) -> (r: XferStep)
        requires
            old(self).wf(),
        ensures
            final(self).wf(),
            (*final(self), r) == xfer_next(*old(self), st),
            r is Retry ==> final(self).attempt == old(self).attempt + 1,
    {
        match st {
            Err(e) => XferStep::Finished(Err(e)),
            Ok(raw) => {
                if field_is_set(HCINT_STALL, raw) {
                    return XferStep::Finished(Err(UsbError::Stall));
                }
                if field_is_set(HCINT_XACTERR, raw) {
                    if self.xact_left == 0 || self.attempt >= NAK_RETRIES {
                        return XferStep::Finished(Err(UsbError::Protocol(ERR_XACT)));
                    }
                    self.xact_left = self.xact_left - 1;
                    self.attempt = self.attempt + 1;
                    return XferStep::Retry;
                }
                if field_is_set(HCINT_NAK, raw) {
                    if self.attempt == NAK_RETRIES {
                        return XferStep::Finished(Err(UsbError::Protocol(ERR_NAK)));
                    }
                    self.attempt = self.attempt + 1;
                    return XferStep::Retry;
                }
                if !field_is_set(HCINT_XFERCOMPL, raw) {
                    return XferStep::Finished(Err(UsbError::Protocol(ERR_NO_XFERCOMPL)));
                }
                XferStep::Finished(Ok(raw))
            },
        }
    }
}

/// The transfer after tries that ended with these results, and what follows the last of them.
pub open spec fn xfer_run(x: Xfer, sts: Seq<UsbResult<u32>>) -> (Xfer, XferStep)
    decreases sts.len(),
{
    if sts.len() == 0 {
        (x, XferStep::Retry)
    } else {
        let before = xfer_run(x, sts.drop_last());
        if before.1 is Retry {
            xfer_next(before.0, sts.last())
        } else {
            before
        }
    }
}

/// A device that answers every try with a NAK is tried 65 times, and then given up.
pub proof fn law_nak_is_bounded(sts: Seq<UsbResult<u32>>)
    requires
        sts.len() <= 65,
        forall|k: int|
            0 <= k < sts.len() ==> (#[trigger] sts[k] matches Ok(raw) && any_set(HCINT_NAK, raw)
                && !any_set(HCINT_STALL, raw) && !any_set(HCINT_XACTERR, raw)),
    ensures
        ({
            let start = Xfer { attempt: 0, xact_left: XACT_RETRIES };
            &&& sts.len() <= 64 ==> xfer_run(start, sts) == (
                Xfer { attempt: sts.len() as u32, xact_left: XACT_RETRIES },
                XferStep::Retry,
            )
            &&& sts.len() == 65 ==> xfer_run(start, sts).1 == XferStep::Finished(
                Err(UsbError::Protocol(ERR_NAK)),
            )
        }),
    decreases sts.len(),
{
    if sts.len() > 0 {
        let rest = sts.drop_last();
        assert(forall|k: int| 0 <= k < rest.len() ==> rest[k] == sts[k]);
        law_nak_is_bounded(rest);
        assert(sts[sts.len() - 1] == sts.last());
    }
}

/// Whether a try ended with a transaction error.
pub open spec fn xact_error(st: UsbResult<u32>) -> bool {
    st matches Ok(raw) && !any_set(HCINT_STALL, raw) && any_set(HCINT_XACTERR, raw)
}

/// How many tries ended with a transaction error.
pub open spec fn xact_errors(sts: Seq<UsbResult<u32>>) -> int
    decreases sts.len(),
{
    if sts.len() == 0 {
        0
    } else {
        xact_errors(sts.drop_last()) + if xact_error(sts.last()) {
            1int
        } else {
            0
        }
    }
}

/// However a transfer goes, another try follows only where there were at most 64 tries, of which
/// at most 8 ended with a transaction error.
pub proof fn law_retries_are_bounded(sts: Seq<UsbResult<u32>>)
    ensures
        ({
            let (x, step) = xfer_run(Xfer { attempt: 0, xact_left: XACT_RETRIES }, sts);
            step is Retry ==> {
                &&& sts.len() <= NAK_RETRIES
                &&& xact_errors(sts) <= XACT_RETRIES
                &&& x.attempt == sts.len()
                &&& x.xact_left == XACT_RETRIES - xact_errors(sts)
            }
        }),
    decreases sts.len(),
{
    if sts.len() > 0 {
        law_retries_are_bounded(sts.drop_last());
    }
}

/// Every transfer ends: whatever its tries end with, there is a verdict after 65 of them.
pub proof fn law_transfer_ends(sts: Seq<UsbResult<u32>>)
    requires
        sts.len() > NAK_RETRIES,
    ensures
        xfer_run(Xfer { attempt: 0, xact_left: XACT_RETRIES }, sts).1 is Finished,
{
    law_retries_are_bounded(sts);
}

/// A transaction error ends a transfer that is still under way where 8 were forgiven before, or
/// where it comes on the last try.
pub proof fn law_last_transaction_error_ends(sts: Seq<UsbResult<u32>>, st: UsbResult<u32>)
    requires
        xfer_run(Xfer { attempt: 0, xact_left: XACT_RETRIES }, sts).1 is Retry,
        xact_error(st),
        xact_errors(sts) == XACT_RETRIES || sts.len() == NAK_RETRIES,
    ensures
        xfer_run(Xfer { attempt: 0, xact_left: XACT_RETRIES }, sts.push(st)).1
            == XferStep::Finished(Err(UsbError::Protocol(ERR_XACT))),
{
    law_retries_are_bounded(sts);
    assert(sts.push(st).drop_last() =~= sts);
}

// ---------------------------------------------------------------------------
// The interrupt
// ---------------------------------------------------------------------------
/// What the interrupt leaves for those who wait.
#[derive(Clone, Copy, Debug, PartialEq, Eq, Structural)]
pub struct UsbIrq {
    /// Interrupts since the count was taken.
    pub count: u32,
    /// Whether the control channel was seen to halt.
    pub control_done: bool,
    /// Whether the video channel was seen to halt.
    pub video_done: bool,
}

/// Whether bit `k` of `raw` is set.
pub open spec fn bit(raw: u32, k: u32) -> bool {
    raw & (1u32 << k) != 0
}

/// Takes the count of interrupts.
pub fn take_usb_isr_count(s: &mut UsbIrq) -> (n: u32)
    ensures
        n == old(s).count,
        *final(s) == (UsbIrq { count: 0, ..*old(s) }),
{
    let n: u32 = s.count;
    s.count = 0;
    n
}

/// Counts an interrupt and tells which channels are to be served: control, then video.
pub fn handle_usb_irq(s: &mut UsbIrq, gintsts: u32, haint: u32) -> (r: (bool, bool))
    ensures
        *final(s) == (UsbIrq {
            count: ((old(s).count + 1) % 0x1_0000_0000) as u32,
            ..*old(s)
        }),
        r.0 == (any_set(GINTSTS_HCHINT, gintsts) && bit(haint, 0)),
        r.1 == (any_set(GINTSTS_HCHINT, gintsts) && bit(haint, 1)),
{
    s.count = s.count.wrapping_add(1);
    if !field_is_set(GINTSTS_HCHINT, gintsts) {
        return (false, false);
    }
    (haint & (1u32 << 0u32) != 0, haint & (1u32 << 1u32) != 0)
}

/// Serves a channel whose causes are `hcint`: they are cleared by writing them back, and a halt
/// is noted.
pub fn serve_channel_irq(s: &mut UsbIrq, ch: Channel, hcint: u32) -> (ack: HwOp)
    requires
        ch.wf(),
    ensures
        ack == (HwOp::Write { addr: chan_reg(ch.idx(), 0x08), value: hcint }),
        *final(s) == (if !any_set(HCINT_CHHLTD, hcint) {
            *old(s)
        } else if ch.idx() == 0 {
            UsbIrq { control_done: true, ..*old(s) }
        } else {
            UsbIrq { video_done: true, ..*old(s) }
        }),
{
    if field_is_set(HCINT_CHHLTD, hcint) {
        if ch.index() == 0 {
            s.control_done = true;
        } else {
            s.video_done = true;
        }
    }
    HwOp::Write { addr: HC_BASE + 0x20 * ch.index() as usize + 0x08, value: hcint }
}

/// Takes the note that a channel has halted.
pub fn take_done(s: &mut UsbIrq, ch: Channel) -> (r: bool)
    requires
        ch.wf(),
    ensures
        r == (if ch.idx() == 0 {
            old(s).control_done
        } else {
            old(s).video_done
        }),
        *final(s) == (if ch.idx() == 0 {
            UsbIrq { control_done: false, ..*old(s) }
        } else {
            UsbIrq { video_done: false, ..*old(s) }
        }),
{
    if ch.index() == 0 {
        let r: bool = s.control_done;
        s.control_done = false;
        r
    } else {
        let r: bool = s.video_done;
        s.video_done = false;
        r
    }
}

// ---------------------------------------------------------------------------
// Bits of the causes
// ---------------------------------------------------------------------------
/// The causes of a channel, each in a bit of its own.
pub proof fn lemma_cause_bits()
    ensures
        1u32 << 0u32 == 0x1,
        1u32 << 1u32 == 0x2,
        1u32 << 2u32 == 0x4,
        1u32 << 3u32 == 0x8,
        1u32 << 4u32 == 0x10,
        1u32 << 6u32 == 0x40,
        1u32 << 7u32 == 0x80,
        1u32 << 8u32 == 0x100,
        1u32 << 9u32 == 0x200,
        1u32 << 10u32 == 0x400,
        1u32 << 25u32 == 0x200_0000,
        1u32 << 31u32 == 0x8000_0000,
        ((1u32 & 1) << 1u32) | ((1u32 & 1) << 0u32) == 0x3,
{
    assert(1u32 << 0u32 == 0x1 && 1u32 << 1u32 == 0x2 && 1u32 << 2u32 == 0x4 && 1u32 << 3u32 == 0x8
        && 1u32 << 4u32 == 0x10 && 1u32 << 6u32 == 0x40 && 1u32 << 7u32 == 0x80 && 1u32 << 8u32
        == 0x100 && 1u32 << 9u32 == 0x200 && 1u32 << 10u32 == 0x400 && 1u32 << 25u32 == 0x200_0000
        && 1u32 << 31u32 == 0x8000_0000 && ((1u32 & 1) << 1u32) | ((1u32 & 1) << 0u32) == 0x3)
        by (bit_vector);
}

/// What a try leads to by the bits of its causes: bit 3 is a stall and comes before all else,
/// bit 7 a transaction error, bit 4 a NAK; bit 0 alone is success. A failure to wait is passed
/// on. A stall is never tried again, nor is success.
pub proof fn law_try_by_its_causes(x: Xfer, raw: u32, e: UsbError)
    ensures
        xfer_next(x, Err(e)) == (x, XferStep::Finished(Err(e))),
        raw & 0x8 != 0 ==> xfer_next(x, Ok(raw)).1 == XferStep::Finished(Err(UsbError::Stall)),
        raw & 0x8 == 0 && raw & 0x80 != 0 ==> (xfer_next(x, Ok(raw)).1 is Retry <==> x.xact_left > 0
            && x.attempt < 64),
        raw & 0x8 == 0 && raw & 0x80 == 0 && raw & 0x10 != 0 && x.attempt <= 64 ==> (xfer_next(
            x,
            Ok(raw),
        ).1 is Retry <==> x.attempt < 64),
        raw & 0x98 == 0 ==> xfer_next(x, Ok(raw)).1 == XferStep::Finished(
            if raw & 0x1 != 0 {
                Ok(raw)
            } else {
                Err(UsbError::Protocol(ERR_NO_XFERCOMPL))
            },
        ),
        x.wf() && xfer_next(x, Ok(raw)).1 is Retry ==> raw & 0x8 == 0 && raw & 0x90 != 0 && xfer_next(
            x,
            Ok(raw),
        ).0.attempt == x.attempt + 1,
{
    lemma_cause_bits();
    assert((raw & 0x98 == 0) == (raw & 0x8 == 0 && raw & 0x80 == 0 && raw & 0x10 == 0) && (raw
        & 0x90 != 0) == (raw & 0x80 != 0 || raw & 0x10 != 0)) by (bit_vector);
}

/// A channel is armed in this order: it must be idle, splits are switched off, old causes are
/// cleared and those of interest let through, then size and address are set, and the enable bit
/// comes last, behind a fence. Channels lie 32 bytes apart.
pub proof fn law_channel_is_armed_in_order(idx: u32, tsiz: u32, hcchar_ena: u32, dmap: u32)
    requires
        idx <= 1,
    ensures
        ({
            let s = arm_script(idx, tsiz, hcchar_ena, dmap);
            let base = (0x0434_0500 + 0x20 * idx) as usize;
            &&& s.len() == 9
            &&& s[0] matches HwOp::Poll { addr, mask, set, iters, spin, error } && addr == base
                && mask == 0x8000_0000 && !set && error == UsbError::Timeout
            &&& s[1] == (HwOp::Write { addr: (base + 0x04) as usize, value: 0 })
            &&& s[2] == (HwOp::Write { addr: (base + 0x08) as usize, value: 0x7FF })
            &&& s[3] == (HwOp::Write { addr: (base + 0x0c) as usize, value: 0x3 })
            &&& s[4] == (HwOp::Write { addr: (base + 0x10) as usize, value: tsiz })
            &&& s[5] == HwOp::Fence
            &&& s[6] == (HwOp::Write { addr: (base + 0x14) as usize, value: dmap })
            &&& s[7] == HwOp::Fence
            &&& s[8] == (HwOp::Write { addr: base, value: hcchar_ena })
        }),
{
    lemma_cause_bits();
}

/// A transfer has run out of tries exactly where a transaction error that would be forgiven ends
/// it all the same: with a try more it would have gone on.
pub proof fn law_tries_run_out(x: Xfer, raw: u32)
    requires
        !any_set(HCINT_STALL, raw),
        any_set(HCINT_XACTERR, raw),
        0 < x.xact_left,
    ensures
        out_of_tries(x, Ok(raw)) <==> xfer_next(x, Ok(raw)).1 is Finished,
        xfer_next(Xfer { attempt: 63, ..x }, Ok(raw)).1 is Retry,
        out_of_tries(Xfer { attempt: 64, ..x }, Ok(raw)),
{
}

} // verus!
