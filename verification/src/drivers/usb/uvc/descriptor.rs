//! Configuration descriptors of cameras: streams, formats, frames, endpoints and control
//! entities.
//!
//! Frame intervals are counted in ticks of 100 ns in descriptors and in nanoseconds elsewhere.

use crate::drivers::usb::device::{USB_CLASS_VIDEO, USB_DT_INTERFACE};
use crate::drivers::usb::dwc2::isoch::{
    is_single_transaction, mps_of, single_transaction, wmax_mps, wmax_payload_per_uframe,
};
use crate::error::{UsbError, UsbResult};
use vstd::prelude::*;

verus! {

/// Type of an endpoint descriptor.
pub const USB_DT_ENDPOINT: u8 = 5;

/// Type of a class-specific interface descriptor.
pub const CS_INTERFACE: u8 = 0x24;

/// Subtype of an MJPEG format descriptor.
pub const VS_FORMAT_MJPEG: u8 = 0x06;

/// Subtype of an MJPEG frame descriptor.
pub const VS_FRAME_MJPEG: u8 = 0x07;

/// Subtype of an uncompressed format descriptor.
pub const VS_FORMAT_UNCOMPRESSED: u8 = 0x04;

/// Subtype of an uncompressed frame descriptor.
pub const VS_FRAME_UNCOMPRESSED: u8 = 0x05;

/// Subclass of streaming interfaces.
pub const USB_SUBCLASS_VIDEO_STREAMING: u8 = 0x02;

/// Subclass of control interfaces.
pub const USB_SUBCLASS_VIDEO_CONTROL: u8 = 0x01;

/// Subtype of an input terminal descriptor.
pub const VC_INPUT_TERMINAL: u8 = 0x02;

/// Subtype of a processing unit descriptor.
pub const VC_PROCESSING_UNIT: u8 = 0x05;

/// Terminal type of a camera.
pub const ITT_CAMERA: u16 = 0x0201;

/// Transfer type of isochronous endpoints.
pub const ENDPOINT_ATTR_ISOCH: u8 = 1;

/// Room for alternate settings in a selection.
pub const MAX_ISOCH_ALTS: usize = 8;

pub const ERR_CFG_SHORT: &'static str = "cfg too short";

pub const ERR_CFG_LENGTH: &'static str = "bad cfg bLength";

pub const ERR_NO_FRAME: &'static str = "no VS format/frame";

// ---------------------------------------------------------------------------
// Time
// ---------------------------------------------------------------------------
/// Nanoseconds in a number of ticks.
pub fn from_uvc_ticks(t: u32) -> (nanos: u128)
    ensures
        nanos == t * 100,
{
    t as u128 * 100
}

/// Whole ticks in a duration; a count beyond 32 bits loses its upper part.
pub open spec fn uvc_ticks(nanos: int) -> u32 {
    (nanos / 100 % 0x1_0000_0000) as u32
}

/// Whole ticks in a duration.
pub fn to_uvc_ticks(nanos: u128) -> (t: u32)
    ensures
        t == uvc_ticks(nanos as int),
{
    (nanos / 100 % 0x1_0000_0000) as u32
}

/// Ticks survive the way to a duration and back.
pub proof fn law_ticks_round_trip(t: u32)
    ensures
        uvc_ticks(t * 100) == t,
{
}

/// Hundredths of frames per second at an interval in tenths of a microsecond.
pub open spec fn rate_of(ival: u32) -> int {
    if ival == 0 {
        0
    } else {
        1_000_000_000int / ival as int
    }
}

/// A rate is the greatest number of hundredths of frames whose intervals fit into a second.
pub proof fn law_rate_fits_a_second(ival: u32)
    requires
        0 < ival,
    ensures
        rate_of(ival) * ival <= 1_000_000_000 < (rate_of(ival) + 1) * ival,
        rate_of(0) == 0,
{
    let r = rate_of(ival);
    vstd::arithmetic::div_mod::lemma_fundamental_div_mod(1_000_000_000, ival as int);
    assert(r * ival == ival * r && (r + 1) * ival == ival * r + ival) by (nonlinear_arith);
}

/// Hundredths of frames per second at an interval, 0 where the interval is 0.
pub fn fps_x100(ival: u32) -> (r: u32)
    ensures
        r == rate_of(ival),
        r == (if ival == 0 {
            0
        } else {
            1_000_000_000int / ival as int
        }),
{
    if ival == 0 {
        0
    } else {
        1_000_000_000 / ival
    }
}

// ---------------------------------------------------------------------------
// One descriptor
// ---------------------------------------------------------------------------
/// The descriptor at `base`, where its length is plausible and does not lead beyond `end` or the
/// data.
pub open spec fn desc_at(b: Seq<u8>, base: int, end: int) -> Option<Seq<u8>> {
    if 0 <= base < b.len() && b[base] >= 2 && base + b[base] <= end && base + b[base] <= b.len() {
        Some(b.subrange(base, base + b[base]))
    } else {
        None
    }
}

/// The byte at `off`, where the descriptor has one.
pub open spec fn byte_at(d: Seq<u8>, off: int) -> Option<u8> {
    if off < d.len() {
        Some(d[off])
    } else {
        None
    }
}

/// The 16-bit word at `off`, low byte first.
pub open spec fn le16_at(d: Seq<u8>, off: int) -> Option<u16> {
    if off + 2 <= d.len() {
        Some((d[off] + 256 * d[off + 1]) as u16)
    } else {
        None
    }
}

/// The 32-bit word at `off`, low byte first.
pub open spec fn le32_at(d: Seq<u8>, off: int) -> Option<u32> {
    if off + 4 <= d.len() {
        Some(
            (d[off] + 0x100 * d[off + 1] + 0x1_0000 * d[off + 2] + 0x100_0000 * d[off
                + 3]) as u32,
        )
    } else {
        None
    }
}

/// A descriptor within a buffer. Reads beyond its length give nothing.
#[derive(Clone, Copy)]
pub struct Desc<'a> {
    buf: &'a [u8],
    base: usize,
    len: usize,
}

impl<'a> View for Desc<'a> {
    type V = Seq<u8>;

    closed spec fn view(&self) -> Seq<u8> {
        self.buf@.subrange(self.base as int, self.base + self.len)
    }
}

impl<'a> Desc<'a> {
    /// Whether the descriptor lies within its buffer.
    pub closed spec fn wf(&self) -> bool {
        2 <= self.len && self.base + self.len <= self.buf@.len() <= isize::MAX
    }

    /// The descriptor at `base` of `buf`, with `end` as the limit of what is scanned.
    pub fn new(buf: &'a [u8], base: usize, end: usize) -> (r: Option<Desc<'a>>)
        requires
            end <= buf@.len() <= isize::MAX,
        ensures
            match desc_at(buf@, base as int, end as int) {
                Some(v) => r matches Some(d) && d.wf() && d@ == v,
                None => r is None,
            },
    {
        if base >= buf.len() {
            return None;
        }
        let bl: usize = buf[base] as usize;
        if bl < 2 || base + bl > end {
            return None;
        }
        Some(Desc { buf, base, len: bl })
    }

    /// Length of the descriptor.
    pub fn len(&self) -> (n: usize)
        requires
            self.wf(),
        ensures
            n == self@.len(),
            2 <= n <= isize::MAX,
    {
        self.len
    }

    /// Type of the descriptor.
    pub fn ty(&self) -> (t: u8)
        requires
            self.wf(),
        ensures
            t == self@[1],
    {
        self.buf[self.base + 1]
    }

    /// The byte at `off`.
    pub fn u8(&self, off: usize) -> (r: Option<u8>)
        requires
            self.wf(),
        ensures
            r == byte_at(self@, off as int),
    {
        if off < self.len {
            Some(self.buf[self.base + off])
        } else {
            None
        }
    }

    /// The 16-bit word at `off`.
    pub fn u16le(&self, off: usize) -> (r: Option<u16>)
        requires
            self.wf(),
            off + 2 <= usize::MAX,
        ensures
            r == le16_at(self@, off as int),
    {
        if off + 2 <= self.len {
            let i: usize = self.base + off;
            Some(self.buf[i] as u16 + 256 * self.buf[i + 1] as u16)
        } else {
            None
        }
    }

    /// The 32-bit word at `off`.
    pub fn u32le(&self, off: usize) -> (r: Option<u32>)
        requires
            self.wf(),
            off + 4 <= usize::MAX,
        ensures
            r == le32_at(self@, off as int),
    {
        if off + 4 <= self.len {
            let i: usize = self.base + off;
            Some(
                self.buf[i] as u32 + 0x100 * self.buf[i + 1] as u32 + 0x1_0000 * self.buf[i
                    + 2] as u32 + 0x100_0000 * self.buf[i + 3] as u32,
            )
        } else {
            None
        }
    }
}

// ---------------------------------------------------------------------------
// Frame intervals
// ---------------------------------------------------------------------------
/// Distance of an interval from the wanted one.
pub open spec fn distance(v: u32, pref: u32) -> int {
    if v >= pref {
        v - pref
    } else {
        pref - v
    }
}

/// The better of a candidate and the best so far: 0 is no candidate, and the earlier one wins a
/// tie.
pub open spec fn closer(v: u32, best: Option<u32>, pref: u32) -> Option<u32> {
    match best {
        None => if v == 0 {
            None
        } else {
            Some(v)
        },
        Some(b) => if v != 0 && distance(v, pref) < distance(b, pref) {
            Some(v)
        } else {
            Some(b)
        },
    }
}

/// The first of the candidates that are nearest to the wanted interval.
pub open spec fn nearest(cands: Seq<u32>, pref: u32) -> Option<u32>
    decreases cands.len(),
{
    if cands.len() == 0 {
        None
    } else {
        closer(cands.last(), nearest(cands.drop_last(), pref), pref)
    }
}

/// The chosen interval is one of the candidates, and none is nearer to the wanted one; there is
/// none exactly when all candidates are 0.
pub proof fn law_nearest(cands: Seq<u32>, pref: u32)
    ensures
        match nearest(cands, pref) {
            Some(b) => {
                &&& b != 0
                &&& cands.contains(b)
                &&& forall|k: int|
                    0 <= k < cands.len() && cands[k] != 0 ==> distance(b, pref) <= distance(
                        #[trigger] cands[k],
                        pref,
                    )
            },
            None => forall|k: int| 0 <= k < cands.len() ==> #[trigger] cands[k] == 0,
        },
    decreases cands.len(),
{
    if cands.len() > 0 {
        let rest = cands.drop_last();
        law_nearest(rest, pref);
        assert(forall|k: int| 0 <= k < rest.len() ==> rest[k] == cands[k]);
        match nearest(rest, pref) {
            Some(b) => {
                let k = choose|k: int| 0 <= k < rest.len() && rest[k] == b;
                assert(cands[k] == b);
            },
            None => {},
        }
        assert(cands[cands.len() - 1] == cands.last());
    }
}

/// The intervals that a frame descriptor lists, as far as they are within it.
pub open spec fn listed_intervals(d: Seq<u8>, n: int) -> Seq<u32> {
    let present = if d.len() < 26 {
        0
    } else {
        (d.len() - 26) / 4
    };
    Seq::new(
        (if n < present {
            n
        } else {
            present
        }) as nat,
        |k: int| le32_at(d, 26 + 4 * k)->0,
    )
}

/// Shortest interval of a frame descriptor with a continuous range.
pub open spec fn range_min(d: Seq<u8>) -> u32 {
    le32_at(d, 26)->0
}

/// Longest interval of a frame descriptor with a continuous range.
pub open spec fn range_max(d: Seq<u8>) -> u32 {
    le32_at(d, 30)->0
}

/// Whether a frame descriptor holds a usable continuous range.
pub open spec fn has_range(d: Seq<u8>) -> bool {
    d.len() >= 38 && range_min(d) > 0 && range_max(d) > 0
}

/// `v` moved into `[lo, hi]`.
pub open spec fn clamped(v: u32, lo: u32, hi: u32) -> u32 {
    if v < lo {
        lo
    } else if v > hi {
        hi
    } else {
        v
    }
}

/// The intervals to choose from for a frame: what the descriptor lists or, of a continuous
/// range, its nearest point; then the default.
pub open spec fn interval_candidates(d: Seq<u8>, dflt: u32, kind: u8, pref: u32) -> Seq<u32> {
    if kind == 0 {
        if has_range(d) {
            seq![clamped(pref, range_min(d), range_max(d)), dflt]
        } else {
            seq![dflt]
        }
    } else {
        listed_intervals(d, kind as int).push(dflt)
    }
}

/// The interval for a frame, 0 where none is wanted or none is offered.
pub open spec fn chosen_interval(d: Seq<u8>, dflt: u32, kind: u8, pref: u32) -> u32 {
    if pref == 0 {
        0
    } else {
        match nearest(interval_candidates(d, dflt, kind, pref), pref) {
            Some(v) => v,
            None => 0,
        }
    }
}

/// Whether a continuous range that is looked at runs from low to high.
pub open spec fn range_ordered(d: Seq<u8>, kind: u8, pref: u32) -> bool {
    pref != 0 && kind == 0 && has_range(d) ==> range_min(d) <= range_max(d)
}

/// Keeps the better of a candidate and the best so far.
fn best_for(v: u32, best: Option<u32>, pref: u32) -> (r: Option<u32>)
    ensures
        r == closer(v, best, pref),
{
    if v == 0 {
        return best;
    }
    match best {
        None => Some(v),
        Some(b) => {
            let d_new: u32 = if v >= pref {
                v - pref
            } else {
                pref - v
            };
            let d_old: u32 = if b >= pref {
                b - pref
            } else {
                pref - b
            };
            if d_new < d_old {
                Some(v)
            } else {
                Some(b)
            }
        },
    }
}

/// Chooses the interval of a frame nearest to `pref`. 0 stands for no preference, and is returned
/// where there is none.
pub fn choose_frame_interval(d: Desc, dflt_ival: u32, ival_type: u8, pref: u32) -> (r: u32)
    requires
        d.wf(),
        range_ordered(d@, ival_type, pref),
    ensures
        r == chosen_interval(d@, dflt_ival, ival_type, pref),
{
    if pref == 0 {
        return 0;
    }
    let ghost cands = interval_candidates(d@, dflt_ival, ival_type, pref);
    let mut best: Option<u32> = None;
    if ival_type == 0 {
        let mut ranged: bool = false;
        if d.len() >= 38 {
            if let (Some(lo), Some(hi)) = (d.u32le(26), d.u32le(30)) {
                if lo > 0 && hi > 0 {
                    let v: u32 = if pref < lo {
                        lo
                    } else if pref > hi {
                        hi
                    } else {
                        pref
                    };
                    best = best_for(v, best, pref);
                    ranged = true;
                }
            }
        }
        proof {
            assert(ranged == has_range(d@));
            reveal_with_fuel(nearest, 3);
            assert(cands.drop_last() =~= if ranged {
                seq![cands[0]]
            } else {
                Seq::<u32>::empty()
            });
            if ranged {
                assert(seq![cands[0]].drop_last() =~= Seq::<u32>::empty());
            }
        }
        best = best_for(dflt_ival, best, pref);
    } else {
        let ghost list = listed_intervals(d@, ival_type as int);
        let mut k: usize = 0;
        let mut more: bool = true;
        assert(list.take(0) =~= Seq::<u32>::empty());
        while k < ival_type as usize && more
            invariant
                d.wf(),
                k <= ival_type,
                list == listed_intervals(d@, ival_type as int),
                k <= list.len(),
                !more ==> k == list.len(),
                best == nearest(list.take(k as int), pref),
            decreases ival_type - k + if more {
                1int
            } else {
                0
            },
        {
            match d.u32le(26 + 4 * k) {
                Some(ival) => {
                    proof {
                        assert(list.take(k + 1).drop_last() =~= list.take(k as int));
                        assert(list.take(k + 1).last() == list[k as int]);
                    }
                    best = best_for(ival, best, pref);
                    k = k + 1;
                },
                None => {
                    more = false;
                },
            }
        }
        proof {
            assert(list.take(k as int) =~= list);
            assert(cands.drop_last() =~= list);
        }
        best = best_for(dflt_ival, best, pref);
    }
    match best {
        Some(v) => v,
        None => 0,
    }
}

// ---------------------------------------------------------------------------
// Frames
// ---------------------------------------------------------------------------
/// Which frames are wanted: a size, and an interval in nanoseconds (0 for the shortest).
#[derive(Clone, Copy, Debug, PartialEq, Eq, Structural)]
pub struct UvcPrefs {
    pub frame_w: u16,
    pub frame_h: u16,
    pub frame_interval: u128,
}

/// One frame size of a format, with the interval to use in ticks.
#[derive(Clone, Copy, Debug, PartialEq, Eq, Structural)]
pub struct FramePick {
    pub fmt_ix: u8,
    pub frame_ix: u8,
    pub w: u16,
    pub h: u16,
    pub ival: u32,
    pub is_mjpeg: bool,
}

/// The least of `start` and the positive values.
pub open spec fn least_positive(vals: Seq<u32>, start: u32) -> u32
    decreases vals.len(),
{
    if vals.len() == 0 {
        start
    } else {
        let m = least_positive(vals.drop_last(), start);
        if 0 < vals.last() < m {
            vals.last()
        } else {
            m
        }
    }
}

/// Shortest interval of a frame: the low end of a continuous range, or the least that is listed;
/// the default where nothing better is offered.
pub open spec fn min_interval(d: Seq<u8>, dflt: u32, kind: u8) -> u32 {
    if kind == 0 {
        if d.len() >= 38 && range_min(d) > 0 {
            range_min(d)
        } else {
            dflt
        }
    } else {
        least_positive(listed_intervals(d, kind as int), dflt)
    }
}

/// Whether a descriptor is a frame descriptor with all its fixed fields.
pub open spec fn is_frame(d: Seq<u8>, st: u8) -> bool {
    (st == VS_FRAME_MJPEG || st == VS_FRAME_UNCOMPRESSED) && d.len() >= 26
}

/// The frame that a frame descriptor stands for: the interval nearest to the wanted one, or the
/// shortest where none is wanted.
pub open spec fn frame_of(d: Seq<u8>, st: u8, fmt_ix: u8, pref: u32) -> Option<FramePick> {
    if is_frame(d, st) {
        let dflt = le32_at(d, 21)->0;
        let kind = d[25];
        let chosen = chosen_interval(d, dflt, kind, pref);
        let least = min_interval(d, dflt, kind);
        Some(
            FramePick {
                fmt_ix,
                frame_ix: d[3],
                w: le16_at(d, 5)->0,
                h: le16_at(d, 7)->0,
                ival: if chosen > 0 {
                    chosen
                } else if least > 0 {
                    least
                } else {
                    dflt
                },
                is_mjpeg: st == VS_FRAME_MJPEG,
            },
        )
    } else {
        None
    }
}

/// Whether the continuous range of a frame descriptor, where it is looked at, is in order.
pub open spec fn frame_ordered(d: Seq<u8>, st: u8, pref: u32) -> bool {
    is_frame(d, st) ==> range_ordered(d, d[25], pref)
}

/// The shortest interval that a frame offers.
fn shortest_interval(d: Desc, dflt_ival: u32, ival_type: u8) -> (r: u32)
    requires
        d.wf(),
    ensures
        r == min_interval(d@, dflt_ival, ival_type),
{
    let mut min_ival: u32 = dflt_ival;
    if ival_type == 0 {
        if d.len() >= 38 {
            if let Some(dw_min) = d.u32le(26) {
                if dw_min > 0 {
                    min_ival = dw_min;
                }
            }
        }
    } else {
        let ghost list = listed_intervals(d@, ival_type as int);
        let mut k: usize = 0;
        let mut more: bool = true;
        assert(list.take(0) =~= Seq::<u32>::empty());
        while k < ival_type as usize && more
            invariant
                d.wf(),
                k <= ival_type,
                list == listed_intervals(d@, ival_type as int),
                k <= list.len(),
                !more ==> k == list.len(),
                min_ival == least_positive(list.take(k as int), dflt_ival),
            decreases ival_type - k + if more {
                1int
            } else {
                0
            },
        {
            match d.u32le(26 + 4 * k) {
                Some(ival) => {
                    proof {
                        assert(list.take(k + 1).drop_last() =~= list.take(k as int));
                        assert(list.take(k + 1).last() == list[k as int]);
                    }
                    if ival > 0 && ival < min_ival {
                        min_ival = ival;
                    }
                    k = k + 1;
                },
                None => {
                    more = false;
                },
            }
        }
        assert(list.take(k as int) =~= list);
    }
    min_ival
}

/// Reads a frame descriptor of subtype `st`. `None` where it is none or too short; where the
/// continuous range it offers is upside down, nothing is read and the second part is false.
pub fn parse_vs_frame(d: Desc, st: u8, fmt_ix: u8, pref_ticks: u32) -> (r: (
    Option<FramePick>,
    bool,
))
    requires
        d.wf(),
    ensures
        r.1 == frame_ordered(d@, st, pref_ticks),
        r.1 ==> r.0 == frame_of(d@, st, fmt_ix, pref_ticks),
{
    if !(st == VS_FRAME_MJPEG || st == VS_FRAME_UNCOMPRESSED) || d.len() < 26 {
        return (None, true);
    }
    match (d.u8(3), d.u16le(5), d.u16le(7), d.u32le(21), d.u8(25)) {
        (Some(frame_ix), Some(w), Some(h), Some(dflt_ival), Some(ival_type)) => {
            if pref_ticks != 0 && ival_type == 0 && d.len() >= 38 {
                if let (Some(lo), Some(hi)) = (d.u32le(26), d.u32le(30)) {
                    if lo > 0 && hi > 0 && lo > hi {
                        return (None, false);
                    }
                }
            }
            let min_ival: u32 = shortest_interval(d, dflt_ival, ival_type);
            let chosen_ival: u32 = choose_frame_interval(d, dflt_ival, ival_type, pref_ticks);
            let ival: u32 = if chosen_ival > 0 {
                chosen_ival
            } else if min_ival > 0 {
                min_ival
            } else {
                dflt_ival
            };
            let is_mjpeg: bool = st == VS_FRAME_MJPEG;
            (Some(FramePick { fmt_ix, frame_ix, w, h, ival, is_mjpeg }), true)
        },
        _ => (None, true),
    }
}

/// The rank of the wanted size, above that of every other.
pub const EXACT_RANK: i64 = 0x1_0000_0000;

/// How well a frame size serves: the wanted size best, then sizes of at most the wanted area, the
/// nearer the better, then greater ones, the worse the more they exceed it.
pub open spec fn rank_of(w: u16, h: u16, pref_w: u16, pref_h: u16) -> int {
    if w == pref_w && h == pref_h {
        EXACT_RANK as int
    } else if w * h <= pref_w * pref_h {
        w * h
    } else {
        pref_w * pref_h - w * h
    }
}

/// The product of two 16-bit numbers fits 32 bits.
proof fn lemma_area_bound(w: u16, h: u16)
    ensures
        0 <= w * h < 0x1_0000_0000,
{
    assert(0 <= w * h <= 65535 * 65535) by (nonlinear_arith)
        requires
            0 <= w <= 65535,
            0 <= h <= 65535,
    ;
}

/// The wanted size ranks above every other; of two sizes within the wanted area the greater one
/// ranks higher; every size within it ranks above every size beyond it; and of two sizes beyond
/// it the smaller one ranks higher.
pub proof fn law_rank_order(a: (u16, u16), b: (u16, u16), pref: (u16, u16))
    requires
        b != pref,
    ensures
        a == pref ==> rank_of(a.0, a.1, pref.0, pref.1) > rank_of(b.0, b.1, pref.0, pref.1),
        a != pref && b.0 * b.1 < a.0 * a.1 <= pref.0 * pref.1 ==> rank_of(
            a.0,
            a.1,
            pref.0,
            pref.1,
        ) > rank_of(b.0, b.1, pref.0, pref.1),
        a.0 * a.1 <= pref.0 * pref.1 < b.0 * b.1 ==> rank_of(a.0, a.1, pref.0, pref.1) > rank_of(
            b.0,
            b.1,
            pref.0,
            pref.1,
        ),
        pref.0 * pref.1 < a.0 * a.1 < b.0 * b.1 ==> rank_of(a.0, a.1, pref.0, pref.1) > rank_of(
            b.0,
            b.1,
            pref.0,
            pref.1,
        ),
{
    lemma_area_bound(a.0, a.1);
    lemma_area_bound(b.0, b.1);
    lemma_area_bound(pref.0, pref.1);
}

/// How well a frame serves the preferences.
pub fn frame_rank(p: &FramePick, prefs: &UvcPrefs) -> (r: i64)
    ensures
        r == rank_of(p.w, p.h, prefs.frame_w, prefs.frame_h),
{
    proof {
        lemma_area_bound(p.w, p.h);
        lemma_area_bound(prefs.frame_w, prefs.frame_h);
    }
    if p.w == prefs.frame_w && p.h == prefs.frame_h {
        return EXACT_RANK;
    }
    let area: i64 = p.w as i64 * p.h as i64;
    let pref_area: i64 = prefs.frame_w as i64 * prefs.frame_h as i64;
    if area <= pref_area {
        area
    } else {
        pref_area - area
    }
}

/// The better of a frame and the best so far; the earlier one wins a tie.
pub open spec fn better_frame(
    best: Option<FramePick>,
    p: FramePick,
    prefs: UvcPrefs,
) -> Option<FramePick> {
    match best {
        None => Some(p),
        Some(b) => if rank_of(p.w, p.h, prefs.frame_w, prefs.frame_h) > rank_of(
            b.w,
            b.h,
            prefs.frame_w,
            prefs.frame_h,
        ) {
            Some(p)
        } else {
            Some(b)
        },
    }
}

/// Keeps the better of a frame and the best so far.
fn keep_better(best: Option<FramePick>, p: FramePick, prefs: &UvcPrefs) -> (r: Option<FramePick>)
    ensures
        r == better_frame(best, p, *prefs),
{
    match best {
        None => Some(p),
        Some(b) => {
            if frame_rank(&p, prefs) > frame_rank(&b, prefs) {
                Some(p)
            } else {
                Some(b)
            }
        },
    }
}

// ---------------------------------------------------------------------------
// Endpoints
// ---------------------------------------------------------------------------
/// An isochronous IN endpoint of an alternate setting.
#[derive(Clone, Copy, Debug, PartialEq, Eq, Structural)]
pub struct IsochAlt {
    pub alt: u8,
    pub ep_num: u8,
    pub mps_raw: u16,
    pub interface: u8,
}

/// The isochronous IN endpoints seen so far.
pub struct IsochCandidates {
    /// The first one with the greatest payload.
    pub best: Option<IsochAlt>,
    /// The first ones, in order.
    pub alts: [IsochAlt; 8],
    pub count: usize,
}

/// Contents of [`IsochCandidates`].
#[verifier::ext_equal]
pub struct IsochView {
    pub best: Option<IsochAlt>,
    pub alts: Seq<IsochAlt>,
}

impl View for IsochCandidates {
    type V = IsochView;

    open spec fn view(&self) -> IsochView {
        IsochView { best: self.best, alts: self.alts@.take(self.count as int) }
    }
}

/// The endpoint that a descriptor stands for, where it is an isochronous IN endpoint.
pub open spec fn isoch_of(d: Seq<u8>, alt: u8, interface: u8) -> Option<IsochAlt> {
    if d.len() >= 6 && d[2] >= 0x80 && d[3] % 4 == ENDPOINT_ATTR_ISOCH {
        Some(IsochAlt { alt, ep_num: d[2] % 16, mps_raw: le16_at(d, 4)->0, interface })
    } else {
        None
    }
}

/// The candidates after one more endpoint.
pub open spec fn considered(c: IsochView, e: IsochAlt) -> IsochView {
    IsochView {
        best: match c.best {
            None => Some(e),
            Some(b) => if mps_of(e.mps_raw) > mps_of(b.mps_raw) {
                Some(e)
            } else {
                Some(b)
            },
        },
        alts: if c.alts.len() < 8 {
            c.alts.push(e)
        } else {
            c.alts
        },
    }
}

impl IsochCandidates {
    /// Whether the count is within the room.
    pub open spec fn wf(&self) -> bool {
        self.count <= 8
    }

    /// No candidates.
    pub fn new() -> (c: IsochCandidates)
        ensures
            c.wf(),
            c@ == (IsochView { best: None, alts: Seq::empty() }),
    {
        let none = IsochAlt { alt: 0, ep_num: 0, mps_raw: 0, interface: 0 };
        let c = IsochCandidates { best: None, alts: [none; 8], count: 0 };
        assert(c@.alts =~= Seq::empty());
        c
    }

    /// Takes an endpoint descriptor into account; all but isochronous IN endpoints, and
    /// descriptors that are too short, are passed over.
    pub fn consider(&mut self, d: Desc, cur_alt: u8, cur_ifc_num: u8)
        requires
            old(self).wf(),
            d.wf(),
        ensures
            final(self).wf(),
            final(self)@ == (match isoch_of(d@, cur_alt, cur_ifc_num) {
                Some(e) => considered(old(self)@, e),
                None => old(self)@,
            }),
    {
        if let (Some(ep_addr), Some(attr), Some(mps_raw)) = (d.u8(2), d.u8(3), d.u16le(4)) {
            if ep_addr >= 0x80 && attr % 4 == ENDPOINT_ATTR_ISOCH {
                let tak = IsochAlt {
                    alt: cur_alt,
                    ep_num: ep_addr % 16,
                    mps_raw,
                    interface: cur_ifc_num,
                };
                let payload: u32 = wmax_payload_per_uframe(mps_raw);
                let ghost before = self@;
                self.best =
                match self.best {
                    None => Some(tak),
                    Some(b) => {
                        if payload > wmax_payload_per_uframe(b.mps_raw) {
                            Some(tak)
                        } else {
                            Some(b)
                        }
                    },
                };
                if self.count < MAX_ISOCH_ALTS {
                    self.alts[self.count] = tak;
                    self.count = self.count + 1;
                    assert(self@.alts =~= before.alts.push(tak));
                }
            }
        }
    }
}

// ---------------------------------------------------------------------------
// Streams
// ---------------------------------------------------------------------------
/// The stream to use.
#[derive(Clone, Copy, Debug)]
pub struct UvcStreamSelection {
    pub vs_interface: u8,
    pub alt_setting: u8,
    pub ep_num: u8,
    /// `wMaxPacketSize` as the endpoint descriptor gives it.
    pub mps_raw: u16,
    pub format_index: u8,
    pub frame_index: u8,
    /// In nanoseconds.
    pub frame_interval: u128,
    pub is_mjpeg: bool,
    pub frame_w: u16,
    pub frame_h: u16,
    /// Bytes in a microframe that were negotiated, 0 before that.
    pub negotiated_payload_size: u32,
    pub isoch_alts_count: u8,
    /// Alternate settings that carry the endpoint, in the order of their descriptors.
    pub isoch_alts: [(u8, u16); 8],
}

/// Contents of a [`UvcStreamSelection`].
#[verifier::ext_equal]
pub struct SelectionView {
    pub vs_interface: u8,
    pub alt_setting: u8,
    pub ep_num: u8,
    pub mps_raw: u16,
    pub format_index: u8,
    pub frame_index: u8,
    pub frame_interval: int,
    pub is_mjpeg: bool,
    pub frame_w: u16,
    pub frame_h: u16,
    pub negotiated_payload_size: u32,
    pub alts: Seq<(u8, u16)>,
}

impl View for UvcStreamSelection {
    type V = SelectionView;

    open spec fn view(&self) -> SelectionView {
        SelectionView {
            vs_interface: self.vs_interface,
            alt_setting: self.alt_setting,
            ep_num: self.ep_num,
            mps_raw: self.mps_raw,
            format_index: self.format_index,
            frame_index: self.frame_index,
            frame_interval: self.frame_interval as int,
            is_mjpeg: self.is_mjpeg,
            frame_w: self.frame_w,
            frame_h: self.frame_h,
            negotiated_payload_size: self.negotiated_payload_size,
            alts: self.isoch_alts@.take(self.isoch_alts_count as int),
        }
    }
}

impl UvcStreamSelection {
    /// Whether the count is within the room.
    pub open spec fn wf(&self) -> bool {
        self.isoch_alts_count <= 8
    }
}

/// What is known while the descriptors are scanned.
pub struct StreamScan {
    pub ifc_class: u8,
    pub ifc_sub: u8,
    pub ifc_num: u8,
    pub alt: u8,
    pub isoch: IsochCandidates,
    pub mjpeg: Option<FramePick>,
    pub uncomp: Option<FramePick>,
    pub fmt_ix: u8,
}

/// Contents of a [`StreamScan`].
#[verifier::ext_equal]
pub struct ScanView {
    pub ifc_class: u8,
    pub ifc_sub: u8,
    pub ifc_num: u8,
    pub alt: u8,
    pub isoch: IsochView,
    pub mjpeg: Option<FramePick>,
    pub uncomp: Option<FramePick>,
    pub fmt_ix: u8,
}

impl View for StreamScan {
    type V = ScanView;

    open spec fn view(&self) -> ScanView {
        ScanView {
            ifc_class: self.ifc_class,
            ifc_sub: self.ifc_sub,
            ifc_num: self.ifc_num,
            alt: self.alt,
            isoch: self.isoch@,
            mjpeg: self.mjpeg,
            uncomp: self.uncomp,
            fmt_ix: self.fmt_ix,
        }
    }
}

/// Before the first descriptor.
pub open spec fn scan_start() -> ScanView {
    ScanView {
        ifc_class: 0,
        ifc_sub: 0,
        ifc_num: 0,
        alt: 0,
        isoch: IsochView { best: None, alts: Seq::empty() },
        mjpeg: None,
        uncomp: None,
        fmt_ix: 0,
    }
}

/// Whether the scan is within a streaming interface.
pub open spec fn in_streaming(s: ScanView) -> bool {
    s.ifc_class == USB_CLASS_VIDEO && s.ifc_sub == USB_SUBCLASS_VIDEO_STREAMING
}

/// The subtype of a class-specific descriptor, 0 where it has none.
pub open spec fn subtype_of(d: Seq<u8>) -> u8 {
    if d.len() > 2 {
        d[2]
    } else {
        0
    }
}

/// A class-specific descriptor within a streaming interface: a format descriptor names the
/// format of what follows, a frame descriptor is held against the best frame of its format.
pub open spec fn scan_streaming(d: Seq<u8>, s: ScanView, prefs: UvcPrefs) -> Option<ScanView> {
    let st = subtype_of(d);
    let ticks = uvc_ticks(prefs.frame_interval as int);
    let fmt_ix = if (st == VS_FORMAT_MJPEG || st == VS_FORMAT_UNCOMPRESSED) && d.len() > 3 {
        d[3]
    } else {
        s.fmt_ix
    };
    let t = ScanView { fmt_ix, ..s };
    if !frame_ordered(d, st, ticks) {
        None
    } else {
        match frame_of(d, st, fmt_ix, ticks) {
            None => Some(t),
            Some(p) => Some(
                if p.is_mjpeg {
                    ScanView { mjpeg: better_frame(s.mjpeg, p, prefs), ..t }
                } else {
                    ScanView { uncomp: better_frame(s.uncomp, p, prefs), ..t }
                },
            ),
        }
    }
}

/// What one descriptor adds. `None` where it offers a range that is upside down.
pub open spec fn scan_step(d: Seq<u8>, s: ScanView, prefs: UvcPrefs) -> Option<ScanView> {
    if d[1] == USB_DT_INTERFACE && d.len() >= 9 {
        Some(ScanView { ifc_num: d[2], alt: d[3], ifc_class: d[5], ifc_sub: d[6], ..s })
    } else if d[1] == CS_INTERFACE && in_streaming(s) {
        scan_streaming(d, s, prefs)
    } else if d[1] == USB_DT_ENDPOINT && in_streaming(s) {
        match isoch_of(d, s.alt, s.ifc_num) {
            Some(e) => Some(ScanView { isoch: considered(s.isoch, e), ..s }),
            None => Some(s),
        }
    } else {
        Some(s)
    }
}

/// The scan from position `i` on: it ends behind the last whole descriptor, or where a length is
/// not plausible.
pub open spec fn scan(b: Seq<u8>, i: int, end: int, s: ScanView, prefs: UvcPrefs) -> Option<
    ScanView,
>
    decreases end - i,
{
    if i + 2 <= end {
        match desc_at(b, i, end) {
            None => Some(s),
            Some(d) => match scan_step(d, s, prefs) {
                None => None,
                Some(t) => scan(b, i + d.len(), end, t, prefs),
            },
        }
    } else {
        Some(s)
    }
}

/// The scan of the first `end` bytes of `b`.
pub open spec fn stream_scan_of(b: Seq<u8>, end: int, prefs: UvcPrefs) -> Option<ScanView> {
    scan(b, b[0] as int, end, scan_start(), prefs)
}

/// The alternate settings that carry endpoint `ep`.
pub open spec fn alts_of(alts: Seq<IsochAlt>, ep: u8) -> Seq<(u8, u16)>
    decreases alts.len(),
{
    if alts.len() == 0 {
        Seq::empty()
    } else {
        let rest = alts_of(alts.drop_last(), ep);
        if alts.last().ep_num == ep {
            rest.push((alts.last().alt, alts.last().mps_raw))
        } else {
            rest
        }
    }
}

/// Outcome of the search for a stream.
pub enum StreamOutcome {
    /// A stream was found.
    Selected(SelectionView),
    /// There is none to use.
    Fail(UsbError),
    /// A frame descriptor offers a range that is upside down.
    BadRange,
}

/// The selection that a finished scan leads to: an isochronous endpoint is needed, and a frame,
/// MJPEG before uncompressed.
pub open spec fn selected(s: ScanView) -> StreamOutcome {
    match s.isoch.best {
        None => StreamOutcome::Fail(UsbError::NotImplemented),
        Some(e) => match (s.mjpeg, s.uncomp) {
            (None, None) => StreamOutcome::Fail(UsbError::Protocol(ERR_NO_FRAME)),
            (m, u) => {
                let p = if m is Some {
                    m->0
                } else {
                    u->0
                };
                StreamOutcome::Selected(
                    SelectionView {
                        vs_interface: e.interface,
                        alt_setting: e.alt,
                        ep_num: e.ep_num,
                        mps_raw: e.mps_raw,
                        format_index: p.fmt_ix,
                        frame_index: p.frame_ix,
                        frame_interval: p.ival * 100,
                        is_mjpeg: p.is_mjpeg,
                        frame_w: p.w,
                        frame_h: p.h,
                        negotiated_payload_size: 0,
                        alts: alts_of(s.isoch.alts, e.ep_num),
                    },
                )
            },
        },
    }
}

/// Where the scan of the first `total` bytes of `b` ends.
pub open spec fn scan_end(b: Seq<u8>, total: int) -> int {
    if total < b.len() {
        total
    } else {
        b.len() as int
    }
}

/// Outcome of the search for a stream in the first `total` bytes of `b`.
pub open spec fn stream_outcome(b: Seq<u8>, total: int, prefs: UvcPrefs) -> StreamOutcome {
    let end = scan_end(b, total);
    if end < 12 {
        StreamOutcome::Fail(UsbError::Protocol(ERR_CFG_SHORT))
    } else if b[0] >= end {
        StreamOutcome::Fail(UsbError::Protocol(ERR_CFG_LENGTH))
    } else {
        match stream_scan_of(b, end, prefs) {
            None => StreamOutcome::BadRange,
            Some(s) => selected(s),
        }
    }
}

/// The frames that a scan meets, in order.
pub open spec fn frames_met(
    b: Seq<u8>,
    i: int,
    end: int,
    s: ScanView,
    prefs: UvcPrefs,
) -> Seq<FramePick>
    decreases end - i,
{
    if i + 2 <= end {
        match desc_at(b, i, end) {
            None => Seq::empty(),
            Some(d) => match scan_step(d, s, prefs) {
                None => Seq::empty(),
                Some(t) => {
                    let rest = frames_met(b, i + d.len(), end, t, prefs);
                    let ticks = uvc_ticks(prefs.frame_interval as int);
                    if d[1] == CS_INTERFACE && in_streaming(s) && is_frame(d, subtype_of(d)) {
                        seq![frame_of(d, subtype_of(d), t.fmt_ix, ticks)->0] + rest
                    } else {
                        rest
                    }
                },
            },
        }
    } else {
        Seq::empty()
    }
}

/// The isochronous IN endpoints that a scan meets, in order.
pub open spec fn endpoints_met(
    b: Seq<u8>,
    i: int,
    end: int,
    s: ScanView,
    prefs: UvcPrefs,
) -> Seq<IsochAlt>
    decreases end - i,
{
    if i + 2 <= end {
        match desc_at(b, i, end) {
            None => Seq::empty(),
            Some(d) => match scan_step(d, s, prefs) {
                None => Seq::empty(),
                Some(t) => {
                    let rest = endpoints_met(b, i + d.len(), end, t, prefs);
                    if d[1] == USB_DT_ENDPOINT && in_streaming(s) && isoch_of(
                        d,
                        s.alt,
                        s.ifc_num,
                    ) is Some {
                        seq![isoch_of(d, s.alt, s.ifc_num)->0] + rest
                    } else {
                        rest
                    }
                },
            },
        }
    } else {
        Seq::empty()
    }
}

/// Rank of a frame.
pub open spec fn rank(p: FramePick, prefs: UvcPrefs) -> int {
    rank_of(p.w, p.h, prefs.frame_w, prefs.frame_h)
}

/// Whether `best` is one of `old` and the frames of the kind, and none of them ranks higher.
pub open spec fn best_of(
    best: Option<FramePick>,
    old: Option<FramePick>,
    frames: Seq<FramePick>,
    mjpeg: bool,
    prefs: UvcPrefs,
) -> bool {
    match best {
        Some(p) => {
            &&& p.is_mjpeg == mjpeg
            &&& old == Some(p) || frames.contains(p)
            &&& old is Some ==> rank(p, prefs) >= rank(old->0, prefs)
            &&& forall|k: int|
                0 <= k < frames.len() && (#[trigger] frames[k]).is_mjpeg == mjpeg ==> rank(
                    p,
                    prefs,
                ) >= rank(frames[k], prefs)
        },
        None => old is None && forall|k: int|
            0 <= k < frames.len() ==> (#[trigger] frames[k]).is_mjpeg != mjpeg,
    }
}

/// Whether `best` is one of `old` and the endpoints, and none of them carries more.
pub open spec fn widest_of(
    best: Option<IsochAlt>,
    old: Option<IsochAlt>,
    met: Seq<IsochAlt>,
) -> bool {
    match best {
        Some(e) => {
            &&& old == Some(e) || met.contains(e)
            &&& old is Some ==> mps_of(e.mps_raw) >= mps_of(old->0.mps_raw)
            &&& forall|k: int|
                0 <= k < met.len() ==> mps_of(e.mps_raw) >= mps_of((#[trigger] met[k]).mps_raw)
        },
        None => old is None && met.len() == 0,
    }
}

/// A scan keeps, of each kind, the first of the frames that rank highest, and of the endpoints
/// the first of those that carry most.
pub proof fn law_scan_keeps_best(b: Seq<u8>, i: int, end: int, s: ScanView, prefs: UvcPrefs)
    requires
        scan(b, i, end, s, prefs) is Some,
        s.mjpeg is Some ==> s.mjpeg->0.is_mjpeg,
        s.uncomp is Some ==> !s.uncomp->0.is_mjpeg,
    ensures
        ({
            let t = scan(b, i, end, s, prefs)->0;
            let frames = frames_met(b, i, end, s, prefs);
            &&& best_of(t.mjpeg, s.mjpeg, frames, true, prefs)
            &&& best_of(t.uncomp, s.uncomp, frames, false, prefs)
            &&& widest_of(t.isoch.best, s.isoch.best, endpoints_met(b, i, end, s, prefs))
        }),
    decreases end - i,
{
    if i + 2 <= end {
        if let Some(d) = desc_at(b, i, end) {
            let u = scan_step(d, s, prefs)->0;
            law_scan_keeps_best(b, i + d.len(), end, u, prefs);
            let t = scan(b, i, end, s, prefs)->0;
            let rest = frames_met(b, i + d.len(), end, u, prefs);
            let frames = frames_met(b, i, end, s, prefs);
            let erest = endpoints_met(b, i + d.len(), end, u, prefs);
            let met = endpoints_met(b, i, end, s, prefs);
            if frames.len() > rest.len() {
                assert(frames[0] == frames.first());
                assert(forall|k: int| 0 < k < frames.len() ==> #[trigger] frames[k] == rest[k - 1]);
                assert(forall|k: int| 0 <= k < rest.len() ==> #[trigger] rest[k] == frames[k + 1]);
                if t.mjpeg is Some && rest.contains(t.mjpeg->0) {
                    let k = choose|k: int| 0 <= k < rest.len() && rest[k] == t.mjpeg->0;
                    assert(frames[k + 1] == t.mjpeg->0);
                }
                if t.uncomp is Some && rest.contains(t.uncomp->0) {
                    let k = choose|k: int| 0 <= k < rest.len() && rest[k] == t.uncomp->0;
                    assert(frames[k + 1] == t.uncomp->0);
                }
            }
            if met.len() > erest.len() {
                assert(met[0] == met.first());
                assert(forall|k: int| 0 < k < met.len() ==> #[trigger] met[k] == erest[k - 1]);
                if t.isoch.best is Some && erest.contains(t.isoch.best->0) {
                    let k = choose|k: int| 0 <= k < erest.len() && erest[k] == t.isoch.best->0;
                    assert(met[k + 1] == t.isoch.best->0);
                }
            }
        }
    }
}

/// The frames that the first `total` bytes of `b` offer.
pub open spec fn frames_of(b: Seq<u8>, total: int, prefs: UvcPrefs) -> Seq<FramePick> {
    frames_met(b, b[0] as int, scan_end(b, total), scan_start(), prefs)
}

/// The isochronous IN endpoints that the first `total` bytes of `b` offer.
pub open spec fn endpoints_of(b: Seq<u8>, total: int, prefs: UvcPrefs) -> Seq<IsochAlt> {
    endpoints_met(b, b[0] as int, scan_end(b, total), scan_start(), prefs)
}

/// A selected stream is an MJPEG stream exactly when the descriptors offer an MJPEG frame; its
/// frame is one that is offered and none of its kind serves the preferences better; its endpoint
/// carries at least as much as every other.
pub proof fn law_selection_is_best(b: Seq<u8>, total: int, prefs: UvcPrefs)
    requires
        stream_outcome(b, total, prefs) is Selected,
    ensures
        ({
            let v = stream_outcome(b, total, prefs)->Selected_0;
            let frames = frames_of(b, total, prefs);
            let met = endpoints_of(b, total, prefs);
            &&& v.is_mjpeg <==> exists|k: int|
                0 <= k < frames.len() && (#[trigger] frames[k]).is_mjpeg
            &&& exists|k: int|
                0 <= k < frames.len() && (#[trigger] frames[k]).w == v.frame_w && frames[k].h
                    == v.frame_h && frames[k].is_mjpeg == v.is_mjpeg
            &&& forall|k: int|
                0 <= k < frames.len() && (#[trigger] frames[k]).is_mjpeg == v.is_mjpeg ==> rank_of(
                    v.frame_w,
                    v.frame_h,
                    prefs.frame_w,
                    prefs.frame_h,
                ) >= rank(frames[k], prefs)
            &&& forall|k: int|
                0 <= k < met.len() ==> mps_of(v.mps_raw) >= mps_of((#[trigger] met[k]).mps_raw)
        }),
{
    let end = scan_end(b, total);
    let t = stream_scan_of(b, end, prefs)->0;
    law_scan_keeps_best(b, b[0] as int, end, scan_start(), prefs);
    let frames = frames_of(b, total, prefs);
    let p = if t.mjpeg is Some {
        t.mjpeg->0
    } else {
        t.uncomp->0
    };
    let k = choose|k: int| 0 <= k < frames.len() && frames[k] == p;
    assert(frames[k] == p);
}

/// Whether `r` is what a search with outcome `o` returns.
pub open spec fn search_returns(r: UsbResult<UvcStreamSelection>, o: StreamOutcome) -> bool {
    match o {
        StreamOutcome::Selected(v) => r matches Ok(sel) && sel.wf() && sel@ == v,
        StreamOutcome::Fail(e) => r == Err::<UvcStreamSelection, UsbError>(e),
        StreamOutcome::BadRange => false,
    }
}

impl StreamScan {
    /// Takes one descriptor into account. False where it offers a range that is upside down.
    fn step(&mut self, d: Desc, prefs: &UvcPrefs, pref_ticks: u32) -> (ok: bool)
        requires
            old(self).isoch.wf(),
            d.wf(),
            pref_ticks == uvc_ticks(prefs.frame_interval as int),
        ensures
            final(self).isoch.wf(),
            ok == (scan_step(d@, old(self)@, *prefs) is Some),
            ok ==> final(self)@ == scan_step(d@, old(self)@, *prefs)->0,
    {
        let ty: u8 = d.ty();
        let streaming: bool = self.ifc_class == USB_CLASS_VIDEO && self.ifc_sub
            == USB_SUBCLASS_VIDEO_STREAMING;
        if ty == USB_DT_INTERFACE && d.len() >= 9 {
            if let (Some(num), Some(alt), Some(class), Some(sub)) = (
                d.u8(2),
                d.u8(3),
                d.u8(5),
                d.u8(6),
            ) {
                self.ifc_num = num;
                self.alt = alt;
                self.ifc_class = class;
                self.ifc_sub = sub;
            }
        } else if ty == CS_INTERFACE && streaming {
            let st: u8 = match d.u8(2) {
                Some(v) => v,
                None => 0,
            };
            if st == VS_FORMAT_MJPEG || st == VS_FORMAT_UNCOMPRESSED {
                if let Some(ix) = d.u8(3) {
                    self.fmt_ix = ix;
                }
            }
            let (pick, ordered) = parse_vs_frame(d, st, self.fmt_ix, pref_ticks);
            if !ordered {
                return false;
            }
            if let Some(p) = pick {
                if p.is_mjpeg {
                    self.mjpeg = keep_better(self.mjpeg, p, prefs);
                } else {
                    self.uncomp = keep_better(self.uncomp, p, prefs);
                }
            }
        } else if ty == USB_DT_ENDPOINT && streaming {
            self.isoch.consider(d, self.alt, self.ifc_num);
        }
        true
    }
}

/// The alternate settings of the candidates that carry endpoint `ep`.
fn collect_alts(c: &IsochCandidates, ep: u8) -> (r: ([(u8, u16); 8], u8))
    requires
        c.wf(),
    ensures
        r.1 <= 8,
        r.0@.take(r.1 as int) == alts_of(c@.alts, ep),
{
    let mut alts: [(u8, u16); 8] = [(0, 0); 8];
    let mut n: usize = 0;
    let mut k: usize = 0;
    let ghost all = c@.alts;
    assert(all.take(0) =~= Seq::<IsochAlt>::empty());
    assert(alts@.take(0) =~= Seq::<(u8, u16)>::empty());
    while k < c.count
        invariant
            c.wf(),
            k <= c.count,
            n <= k,
            all == c@.alts,
            alts@.take(n as int) == alts_of(all.take(k as int), ep),
        decreases c.count - k,
    {
        let e: IsochAlt = c.alts[k];
        proof {
            assert(all.take(k + 1).drop_last() =~= all.take(k as int));
            assert(all.take(k + 1).last() == e);
        }
        if e.ep_num == ep {
            let ghost before = alts@;
            alts[n] = (e.alt, e.mps_raw);
            assert(alts@.take(n + 1) =~= before.take(n as int).push((e.alt, e.mps_raw)));
            n = n + 1;
        }
        k = k + 1;
    }
    assert(all.take(k as int) =~= all);
    (alts, n as u8)
}

/// Searches the first `cfg_total` bytes of a configuration descriptor for the stream that serves
/// the preferences best. `None` where a frame descriptor offers a range that is upside down.
pub fn try_parse_uvc_video_stream(cfg: &[u8], cfg_total: usize, prefs: &UvcPrefs) -> (r: Option<
    UsbResult<UvcStreamSelection>,
>)
    requires
        cfg@.len() <= isize::MAX,
    ensures
        r is None <==> stream_outcome(cfg@, cfg_total as int, *prefs) is BadRange,
        r matches Some(res) ==> search_returns(
            res,
            stream_outcome(cfg@, cfg_total as int, *prefs),
        ),
{
    let len: usize = if cfg_total < cfg.len() {
        cfg_total
    } else {
        cfg.len()
    };
    if len < 12 {
        return Some(Err(UsbError::Protocol(ERR_CFG_SHORT)));
    }
    let mut i: usize = cfg[0] as usize;
    if i >= len {
        return Some(Err(UsbError::Protocol(ERR_CFG_LENGTH)));
    }
    let pref_ticks: u32 = to_uvc_ticks(prefs.frame_interval);
    let mut st = StreamScan {
        ifc_class: 0,
        ifc_sub: 0,
        ifc_num: 0,
        alt: 0,
        isoch: IsochCandidates::new(),
        mjpeg: None,
        uncomp: None,
        fmt_ix: 0,
    };
    let ghost whole = stream_scan_of(cfg@, len as int, *prefs);
    let mut more: bool = true;
    while more && i + 2 <= len
        invariant
            len <= cfg@.len() <= isize::MAX,
            i <= isize::MAX,
            st.isoch.wf(),
            pref_ticks == uvc_ticks(prefs.frame_interval as int),
            whole == stream_scan_of(cfg@, len as int, *prefs),
            len == scan_end(cfg@, cfg_total as int),
            12 <= len,
            cfg@[0] < len,
            more ==> scan(cfg@, i as int, len as int, st@, *prefs) == whole,
            !more ==> whole == Some(st@),
        decreases
                len + 300 - i,
                (if more {
                    1int
                } else {
                    0
                }),
    {
        match Desc::new(cfg, i, len) {
            None => {
                more = false;
            },
            Some(d) => {
                if !st.step(d, prefs, pref_ticks) {
                    return None;
                }
                i = i + d.len();
            },
        }
    }
    let e: IsochAlt = match st.isoch.best {
        None => {
            return Some(Err(UsbError::NotImplemented));
        },
        Some(e) => e,
    };
    let pick: FramePick = match (st.mjpeg, st.uncomp) {
        (Some(p), _) => p,
        (None, Some(p)) => p,
        (None, None) => {
            return Some(Err(UsbError::Protocol(ERR_NO_FRAME)));
        },
    };
    let (isoch_alts, isoch_alts_count) = collect_alts(&st.isoch, e.ep_num);
    Some(
        Ok(
            UvcStreamSelection {
                vs_interface: e.interface,
                alt_setting: e.alt,
                ep_num: e.ep_num,
                mps_raw: e.mps_raw,
                format_index: pick.fmt_ix,
                frame_index: pick.frame_ix,
                frame_interval: from_uvc_ticks(pick.ival),
                is_mjpeg: pick.is_mjpeg,
                frame_w: pick.w,
                frame_h: pick.h,
                negotiated_payload_size: 0,
                isoch_alts_count,
                isoch_alts,
            },
        ),
    )
}

/// Searches the first `cfg_total` bytes of a configuration descriptor for the stream that serves
/// the preferences best.
pub fn parse_uvc_video_stream(cfg: &[u8], cfg_total: usize, prefs: &UvcPrefs) -> (r: UsbResult<
    UvcStreamSelection,
>)
    requires
        cfg@.len() <= isize::MAX,
        !(stream_outcome(cfg@, cfg_total as int, *prefs) is BadRange),
    ensures
        search_returns(r, stream_outcome(cfg@, cfg_total as int, *prefs)),
{
    match try_parse_uvc_video_stream(cfg, cfg_total, prefs) {
        Some(r) => r,
        None => Err(UsbError::NotImplemented),
    }
}

// ---------------------------------------------------------------------------
// The setting for a negotiated payload
// ---------------------------------------------------------------------------
/// The better fit: the smaller packet, where both carry the payload; the earlier one wins a tie.
pub open spec fn tighter(best: Option<(u8, u16)>, e: (u8, u16), need: u32) -> Option<(u8, u16)> {
    if !single_transaction(e.1) || mps_of(e.1) < need {
        best
    } else {
        match best {
            None => Some(e),
            Some(b) => if mps_of(b.1) > mps_of(e.1) {
                Some(e)
            } else {
                Some(b)
            },
        }
    }
}

/// The greater packet; the earlier one wins a tie.
pub open spec fn wider(best: Option<(u8, u16)>, e: (u8, u16)) -> Option<(u8, u16)> {
    if !single_transaction(e.1) {
        best
    } else {
        match best {
            None => Some(e),
            Some(b) => if mps_of(b.1) < mps_of(e.1) {
                Some(e)
            } else {
                Some(b)
            },
        }
    }
}

/// The first of the smallest settings with one transaction in a microframe that carry `need`
/// bytes.
pub open spec fn best_fit(alts: Seq<(u8, u16)>, need: u32) -> Option<(u8, u16)>
    decreases alts.len(),
{
    if alts.len() == 0 {
        None
    } else {
        tighter(best_fit(alts.drop_last(), need), alts.last(), need)
    }
}

/// The first of the greatest settings with one transaction in a microframe.
pub open spec fn widest(alts: Seq<(u8, u16)>) -> Option<(u8, u16)>
    decreases alts.len(),
{
    if alts.len() == 0 {
        None
    } else {
        wider(widest(alts.drop_last()), alts.last())
    }
}

/// The selection after the payload was negotiated: the smallest setting that carries it, or the
/// greatest there is; nothing changes before the negotiation or without such a setting.
pub open spec fn reselected(s: SelectionView) -> SelectionView {
    if s.negotiated_payload_size == 0 {
        s
    } else {
        match (best_fit(s.alts, s.negotiated_payload_size), widest(s.alts)) {
            (Some(e), _) => SelectionView { alt_setting: e.0, mps_raw: e.1, ..s },
            (None, Some(e)) => SelectionView { alt_setting: e.0, mps_raw: e.1, ..s },
            (None, None) => s,
        }
    }
}

/// A fit carries the payload in one transaction and no setting that does is smaller; there is
/// none only where no setting carries it.
pub proof fn law_best_fit(alts: Seq<(u8, u16)>, need: u32)
    ensures
        match best_fit(alts, need) {
            Some(b) => {
                &&& alts.contains(b)
                &&& single_transaction(b.1)
                &&& mps_of(b.1) >= need
                &&& forall|k: int|
                    0 <= k < alts.len() && single_transaction(alts[k].1) && mps_of(alts[k].1)
                        >= need ==> mps_of(b.1) <= mps_of((#[trigger] alts[k]).1)
            },
            None => forall|k: int|
                0 <= k < alts.len() && single_transaction(alts[k].1) ==> mps_of(
                    (#[trigger] alts[k]).1,
                ) < need,
        },
    decreases alts.len(),
{
    if alts.len() > 0 {
        let rest = alts.drop_last();
        law_best_fit(rest, need);
        assert(forall|k: int| 0 <= k < rest.len() ==> rest[k] == alts[k]);
        match best_fit(rest, need) {
            Some(b) => {
                let k = choose|k: int| 0 <= k < rest.len() && rest[k] == b;
                assert(alts[k] == b);
            },
            None => {},
        }
        assert(alts[alts.len() - 1] == alts.last());
    }
}

/// The widest setting needs one transaction and no other such setting is wider; there is none
/// only where every setting needs more transactions.
pub proof fn law_widest(alts: Seq<(u8, u16)>)
    ensures
        match widest(alts) {
            Some(b) => {
                &&& alts.contains(b)
                &&& single_transaction(b.1)
                &&& forall|k: int|
                    0 <= k < alts.len() && single_transaction(alts[k].1) ==> mps_of(b.1)
                        >= mps_of((#[trigger] alts[k]).1)
            },
            None => forall|k: int|
                0 <= k < alts.len() ==> !single_transaction((#[trigger] alts[k]).1),
        },
    decreases alts.len(),
{
    if alts.len() > 0 {
        let rest = alts.drop_last();
        law_widest(rest);
        assert(forall|k: int| 0 <= k < rest.len() ==> rest[k] == alts[k]);
        match widest(rest) {
            Some(b) => {
                let k = choose|k: int| 0 <= k < rest.len() && rest[k] == b;
                assert(alts[k] == b);
            },
            None => {},
        }
        assert(alts[alts.len() - 1] == alts.last());
    }
}

impl UvcStreamSelection {
    /// Chooses the alternate setting for the negotiated payload.
    pub fn reselect_isoch_alt_for_payload(&mut self)
        requires
            old(self).wf(),
        ensures
            final(self).wf(),
            final(self)@ == reselected(old(self)@),
            final(self).isoch_alts == old(self).isoch_alts,
    {
        let need: u32 = self.negotiated_payload_size;
        if need == 0 {
            return;
        }
        let ghost alts = self@.alts;
        let ghost before = self@;
        let mut fit: Option<(u8, u16)> = None;
        let mut max: Option<(u8, u16)> = None;
        let mut k: usize = 0;
        let n: usize = self.isoch_alts_count as usize;
        assert(alts.take(0) =~= Seq::<(u8, u16)>::empty());
        while k < n
            invariant
                k <= n,
                n == self.isoch_alts_count,
                self.wf(),
                self@ == before,
                alts == self@.alts,
                fit == best_fit(alts.take(k as int), need),
                max == widest(alts.take(k as int)),
            decreases n - k,
        {
            let (alt, mps_raw) = self.isoch_alts[k];
            proof {
                assert(alts.take(k + 1).drop_last() =~= alts.take(k as int));
                assert(alts.take(k + 1).last() == (alt, mps_raw));
            }
            if is_single_transaction(mps_raw) {
                let total: u32 = wmax_mps(mps_raw);
                if total >= need {
                    fit =
                    match fit {
                        None => Some((alt, mps_raw)),
                        Some(b) => {
                            if wmax_mps(b.1) > total {
                                Some((alt, mps_raw))
                            } else {
                                Some(b)
                            }
                        },
                    };
                }
                max =
                match max {
                    None => Some((alt, mps_raw)),
                    Some(b) => {
                        if wmax_mps(b.1) < total {
                            Some((alt, mps_raw))
                        } else {
                            Some(b)
                        }
                    },
                };
            }
            k = k + 1;
        }
        assert(alts.take(k as int) =~= alts);
        match (fit, max) {
            (Some((alt, mps_raw)), _) => {
                self.alt_setting = alt;
                self.mps_raw = mps_raw;
            },
            (None, Some((alt, mps_raw))) => {
                self.alt_setting = alt;
                self.mps_raw = mps_raw;
            },
            (None, None) => {},
        }
    }
}

// ---------------------------------------------------------------------------
// Control entities
// ---------------------------------------------------------------------------
/// The entities of a camera that can be told what to do, with the controls that each has.
#[derive(Clone, Copy, Debug, PartialEq, Eq, Structural)]
pub struct UvcControlEntities {
    pub vc_interface: u8,
    pub camera_terminal_id: Option<u8>,
    /// One bit for each control of the camera terminal.
    pub ct_controls: u32,
    pub processing_unit_id: Option<u8>,
    /// One bit for each control of the processing unit.
    pub pu_controls: u32,
}

/// A camera without entities.
pub open spec fn no_entities() -> UvcControlEntities {
    UvcControlEntities {
        vc_interface: 0,
        camera_terminal_id: None,
        ct_controls: 0,
        processing_unit_id: None,
        pu_controls: 0,
    }
}

impl Default for UvcControlEntities {
    fn default() -> (e: UvcControlEntities)
        ensures
            e == no_entities(),
    {
        UvcControlEntities {
            vc_interface: 0,
            camera_terminal_id: None,
            ct_controls: 0,
            processing_unit_id: None,
            pu_controls: 0,
        }
    }
}

/// The first `n` bytes from `off` on, at most four, as a word with the low byte first.
pub open spec fn le_prefix(d: Seq<u8>, off: int, n: int) -> u32 {
    ((if n > 0 {
        d[off] as int
    } else {
        0
    }) + (if n > 1 {
        0x100 * d[off + 1]
    } else {
        0
    }) + (if n > 2 {
        0x1_0000 * d[off + 2]
    } else {
        0
    }) + (if n > 3 {
        0x100_0000 * d[off + 3]
    } else {
        0
    })) as u32
}

/// A control bitmap whose length is at `size_off` and whose bytes follow: as many as are
/// announced, present, and at most four.
pub open spec fn bitmap_at(d: Seq<u8>, size_off: int) -> u32 {
    let room = d.len() - (size_off + 1);
    let n = if d[size_off] < room {
        d[size_off] as int
    } else {
        room
    };
    le_prefix(d, size_off + 1, n)
}

/// What is known while the descriptors are scanned for entities.
#[derive(Clone, Copy, Debug, PartialEq, Eq, Structural)]
pub struct EntityScan {
    pub ifc_class: u8,
    pub ifc_sub: u8,
    pub found_vc: bool,
    pub out: UvcControlEntities,
}

/// A class-specific descriptor within a control interface.
pub open spec fn entity_described(d: Seq<u8>, e: UvcControlEntities) -> UvcControlEntities {
    if subtype_of(d) == VC_INPUT_TERMINAL && d.len() >= 15 {
        if le16_at(d, 4) == Some(ITT_CAMERA) {
            UvcControlEntities {
                camera_terminal_id: Some(d[3]),
                ct_controls: bitmap_at(d, 14),
                ..e
            }
        } else {
            e
        }
    } else if subtype_of(d) == VC_PROCESSING_UNIT && d.len() >= 9 {
        UvcControlEntities { processing_unit_id: Some(d[3]), pu_controls: bitmap_at(d, 7), ..e }
    } else {
        e
    }
}

/// What one descriptor adds.
pub open spec fn entity_step(d: Seq<u8>, s: EntityScan) -> EntityScan {
    if d[1] == USB_DT_INTERFACE && d.len() >= 9 {
        let t = EntityScan { ifc_class: d[5], ifc_sub: d[6], ..s };
        if d[5] == USB_CLASS_VIDEO && d[6] == USB_SUBCLASS_VIDEO_CONTROL {
            EntityScan {
                found_vc: true,
                out: UvcControlEntities { vc_interface: d[2], ..s.out },
                ..t
            }
        } else {
            t
        }
    } else if d[1] == CS_INTERFACE && s.ifc_class == USB_CLASS_VIDEO && s.ifc_sub
        == USB_SUBCLASS_VIDEO_CONTROL {
        EntityScan { out: entity_described(d, s.out), ..s }
    } else {
        s
    }
}

/// The scan for entities from position `i` on.
pub open spec fn entity_scan(b: Seq<u8>, i: int, end: int, s: EntityScan) -> EntityScan
    decreases end - i,
{
    if i + 2 <= end {
        match desc_at(b, i, end) {
            None => s,
            Some(d) => entity_scan(b, i + d.len(), end, entity_step(d, s)),
        }
    } else {
        s
    }
}

/// Before the first descriptor.
pub open spec fn entity_start() -> EntityScan {
    EntityScan { ifc_class: 0, ifc_sub: 0, found_vc: false, out: no_entities() }
}

/// The entities in the first `total` bytes of `b`; `None` without a control interface.
pub open spec fn entities_of(b: Seq<u8>, total: int) -> Option<UvcControlEntities> {
    let end = scan_end(b, total);
    if end < 12 || b[0] >= end {
        None
    } else {
        let s = entity_scan(b, b[0] as int, end, entity_start());
        if s.found_vc {
            Some(s.out)
        } else {
            None
        }
    }
}

/// Reads the control bitmap whose length is at `size_off`.
fn read_bitmap(d: Desc, size_off: usize) -> (r: u32)
    requires
        d.wf(),
        size_off < d@.len(),
        size_off <= 100,
    ensures
        r == bitmap_at(d@, size_off as int),
{
    let room: usize = d.len() - (size_off + 1);
    let size: usize = match d.u8(size_off) {
        Some(v) => v as usize,
        None => 0,
    };
    let n: usize = if size < room {
        size
    } else {
        room
    };
    let mut bm: u32 = 0;
    if n > 0 {
        if let Some(b) = d.u8(size_off + 1) {
            bm = b as u32;
        }
    }
    if n > 1 {
        if let Some(b) = d.u8(size_off + 2) {
            bm = bm + 0x100 * b as u32;
        }
    }
    if n > 2 {
        if let Some(b) = d.u8(size_off + 3) {
            bm = bm + 0x1_0000 * b as u32;
        }
    }
    if n > 3 {
        if let Some(b) = d.u8(size_off + 4) {
            bm = bm + 0x100_0000 * b as u32;
        }
    }
    bm
}

/// Takes a class-specific descriptor within a control interface into account.
fn describe_entity(d: Desc, e: UvcControlEntities) -> (r: UvcControlEntities)
    requires
        d.wf(),
    ensures
        r == entity_described(d@, e),
{
    let mut out = e;
    let st: u8 = match d.u8(2) {
        Some(v) => v,
        None => 0,
    };
    if st == VC_INPUT_TERMINAL && d.len() >= 15 {
        if let (Some(id), Some(tt)) = (d.u8(3), d.u16le(4)) {
            if tt == ITT_CAMERA {
                out.camera_terminal_id = Some(id);
                out.ct_controls = read_bitmap(d, 14);
            }
        }
    } else if st == VC_PROCESSING_UNIT && d.len() >= 9 {
        if let Some(id) = d.u8(3) {
            out.processing_unit_id = Some(id);
            out.pu_controls = read_bitmap(d, 7);
        }
    }
    out
}

/// Searches the first `cfg_total` bytes of a configuration descriptor for the camera terminal and
/// the processing unit.
pub fn parse_uvc_control_entities(cfg: &[u8], cfg_total: usize) -> (r: Option<UvcControlEntities>)
    requires
        cfg@.len() <= isize::MAX,
    ensures
        r == entities_of(cfg@, cfg_total as int),
{
    let len: usize = if cfg_total < cfg.len() {
        cfg_total
    } else {
        cfg.len()
    };
    if len < 12 {
        return None;
    }
    let mut i: usize = cfg[0] as usize;
    if i >= len {
        return None;
    }
    let mut st = EntityScan {
        ifc_class: 0,
        ifc_sub: 0,
        found_vc: false,
        out: UvcControlEntities::default(),
    };
    let ghost whole = entity_scan(cfg@, i as int, len as int, entity_start());
    let mut more: bool = true;
    while more && i + 2 <= len
        invariant
            len <= cfg@.len() <= isize::MAX,
            i <= isize::MAX,
            more ==> entity_scan(cfg@, i as int, len as int, st) == whole,
            !more ==> whole == st,
        decreases
                len + 300 - i,
                (if more {
                    1int
                } else {
                    0
                }),
    {
        match Desc::new(cfg, i, len) {
            None => {
                more = false;
            },
            Some(d) => {
                let ghost before = st;
                let ty: u8 = d.ty();
                if ty == USB_DT_INTERFACE && d.len() >= 9 {
                    if let (Some(num), Some(class), Some(sub)) = (d.u8(2), d.u8(5), d.u8(6)) {
                        st.ifc_class = class;
                        st.ifc_sub = sub;
                        if class == USB_CLASS_VIDEO && sub == USB_SUBCLASS_VIDEO_CONTROL {
                            st.out.vc_interface = num;
                            st.found_vc = true;
                        }
                    }
                } else if ty == CS_INTERFACE && st.ifc_class == USB_CLASS_VIDEO && st.ifc_sub
                    == USB_SUBCLASS_VIDEO_CONTROL {
                    st.out = describe_entity(d, st.out);
                }
                assert(st == entity_step(d@, before));
                i = i + d.len();
            },
        }
    }
    if st.found_vc {
        Some(st.out)
    } else {
        None
    }
}

} // verus!
