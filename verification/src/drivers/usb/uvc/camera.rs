//! Configurations as cameras send them, and what is found in them.
//!
//! A configuration is a head and descriptors behind it, each as long as its first byte says. The
//! functions below write descriptors down byte by byte; the laws say what the search for a stream
//! and for control entities makes of them.

use crate::drivers::usb::device::is_descriptor;
use crate::drivers::usb::dwc2::isoch::mps_of;
use crate::drivers::usb::uvc::descriptor::{
    alts_of, better_frame, bitmap_at, considered, desc_at, distance, entities_of, entity_scan,
    entity_start, entity_step, frame_of, interval_candidates, law_nearest, le16_at, le32_at,
    least_positive, listed_intervals, nearest, range_max, range_min, rank, scan, scan_start,
    scan_step, selected, stream_outcome, uvc_ticks, EntityScan, FramePick, IsochAlt, IsochView,
    ScanView, StreamOutcome, UvcControlEntities, UvcPrefs, ERR_CFG_LENGTH, ERR_CFG_SHORT,
    ERR_NO_FRAME,
};
use crate::error::UsbError;
use crate::pieces::{joined, lemma_joined_first};
use vstd::prelude::*;

verus! {

/// A number in two bytes, the low one first.
pub open spec fn le2(n: u16) -> Seq<u8> {
    seq![(n % 256) as u8, (n / 256) as u8]
}

/// A number in four bytes, the low one first.
pub open spec fn le4(n: u32) -> Seq<u8> {
    seq![
        (n % 256) as u8,
        (n / 256 % 256) as u8,
        (n / 65536 % 256) as u8,
        (n / 16777216) as u8,
    ]
}

/// Numbers in four bytes each.
pub open spec fn le4s(ns: Seq<u32>) -> Seq<u8> {
    Seq::new(4 * ns.len(), |j: int| le4(ns[j / 4])[j % 4])
}

/// An interface descriptor.
pub open spec fn interface_descriptor(
    number: u8,
    alt: u8,
    class: u8,
    subclass: u8,
    endpoints: u8,
    protocol: u8,
    name: u8,
) -> Seq<u8> {
    seq![9u8, 4, number, alt, endpoints, class, subclass, protocol, name]
}

/// A format descriptor, MJPEG or uncompressed.
pub open spec fn format_descriptor(mjpeg: bool, index: u8, rest: Seq<u8>) -> Seq<u8> {
    seq![
        (4 + rest.len()) as u8,
        0x24,
        if mjpeg {
            0x06
        } else {
            0x04
        },
        index,
    ] + rest
}

/// A frame descriptor, MJPEG or uncompressed; `kind` and `tail` give the intervals.
pub open spec fn frame_descriptor(
    mjpeg: bool,
    index: u8,
    capabilities: u8,
    w: u16,
    h: u16,
    rates: Seq<u8>,
    default: u32,
    kind: u8,
    tail: Seq<u8>,
) -> Seq<u8> {
    seq![
        (26 + tail.len()) as u8,
        0x24,
        if mjpeg {
            0x07
        } else {
            0x05
        },
        index,
        capabilities,
    ] + le2(w) + le2(h) + rates + le4(default) + seq![kind] + tail
}

/// An endpoint descriptor.
pub open spec fn endpoint_descriptor(address: u8, attributes: u8, mps: u16, interval: u8) -> Seq<
    u8,
> {
    seq![7u8, 5, address, attributes] + le2(mps) + seq![interval]
}

/// An input terminal descriptor with a bitmap of controls.
pub open spec fn terminal_descriptor(id: u8, kind: u16, fixed: Seq<u8>, bitmap: Seq<u8>) -> Seq<
    u8,
> {
    seq![(15 + bitmap.len()) as u8, 0x24, 0x02, id] + le2(kind) + fixed + seq![bitmap.len() as u8]
        + bitmap
}

/// A processing unit descriptor with a bitmap of controls.
pub open spec fn unit_descriptor(id: u8, source: u8, multiplier: u16, bitmap: Seq<u8>, name: u8) -> Seq<
    u8,
> {
    seq![(9 + bitmap.len()) as u8, 0x24, 0x05, id, source] + le2(multiplier) + seq![
        bitmap.len() as u8,
    ] + bitmap + seq![name]
}

/// The number that bytes stand for, the low one first.
pub open spec fn number_of(bytes: Seq<u8>) -> int
    decreases bytes.len(),
{
    if bytes.len() == 0 {
        0
    } else {
        bytes[0] + 256 * number_of(bytes.drop_first())
    }
}

// ---------------------------------------------------------------------------
// From descriptor to descriptor
// ---------------------------------------------------------------------------
/// What descriptors add, one after the other.
pub open spec fn scan_all(ds: Seq<Seq<u8>>, s: ScanView, prefs: UvcPrefs) -> Option<ScanView>
    decreases ds.len(),
{
    if ds.len() == 0 {
        Some(s)
    } else {
        match scan_step(ds[0], s, prefs) {
            None => None,
            Some(t) => scan_all(ds.drop_first(), t, prefs),
        }
    }
}

/// What descriptors add to the entities, one after the other.
pub open spec fn entities_all(ds: Seq<Seq<u8>>, s: EntityScan) -> EntityScan
    decreases ds.len(),
{
    if ds.len() == 0 {
        s
    } else {
        entities_all(ds.drop_first(), entity_step(ds[0], s))
    }
}

/// The scan goes from each descriptor to the next, however long each is.
proof fn lemma_scan_all(
    front: Seq<u8>,
    ds: Seq<Seq<u8>>,
    rest: Seq<u8>,
    s: ScanView,
    e: EntityScan,
    prefs: UvcPrefs,
)
    requires
        forall|k: int| 0 <= k < ds.len() ==> is_descriptor(#[trigger] ds[k]),
    ensures
        ({
            let b = front + joined(ds) + rest;
            let end = (front + joined(ds)).len() as int;
            &&& scan(b, front.len() as int, end, s, prefs) == scan_all(ds, s, prefs)
            &&& entity_scan(b, front.len() as int, end, e) == entities_all(ds, e)
        }),
    decreases ds.len(),
{
    let b = front + joined(ds) + rest;
    let end = (front + joined(ds)).len() as int;
    let i = front.len() as int;
    if ds.len() > 0 {
        let d = ds[0];
        let tail = ds.drop_first();
        lemma_joined_first(ds);
        assert(is_descriptor(d));
        assert forall|k: int| 0 <= k < tail.len() implies is_descriptor(#[trigger] tail[k]) by {
            assert(tail[k] == ds[k + 1]);
        }
        assert(b =~= (front + d) + joined(tail) + rest);
        assert(front + joined(ds) =~= (front + d) + joined(tail));
        assert(b[i] == d[0]);
        assert(b.subrange(i, i + d.len()) =~= d);
        assert(desc_at(b, i, end) == Some(d));
        let t = match scan_step(d, s, prefs) {
            Some(t) => t,
            None => s,
        };
        lemma_scan_all(front + d, tail, rest, t, entity_step(d, e), prefs);
    }
}

/// A configuration in bytes: its head, the descriptors, and whatever lies behind them.
pub open spec fn configuration(head: Seq<u8>, ds: Seq<Seq<u8>>, rest: Seq<u8>) -> Seq<u8> {
    head + joined(ds) + rest
}

/// The stream is searched for in every descriptor of a configuration, from each to the next,
/// however long each is, and not in what lies behind the configuration; so are the entities.
pub proof fn law_every_descriptor_is_looked_at(
    head: Seq<u8>,
    ds: Seq<Seq<u8>>,
    rest: Seq<u8>,
    prefs: UvcPrefs,
)
    requires
        is_descriptor(head),
        ds.len() > 0,
        forall|k: int| 0 <= k < ds.len() ==> is_descriptor(#[trigger] ds[k]),
        (head + joined(ds)).len() >= 12,
    ensures
        ({
            let b = configuration(head, ds, rest);
            let n = (head + joined(ds)).len() as int;
            let e = entities_all(ds, entity_start());
            &&& stream_outcome(b, n, prefs) == (match scan_all(ds, scan_start(), prefs) {
                None => StreamOutcome::BadRange,
                Some(s) => selected(s),
            })
            &&& entities_of(b, n) == (if e.found_vc {
                Some(e.out)
            } else {
                None
            })
        }),
{
    let b = configuration(head, ds, rest);
    let n = (head + joined(ds)).len() as int;
    lemma_scan_all(head, ds, rest, scan_start(), entity_start(), prefs);
    lemma_joined_first(ds);
    assert(is_descriptor(ds[0]));
    assert(b[0] == head[0]);
    assert(b[0] < n);
}

// ---------------------------------------------------------------------------
// What each descriptor adds
// ---------------------------------------------------------------------------
/// An interface descriptor says which interface and setting the descriptors behind it belong to,
/// and changes nothing else.
pub proof fn law_interface_descriptor(
    number: u8,
    alt: u8,
    class: u8,
    subclass: u8,
    endpoints: u8,
    protocol: u8,
    name: u8,
    s: ScanView,
    prefs: UvcPrefs,
)
    ensures
        ({
            let d = interface_descriptor(number, alt, class, subclass, endpoints, protocol, name);
            &&& is_descriptor(d)
            &&& scan_step(d, s, prefs) == Some(
                ScanView { ifc_num: number, alt, ifc_class: class, ifc_sub: subclass, ..s },
            )
        }),
{
}

/// Within a streaming interface, of class 14 and subclass 2, an isochronous endpoint towards the
/// host is a candidate, with the interface and setting that it stands in; no other endpoint is,
/// and none within another interface.
pub proof fn law_endpoint_descriptor(
    address: u8,
    attributes: u8,
    mps: u16,
    interval: u8,
    s: ScanView,
    prefs: UvcPrefs,
)
    ensures
        ({
            let d = endpoint_descriptor(address, attributes, mps, interval);
            &&& is_descriptor(d)
            &&& scan_step(d, s, prefs) == Some(
                if s.ifc_class == 14 && s.ifc_sub == 2 && address >= 0x80 && attributes % 4 == 1 {
                    ScanView {
                        isoch: considered(
                            s.isoch,
                            IsochAlt {
                                alt: s.alt,
                                ep_num: address % 16,
                                mps_raw: mps,
                                interface: s.ifc_num,
                            },
                        ),
                        ..s
                    }
                } else {
                    s
                },
            )
        }),
{
}

/// Within a streaming interface a format descriptor gives the frames behind it their format.
pub proof fn law_format_descriptor(
    mjpeg: bool,
    index: u8,
    rest: Seq<u8>,
    s: ScanView,
    prefs: UvcPrefs,
)
    requires
        rest.len() <= 251,
    ensures
        ({
            let d = format_descriptor(mjpeg, index, rest);
            &&& is_descriptor(d)
            &&& scan_step(d, s, prefs) == Some(
                if s.ifc_class == 14 && s.ifc_sub == 2 {
                    ScanView { fmt_ix: index, ..s }
                } else {
                    s
                },
            )
        }),
{
}

/// Descriptors of other types are passed over.
pub proof fn law_other_descriptor(d: Seq<u8>, s: ScanView, e: EntityScan, prefs: UvcPrefs)
    requires
        is_descriptor(d),
        d[1] != 4 && d[1] != 5 && d[1] != 0x24,
    ensures
        scan_step(d, s, prefs) == Some(s),
        entity_step(d, e) == e,
{
}

/// The candidates after an endpoint: the first eight are kept in their order, and the best is the
/// one that carries most in a microframe, the earlier one where two carry the same.
pub proof fn law_candidates(c: IsochView, e: IsochAlt)
    ensures
        c.alts.len() < 8 ==> considered(c, e).alts == c.alts.push(e),
        c.alts.len() >= 8 ==> considered(c, e).alts == c.alts,
        c.best is None ==> considered(c, e).best == Some(e),
        c.best matches Some(b) ==> considered(c, e).best == Some(
            if mps_of(e.mps_raw) > mps_of(b.mps_raw) {
                e
            } else {
                b
            },
        ),
{
}

proof fn lemma_le4(n: u32)
    ensures
        le4(n)[0] + 0x100 * le4(n)[1] + 0x1_0000 * le4(n)[2] + 0x100_0000 * le4(n)[3] == n,
{
}

/// The fixed fields of a frame descriptor.
proof fn lemma_frame_fields(
    mjpeg: bool,
    index: u8,
    capabilities: u8,
    w: u16,
    h: u16,
    rates: Seq<u8>,
    default: u32,
    kind: u8,
    tail: Seq<u8>,
)
    requires
        rates.len() == 12,
        tail.len() <= 229,
    ensures
        ({
            let d = frame_descriptor(
                mjpeg,
                index,
                capabilities,
                w,
                h,
                rates,
                default,
                kind,
                tail,
            );
            &&& is_descriptor(d)
            &&& d.len() == 26 + tail.len()
            &&& d[1] == 0x24
            &&& d[2] == (if mjpeg {
                7
            } else {
                5u8
            })
            &&& d[3] == index
            &&& le16_at(d, 5) == Some(w)
            &&& le16_at(d, 7) == Some(h)
            &&& le32_at(d, 21) == Some(default)
            &&& d[25] == kind
            &&& forall|j: int| 0 <= j < tail.len() ==> #[trigger] d[26 + j] == tail[j]
        }),
{
    let d = frame_descriptor(mjpeg, index, capabilities, w, h, rates, default, kind, tail);
    lemma_le4(default);
    assert(d[5] == le2(w)[0] && d[6] == le2(w)[1] && d[7] == le2(h)[0] && d[8] == le2(h)[1]);
    assert(d[21] == le4(default)[0] && d[22] == le4(default)[1] && d[23] == le4(default)[2] && d[24]
        == le4(default)[3]);
}

/// Within a streaming interface a frame descriptor offers a frame: of the format that was named
/// last, with its own number and size. It is held against the best frame of its kind.
pub proof fn law_frame_descriptor(
    mjpeg: bool,
    index: u8,
    capabilities: u8,
    w: u16,
    h: u16,
    rates: Seq<u8>,
    default: u32,
    offers: Seq<u32>,
    s: ScanView,
    prefs: UvcPrefs,
)
    requires
        rates.len() == 12,
        1 <= offers.len() <= 57,
        s.ifc_class == 14,
        s.ifc_sub == 2,
    ensures
        ({
            let d = frame_descriptor(
                mjpeg,
                index,
                capabilities,
                w,
                h,
                rates,
                default,
                offers.len() as u8,
                le4s(offers),
            );
            &&& is_descriptor(d)
            &&& scan_step(d, s, prefs) matches Some(t) && exists|p: FramePick|
                #![trigger better_frame(s.mjpeg, p, prefs)]
                #![trigger better_frame(s.uncomp, p, prefs)]
                {
                    &&& p.fmt_ix == s.fmt_ix && p.frame_ix == index && p.w == w && p.h == h
                    &&& p.is_mjpeg == mjpeg
                    &&& p.ival == default || offers.contains(p.ival)
                    &&& t == (if mjpeg {
                        ScanView { mjpeg: better_frame(s.mjpeg, p, prefs), ..s }
                    } else {
                        ScanView { uncomp: better_frame(s.uncomp, p, prefs), ..s }
                    })
                }
        }),
{
    let tail = le4s(offers);
    let kind = offers.len() as u8;
    let d = frame_descriptor(mjpeg, index, capabilities, w, h, rates, default, kind, tail);
    lemma_frame_fields(mjpeg, index, capabilities, w, h, rates, default, kind, tail);
    let ticks = uvc_ticks(prefs.frame_interval as int);
    let p = frame_of(d, d[2], s.fmt_ix, ticks)->0;
    law_listed_interval(mjpeg, index, capabilities, w, h, rates, default, offers, ticks, s.fmt_ix);
    assert(better_frame(s.mjpeg, p, prefs) == better_frame(s.mjpeg, p, prefs));
    assert(better_frame(s.uncomp, p, prefs) == better_frame(s.uncomp, p, prefs));
}

/// The intervals that a frame descriptor lists are those that were written.
proof fn lemma_listed(d: Seq<u8>, offers: Seq<u32>)
    requires
        d.len() == 26 + 4 * offers.len(),
        forall|j: int| 0 <= j < 4 * offers.len() ==> #[trigger] d[26 + j] == le4s(offers)[j],
    ensures
        listed_intervals(d, offers.len() as int) == offers,
{
    assert forall|k: int| 0 <= k < offers.len() implies #[trigger] listed_intervals(
        d,
        offers.len() as int,
    )[k] == offers[k] by {
        lemma_le4(offers[k]);
        assert(d[26 + 4 * k] == le4s(offers)[4 * k]);
        assert(d[26 + (4 * k + 1)] == le4s(offers)[4 * k + 1]);
        assert(d[26 + (4 * k + 2)] == le4s(offers)[4 * k + 2]);
        assert(d[26 + (4 * k + 3)] == le4s(offers)[4 * k + 3]);
    }
    assert(listed_intervals(d, offers.len() as int) =~= offers);
}

/// The interval of a frame whose descriptor lists some. Where one is wanted, it is the one
/// nearest to it among those listed and the default, 0 being none; where none is wanted, it is
/// the shortest.
pub proof fn law_listed_interval(
    mjpeg: bool,
    index: u8,
    capabilities: u8,
    w: u16,
    h: u16,
    rates: Seq<u8>,
    default: u32,
    offers: Seq<u32>,
    wanted: u32,
    format: u8,
)
    requires
        rates.len() == 12,
        1 <= offers.len() <= 57,
    ensures
        ({
            let d = frame_descriptor(
                mjpeg,
                index,
                capabilities,
                w,
                h,
                rates,
                default,
                offers.len() as u8,
                le4s(offers),
            );
            &&& frame_of(d, d[2], format, wanted) matches Some(p) && {
                &&& p.ival == default || offers.contains(p.ival)
                &&& wanted > 0 ==> forall|k: int|
                    0 <= k < offers.len() && offers[k] > 0 ==> p.ival > 0 && distance(p.ival, wanted)
                        <= distance(#[trigger] offers[k], wanted)
                &&& wanted > 0 && default > 0 ==> p.ival > 0 && distance(p.ival, wanted) <= distance(
                    default,
                    wanted,
                )
                &&& wanted == 0 && default > 0 ==> 0 < p.ival <= default && forall|k: int|
                    0 <= k < offers.len() && offers[k] > 0 ==> p.ival <= #[trigger] offers[k]
            }
        }),
{
    let tail = le4s(offers);
    let kind = offers.len() as u8;
    let d = frame_descriptor(mjpeg, index, capabilities, w, h, rates, default, kind, tail);
    lemma_frame_fields(mjpeg, index, capabilities, w, h, rates, default, kind, tail);
    lemma_listed(d, offers);
    let cands = interval_candidates(d, default, kind, wanted);
    assert(cands == offers.push(default));
    law_nearest(cands, wanted);
    assert(cands[offers.len() as int] == default);
    assert(forall|k: int| 0 <= k < offers.len() ==> cands[k] == offers[k]);
    lemma_least(offers, default);
    if let Some(b) = nearest(cands, wanted) {
        let k = choose|k: int| 0 <= k < cands.len() && cands[k] == b;
        assert(b == default || offers.contains(b)) by {
            if k < offers.len() {
                assert(offers[k] == b);
            }
        }
    }
}

/// The least of the positive numbers is one of them, or what they were held against.
proof fn lemma_least(vals: Seq<u32>, start: u32)
    ensures
        ({
            let m = least_positive(vals, start);
            &&& m <= start
            &&& m == start || (vals.contains(m) && m > 0)
            &&& forall|k: int| 0 <= k < vals.len() && vals[k] > 0 ==> m <= #[trigger] vals[k]
        }),
    decreases vals.len(),
{
    if vals.len() > 0 {
        let rest = vals.drop_last();
        lemma_least(rest, start);
        let m = least_positive(rest, start);
        assert(forall|k: int| 0 <= k < rest.len() ==> rest[k] == vals[k]);
        if rest.contains(m) {
            let k = choose|k: int| 0 <= k < rest.len() && rest[k] == m;
            assert(vals[k] == m);
        }
        assert(vals[vals.len() - 1] == vals.last());
    }
}

/// The interval of a frame whose descriptor gives a range. Where one is wanted, it is the nearest
/// point of the range, unless the default is nearer; where none is wanted, it is the low end.
pub proof fn law_ranged_interval(
    mjpeg: bool,
    index: u8,
    capabilities: u8,
    w: u16,
    h: u16,
    rates: Seq<u8>,
    default: u32,
    lo: u32,
    hi: u32,
    step: u32,
    wanted: u32,
    format: u8,
)
    requires
        rates.len() == 12,
        0 < lo <= hi,
    ensures
        ({
            let d = frame_descriptor(
                mjpeg,
                index,
                capabilities,
                w,
                h,
                rates,
                default,
                0,
                le4(lo) + le4(hi) + le4(step),
            );
            &&& frame_of(d, d[2], format, wanted) matches Some(p) && {
                &&& wanted == 0 ==> p.ival == lo
                &&& wanted > 0 ==> p.ival == default || lo <= p.ival <= hi
                &&& wanted > 0 ==> forall|v: u32|
                    lo <= v <= hi ==> distance(p.ival, wanted) <= #[trigger] distance(v, wanted)
                &&& lo <= wanted <= hi ==> p.ival == wanted
            }
        }),
{
    let tail = le4(lo) + le4(hi) + le4(step);
    let d = frame_descriptor(mjpeg, index, capabilities, w, h, rates, default, 0, tail);
    lemma_frame_fields(mjpeg, index, capabilities, w, h, rates, default, 0, tail);
    lemma_le4(lo);
    lemma_le4(hi);
    assert(d[26] == tail[0] && d[27] == tail[1] && d[28] == tail[2] && d[29]
        == tail[3]);
    assert(d[30] == tail[4] && d[31] == tail[5] && d[32] == tail[6] && d[33]
        == tail[7]);
    assert(range_min(d) == lo && range_max(d) == hi);
    let cands = interval_candidates(d, default, 0, wanted);
    law_nearest(cands, wanted);
    if wanted > 0 {
        assert(cands[0] > 0);
        if let Some(b) = nearest(cands, wanted) {
            let k = choose|k: int| 0 <= k < cands.len() && cands[k] == b;
            assert(distance(b, wanted) <= distance(cands[0], wanted));
        }
    }
}

/// Of two frames the later one is kept only where it serves the preferences better.
pub proof fn law_better_frame(best: Option<FramePick>, p: FramePick, prefs: UvcPrefs)
    ensures
        better_frame(best, p, prefs) == Some(
            match best {
                None => p,
                Some(b) => if rank(p, prefs) > rank(b, prefs) {
                    p
                } else {
                    b
                },
            },
        ),
{
}

/// The settings that carry the chosen endpoint, in their order.
pub proof fn law_settings_of_the_endpoint(alts: Seq<IsochAlt>, ep: u8)
    ensures
        alts_of(alts, ep) == alts.filter(|e: IsochAlt| e.ep_num == ep).map_values(
            |e: IsochAlt| (e.alt, e.mps_raw),
        ),
    decreases alts.len(),
{
    reveal(Seq::filter);
    let carries = |e: IsochAlt| e.ep_num == ep;
    let pair = |e: IsochAlt| (e.alt, e.mps_raw);
    if alts.len() > 0 {
        law_settings_of_the_endpoint(alts.drop_last(), ep);
        let rest = alts.drop_last().filter(carries);
        assert(rest.push(alts.last()).map_values(pair) =~= rest.map_values(pair).push(
            pair(alts.last()),
        ));
    } else {
        assert(alts_of(alts, ep) =~= alts.filter(carries).map_values(pair));
    }
}

/// What is selected: the best endpoint with all settings that carry it, and the best MJPEG frame
/// or, where there is none, the best uncompressed one, its interval in nanoseconds. Without an
/// endpoint or without a frame there is nothing to select.
pub proof fn law_selection(s: ScanView)
    ensures
        s.isoch.best is None ==> selected(s) == StreamOutcome::Fail(UsbError::NotImplemented),
        s.isoch.best is Some && s.mjpeg is None && s.uncomp is None ==> selected(s)
            == StreamOutcome::Fail(UsbError::Protocol(ERR_NO_FRAME)),
        s.isoch.best is Some && (s.mjpeg is Some || s.uncomp is Some) ==> (selected(
            s,
        ) matches StreamOutcome::Selected(v) && {
            let e = s.isoch.best->0;
            let p = if s.mjpeg is Some {
                s.mjpeg->0
            } else {
                s.uncomp->0
            };
            &&& v.vs_interface == e.interface && v.alt_setting == e.alt && v.ep_num == e.ep_num
            &&& v.mps_raw == e.mps_raw && v.negotiated_payload_size == 0
            &&& v.format_index == p.fmt_ix && v.frame_index == p.frame_ix
            &&& v.frame_w == p.w && v.frame_h == p.h && v.is_mjpeg == p.is_mjpeg
            &&& v.frame_interval == 100 * p.ival
            &&& v.alts == alts_of(s.isoch.alts, e.ep_num)
        }),
{
}

// ---------------------------------------------------------------------------
// Entities
// ---------------------------------------------------------------------------
/// A control interface, of class 14 and subclass 1, is remembered by its number.
pub proof fn law_control_interface(
    number: u8,
    alt: u8,
    class: u8,
    subclass: u8,
    endpoints: u8,
    protocol: u8,
    name: u8,
    e: EntityScan,
)
    ensures
        ({
            let d = interface_descriptor(number, alt, class, subclass, endpoints, protocol, name);
            let t = entity_step(d, e);
            &&& t.ifc_class == class && t.ifc_sub == subclass
            &&& class == 14 && subclass == 1 ==> t.found_vc && t.out == (UvcControlEntities {
                vc_interface: number,
                ..e.out
            })
            &&& !(class == 14 && subclass == 1) ==> t.found_vc == e.found_vc && t.out == e.out
        }),
{
}

/// The number of up to four bytes.
proof fn lemma_number(bytes: Seq<u8>)
    requires
        bytes.len() <= 4,
    ensures
        number_of(bytes) == (if bytes.len() > 0 {
            bytes[0] as int
        } else {
            0
        }) + (if bytes.len() > 1 {
            0x100 * bytes[1]
        } else {
            0
        }) + (if bytes.len() > 2 {
            0x1_0000 * bytes[2]
        } else {
            0
        }) + (if bytes.len() > 3 {
            0x100_0000 * bytes[3]
        } else {
            0
        }),
{
    let b1 = bytes.drop_first();
    let b2 = b1.drop_first();
    let b3 = b2.drop_first();
    if bytes.len() == 0 {
    } else if bytes.len() == 1 {
        assert(number_of(b1) == 0);
    } else if bytes.len() == 2 {
        assert(number_of(b2) == 0);
        assert(b1[0] == bytes[1]);
        assert(number_of(b1) == b1[0] + 256 * number_of(b2));
    } else if bytes.len() == 3 {
        assert(number_of(b3) == 0);
        assert(b1[0] == bytes[1] && b2[0] == bytes[2]);
        assert(number_of(b2) == b2[0] + 256 * number_of(b3));
        assert(number_of(b1) == b1[0] + 256 * number_of(b2));
    } else {
        let b4 = b3.drop_first();
        assert(number_of(b4) == 0);
        assert(b1[0] == bytes[1] && b2[0] == bytes[2] && b3[0] == bytes[3]);
        assert(number_of(b3) == b3[0] + 256 * number_of(b4));
        assert(number_of(b2) == b2[0] + 256 * number_of(b3));
        assert(number_of(b1) == b1[0] + 256 * number_of(b2));
    }
}

/// Within a control interface an input terminal of type 0201 is the camera terminal, with the
/// controls of its bitmap; a terminal of another type is passed over.
pub proof fn law_camera_terminal(
    id: u8,
    kind: u16,
    fixed: Seq<u8>,
    bitmap: Seq<u8>,
    e: EntityScan,
)
    requires
        fixed.len() == 8,
        bitmap.len() <= 4,
    ensures
        ({
            let d = terminal_descriptor(id, kind, fixed, bitmap);
            &&& is_descriptor(d)
            &&& entity_step(d, e) == (if e.ifc_class == 14 && e.ifc_sub == 1 && kind == 0x0201 {
                EntityScan {
                    out: UvcControlEntities {
                        camera_terminal_id: Some(id),
                        ct_controls: number_of(bitmap) as u32,
                        ..e.out
                    },
                    ..e
                }
            } else {
                e
            })
        }),
{
    let d = terminal_descriptor(id, kind, fixed, bitmap);
    lemma_number(bitmap);
    assert(d[4] == le2(kind)[0] && d[5] == le2(kind)[1]);
    assert(d[14] == bitmap.len());
    assert(forall|j: int| 0 <= j < bitmap.len() ==> d[15 + j] == bitmap[j]);
    assert(bitmap.len() > 0 ==> d[15] == bitmap[0]);
    assert(bitmap.len() > 1 ==> d[16] == bitmap[1]);
    assert(bitmap.len() > 2 ==> d[17] == bitmap[2]);
    assert(bitmap.len() > 3 ==> d[18] == bitmap[3]);
    assert(bitmap_at(d, 14) == number_of(bitmap));
}

/// Within a control interface a processing unit is remembered, with the controls of its bitmap.
pub proof fn law_processing_unit(
    id: u8,
    source: u8,
    multiplier: u16,
    bitmap: Seq<u8>,
    name: u8,
    e: EntityScan,
)
    requires
        bitmap.len() <= 4,
    ensures
        ({
            let d = unit_descriptor(id, source, multiplier, bitmap, name);
            &&& is_descriptor(d)
            &&& entity_step(d, e) == (if e.ifc_class == 14 && e.ifc_sub == 1 {
                EntityScan {
                    out: UvcControlEntities {
                        processing_unit_id: Some(id),
                        pu_controls: number_of(bitmap) as u32,
                        ..e.out
                    },
                    ..e
                }
            } else {
                e
            })
        }),
{
    let d = unit_descriptor(id, source, multiplier, bitmap, name);
    lemma_number(bitmap);
    assert(d[7] == bitmap.len());
    assert(bitmap.len() > 0 ==> d[8] == bitmap[0]);
    assert(bitmap.len() > 1 ==> d[9] == bitmap[1]);
    assert(bitmap.len() > 2 ==> d[10] == bitmap[2]);
    assert(bitmap.len() > 3 ==> d[11] == bitmap[3]);
    assert(bitmap_at(d, 7) == number_of(bitmap));
}

// ---------------------------------------------------------------------------
// What is not a descriptor
// ---------------------------------------------------------------------------
/// A descriptor that says it is shorter than two bytes, or longer than what is left, ends the
/// search with what was found before it.
pub proof fn law_bad_length_ends_the_search(
    b: Seq<u8>,
    i: int,
    end: int,
    s: ScanView,
    e: EntityScan,
    prefs: UvcPrefs,
)
    requires
        0 <= i,
        i + 2 <= end <= b.len(),
        b[i] < 2 || i + b[i] > end,
    ensures
        scan(b, i, end, s, prefs) == Some(s),
        entity_scan(b, i, end, e) == e,
{
}

/// A configuration of fewer than twelve bytes, or without anything behind its head, has no stream
/// and no entities.
pub proof fn law_short_configurations(b: Seq<u8>, total: int, prefs: UvcPrefs)
    requires
        0 <= total <= b.len(),
    ensures
        total < 12 ==> stream_outcome(b, total, prefs) == StreamOutcome::Fail(
            UsbError::Protocol(ERR_CFG_SHORT),
        ) && entities_of(b, total) is None,
        total >= 12 && b[0] >= total ==> stream_outcome(b, total, prefs) == StreamOutcome::Fail(
            UsbError::Protocol(ERR_CFG_LENGTH),
        ) && entities_of(b, total) is None,
{
}

/// Descriptors that are too short for what they should hold are passed over: interfaces of fewer
/// than nine bytes, endpoints of fewer than six, frames of fewer than 26, terminals of fewer than
/// 15 and units of fewer than nine.
pub proof fn law_short_descriptors(d: Seq<u8>, s: ScanView, e: EntityScan, prefs: UvcPrefs)
    requires
        is_descriptor(d),
    ensures
        d[1] == 4 && d.len() < 9 ==> scan_step(d, s, prefs) == Some(s) && entity_step(d, e) == e,
        d[1] == 5 && d.len() < 6 ==> scan_step(d, s, prefs) == Some(s),
        d[1] == 0x24 && d.len() < 26 && d.len() > 2 && (d[2] == 5 || d[2] == 7) ==> scan_step(
            d,
            s,
            prefs,
        ) == Some(s),
        d[1] == 0x24 && d.len() == 2 ==> scan_step(d, s, prefs) == Some(s) && entity_step(d, e) == e,
        d[1] == 0x24 && d.len() < 15 && d.len() > 2 && d[2] == 2 ==> entity_step(d, e) == e,
        d[1] == 0x24 && d.len() < 9 && d.len() > 2 && d[2] == 5 ==> entity_step(d, e) == e,
{
    assert((ScanView { fmt_ix: s.fmt_ix, ..s }) =~= s);
}

/// A frame whose range of intervals runs from high to low makes the search fail where an interval
/// is wanted.
pub proof fn law_range_upside_down(
    mjpeg: bool,
    index: u8,
    capabilities: u8,
    w: u16,
    h: u16,
    rates: Seq<u8>,
    default: u32,
    lo: u32,
    hi: u32,
    step: u32,
    s: ScanView,
    prefs: UvcPrefs,
)
    requires
        rates.len() == 12,
        0 < hi < lo,
        s.ifc_class == 14,
        s.ifc_sub == 2,
        100 <= prefs.frame_interval < 0x1_0000_0000 * 100,
    ensures
        scan_step(
            frame_descriptor(
                mjpeg,
                index,
                capabilities,
                w,
                h,
                rates,
                default,
                0,
                le4(lo) + le4(hi) + le4(step),
            ),
            s,
            prefs,
        ) is None,
{
    let tail = le4(lo) + le4(hi) + le4(step);
    let d = frame_descriptor(mjpeg, index, capabilities, w, h, rates, default, 0, tail);
    lemma_frame_fields(mjpeg, index, capabilities, w, h, rates, default, 0, tail);
    lemma_le4(lo);
    lemma_le4(hi);
    assert(d[26] == tail[0] && d[27] == tail[1] && d[28] == tail[2] && d[29]
        == tail[3]);
    assert(d[30] == tail[4] && d[31] == tail[5] && d[32] == tail[6] && d[33]
        == tail[7]);
    assert(range_min(d) == lo && range_max(d) == hi);
}

/// The search begins outside any interface and with nothing found, and what it has found then is
/// no stream.
pub proof fn law_search_begins_with_nothing()
    ensures
        scan_start().ifc_class != 14 && entity_start().ifc_class != 14,
        scan_start().isoch.best is None && scan_start().isoch.alts.len() == 0,
        scan_start().mjpeg is None && scan_start().uncomp is None && scan_start().fmt_ix == 0,
        !entity_start().found_vc,
        entity_start().out.camera_terminal_id is None,
        entity_start().out.processing_unit_id is None,
        selected(scan_start()) == StreamOutcome::Fail(UsbError::NotImplemented),
{
}

/// Six bytes of an endpoint descriptor are enough: what follows them changes nothing.
pub proof fn law_endpoint_without_interval(d: Seq<u8>, x: u8, s: ScanView, prefs: UvcPrefs)
    requires
        d.len() == 6,
        d[1] == 5,
    ensures
        scan_step(d, s, prefs) == scan_step(d.push(x), s, prefs),
        s.ifc_class == 14 && s.ifc_sub == 2 && d[2] >= 0x80 && d[3] % 4 == 1 ==> scan_step(
            d,
            s,
            prefs,
        )->0.isoch == considered(
            s.isoch,
            IsochAlt {
                alt: s.alt,
                ep_num: d[2] % 16,
                mps_raw: (d[4] + 256 * d[5]) as u16,
                interface: s.ifc_num,
            },
        ),
{
}

/// A bitmap that announces more bytes than follow has those that follow.
pub proof fn law_cut_off_bitmap(d: Seq<u8>, at: int)
    requires
        0 <= at < d.len(),
        d.len() - at - 1 <= d[at],
    ensures
        bitmap_at(d, at) == bitmap_at(d.update(at, (d.len() - at - 1) as u8), at),
        d.len() == at + 1 ==> bitmap_at(d, at) == 0,
        d.len() == at + 2 ==> bitmap_at(d, at) == d[at + 1],
        d.len() == at + 3 ==> bitmap_at(d, at) == d[at + 1] + 256 * d[at + 2],
{
}

} // verus!
