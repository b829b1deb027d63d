//! What holds of a whole walk over the bus: it looks at every port of every hub once and in
//! order, it ends, and a walk that looks for a device returns the first one.

use crate::drivers::usb::device::{has_driver, hub_device, UsbDevice, MAX_USB_ADDR};
use crate::drivers::usb::hub::{hub_of, DeviceHub};
use crate::drivers::usb::topology::{
    advanced, at_port, child_gone, class_of, device_of, end_result, expects, finished, law_advance,
    levels_wf, power_from, walk_next, walk_wf, BusAction, BusEvent, BusWalk, Level, Phase, WalkMode,
    WalkView, ERR_ADDRESSES, ERR_NOT_CLAIMED, ERR_NO_DEVICE, ERR_ROOT_CHILD,
};
use crate::error::{UsbError, UsbResult};
use vstd::prelude::*;

verus! {

// ---------------------------------------------------------------------------
// Places
// ---------------------------------------------------------------------------
/// The way from the controller to the port that a walk is at: one port number for each hub. The
/// port of the controller itself is the empty way.
pub open spec fn way(stack: Seq<Level>) -> Seq<u8> {
    Seq::new(stack.len(), |i: int| stack[i].port)
}

/// Whether ways agree up to place `i`, and `a` ends there or takes the smaller port.
pub open spec fn parts_at(a: Seq<u8>, b: Seq<u8>, i: int) -> bool {
    &&& 0 <= i <= a.len()
    &&& i < b.len()
    &&& forall|k: int| 0 <= k < i ==> a[k] == b[k]
    &&& i == a.len() || a[i] < b[i]
}

/// Whether a port comes before another: a hub before what hangs below it, and the ports of a hub
/// by their numbers.
pub open spec fn comes_before(a: Seq<u8>, b: Seq<u8>) -> bool {
    exists|i: int| parts_at(a, b, i)
}

/// Whether ports are in order.
pub open spec fn rising(ways: Seq<Seq<u8>>) -> bool {
    forall|i: int, j: int|
        0 <= i < j < ways.len() ==> comes_before(#[trigger] ways[i], #[trigger] ways[j])
}

/// The order of ports is one.
proof fn lemma_before_is_transitive(a: Seq<u8>, b: Seq<u8>, c: Seq<u8>)
    requires
        comes_before(a, b),
        comes_before(b, c),
    ensures
        comes_before(a, c),
{
    let i = choose|i: int| parts_at(a, b, i);
    let j = choose|j: int| parts_at(b, c, j);
    let m = if i < j {
        i
    } else {
        j
    };
    assert(parts_at(a, c, m));
}

/// No port comes before itself.
proof fn lemma_before_is_strict(a: Seq<u8>)
    ensures
        !comes_before(a, a),
{
    assert forall|i: int| !parts_at(a, a, i) by {}
}

/// A port behind the last one keeps ports in order.
proof fn lemma_rising_push(ways: Seq<Seq<u8>>, w: Seq<u8>)
    requires
        rising(ways),
        ways.len() > 0 ==> comes_before(ways.last(), w),
    ensures
        rising(ways.push(w)),
{
    let n = ways.push(w);
    assert forall|i: int, j: int| 0 <= i < j < n.len() implies comes_before(
        #[trigger] n[i],
        #[trigger] n[j],
    ) by {
        if j == ways.len() {
            if i < ways.len() - 1 {
                assert(comes_before(ways[i], ways[ways.len() - 1]));
                lemma_before_is_transitive(ways[i], ways.last(), w);
            }
        } else {
            assert(comes_before(ways[i], ways[j]));
        }
    }
}

// ---------------------------------------------------------------------------
// Runs
// ---------------------------------------------------------------------------
/// A walk under way, with what it has met.
pub struct Tour {
    pub walk: WalkView,
    /// What was asked for last.
    pub last: BusAction,
    /// Ports that were looked at.
    pub looked: Seq<Seq<u8>>,
    /// Hubs that were found, with the port that each hangs at.
    pub hubs: Seq<(Seq<u8>, DeviceHub)>,
    /// Devices that are no hubs and that a driver takes, with the port that each hangs at.
    pub takers: Seq<(Seq<u8>, UsbDevice)>,
}

/// Whether the ports of the innermost hub are being powered.
pub open spec fn powering(p: Phase) -> bool {
    p is PowerStatus || p is PowerPort || p is PowerSettle
}

/// Whether the port of the controller was not looked at yet.
pub open spec fn before_all(p: Phase) -> bool {
    p is RootPower || p is RootConnect
}

/// A walk before its first event.
pub open spec fn tour_start(mode: WalkMode) -> Tour {
    Tour {
        walk: BusWalk::start(mode),
        last: BusWalk::first_action(),
        looked: Seq::empty(),
        hubs: Seq::empty(),
        takers: Seq::empty(),
    }
}

/// The device that an event completes, where it is no hub and a driver takes it.
pub open spec fn taker(v: WalkView, ev: BusEvent) -> Option<UsbDevice> {
    match (v.phase, ev) {
        (Phase::Classify { p }, BusEvent::Bytes(r)) => {
            let dev = device_of(p, class_of(r));
            if !hub_device(dev) && has_driver(dev) {
                Some(dev)
            } else {
                None
            }
        },
        _ => None,
    }
}

/// The walk after one more event: a port is looked at where its status is asked for first, and a
/// hub is found where its descriptor is one.
pub open spec fn tour_next(t: Tour, ev: BusEvent) -> Tour {
    let (w, a) = walk_next(t.walk, ev);
    Tour {
        walk: w,
        last: a,
        looked: if w.phase is Status {
            t.looked.push(way(w.stack))
        } else {
            t.looked
        },
        hubs: if t.walk.phase is HubDescriptor && powering(w.phase) {
            t.hubs.push((way(t.walk.stack), w.stack.last().hub))
        } else {
            t.hubs
        },
        takers: match taker(t.walk, ev) {
            Some(dev) => t.takers.push((way(t.walk.stack), dev)),
            None => t.takers,
        },
    }
}

/// The walk after events.
pub open spec fn tour(mode: WalkMode, evs: Seq<BusEvent>) -> Tour
    decreases evs.len(),
{
    if evs.len() == 0 {
        tour_start(mode)
    } else {
        tour_next(tour(mode, evs.drop_last()), evs.last())
    }
}

/// Whether each event answers what was asked for.
pub open spec fn possible(mode: WalkMode, evs: Seq<BusEvent>) -> bool
    decreases evs.len(),
{
    evs.len() == 0 || (possible(mode, evs.drop_last()) && expects(
        tour(mode, evs.drop_last()).walk.phase,
        evs.last(),
    ))
}

/// Whether a port belongs to one of these hubs.
pub open spec fn port_of(w: Seq<u8>, hubs: Seq<(Seq<u8>, DeviceHub)>) -> bool {
    exists|k: int|
        0 <= k < hubs.len() && (#[trigger] hubs[k]).0 == w.drop_last() && 1 <= w.last()
            <= hubs[k].1.nports
}

/// Whether every port is that of the controller or belongs to one of these hubs.
pub open spec fn all_belong(looked: Seq<Seq<u8>>, hubs: Seq<(Seq<u8>, DeviceHub)>) -> bool {
    forall|i: int|
        0 <= i < looked.len() ==> (#[trigger] looked[i]).len() == 0 || port_of(looked[i], hubs)
}

/// Whether every port of every hub was looked at.
pub open spec fn all_looked_at(looked: Seq<Seq<u8>>, hubs: Seq<(Seq<u8>, DeviceHub)>) -> bool {
    forall|k: int, j: u8|
        0 <= k < hubs.len() && 1 <= j <= hubs[k].1.nports ==> looked.contains(
            #[trigger] hubs[k].0.push(j),
        )
}

/// Whether a port of a hub on the way is still to come.
pub open spec fn to_come(
    stack: Seq<Level>,
    power: bool,
    w: Seq<u8>,
    hub: DeviceHub,
    port: u8,
) -> bool {
    let d = w.len() as int;
    &&& d < stack.len()
    &&& way(stack).take(d) == w
    &&& stack[d].hub == hub
    &&& stack[d].port < port || (power && d == stack.len() - 1)
}

/// Whether every port of every hub was looked at or is still to come.
pub open spec fn covered(
    stack: Seq<Level>,
    power: bool,
    looked: Seq<Seq<u8>>,
    hubs: Seq<(Seq<u8>, DeviceHub)>,
) -> bool {
    forall|k: int, j: u8|
        0 <= k < hubs.len() && 1 <= j <= hubs[k].1.nports ==> looked.contains(
            #[trigger] hubs[k].0.push(j),
        ) || to_come(stack, power, hubs[k].0, hubs[k].1, j)
}

/// Whether the hubs on the way are among those found.
pub open spec fn all_known(stack: Seq<Level>, hubs: Seq<(Seq<u8>, DeviceHub)>) -> bool {
    forall|d: int|
        0 <= d < stack.len() ==> hubs.contains((way(stack).take(d), (#[trigger] stack[d]).hub))
}

/// The port that a walk is at; while the ports of a hub are powered, that of the hub.
pub open spec fn position(v: WalkView) -> Seq<u8> {
    if powering(v.phase) {
        way(v.stack.drop_last())
    } else {
        way(v.stack)
    }
}

/// Ports of devices.
pub open spec fn ways_of(takers: Seq<(Seq<u8>, UsbDevice)>) -> Seq<Seq<u8>> {
    Seq::new(takers.len(), |k: int| takers[k].0)
}

/// Whether a device hangs at a port before the last one, or at the last one where the walk is
/// done with it.
pub open spec fn taken_before(t: Tour, k: int) -> bool {
    ||| comes_before(t.takers[k].0, t.looked.last())
    ||| t.takers[k].0 == t.looked.last() && (t.walk.phase is DriverProbe || t.walk.phase is Finished)
}

/// Whether a walk and what it has met fit together.
pub open spec fn tour_in_order(t: Tour) -> bool {
    &&& walk_wf(t.walk)
    &&& rising(t.looked)
    &&& all_belong(t.looked, t.hubs)
    &&& all_known(t.walk.stack, t.hubs)
    &&& covered(t.walk.stack, powering(t.walk.phase), t.looked, t.hubs)
    &&& before_all(t.walk.phase) ==> t.looked.len() == 0 && t.walk.stack.len() == 0
        && t.hubs.len() == 0 && t.takers.len() == 0
    &&& !before_all(t.walk.phase) && !(t.walk.phase is Finished) ==> t.looked.len() > 0
        && t.looked.last() == position(t.walk)
    &&& t.looked.len() > 0 ==> t.looked[0].len() == 0
    &&& t.takers.len() > 0 ==> t.looked.len() > 0
    &&& rising(ways_of(t.takers))
    &&& forall|k: int| 0 <= k < t.takers.len() ==> #[trigger] taken_before(t, k)
    &&& forall|k: int|
        0 <= k < t.takers.len() ==> !hub_device((#[trigger] t.takers[k]).1) && has_driver(
            t.takers[k].1,
        )
    &&& t.walk.mode == WalkMode::Probe ==> t.walk.claimed is None
    &&& t.walk.mode == WalkMode::Claim ==> !(t.walk.phase is DriverProbe)
    &&& t.walk.mode == WalkMode::Claim ==> t.walk.claimed == (if t.takers.len() == 0 {
        None
    } else {
        Some(t.takers[0].1)
    })
    &&& t.walk.phase is Finished <==> t.last is Finish
    &&& t.last == BusAction::Finish(Ok(())) ==> t.walk.stack.len() == 0 && (t.walk.mode
        == WalkMode::Claim ==> t.walk.claimed is Some)
}

// ---------------------------------------------------------------------------
// Moving on
// ---------------------------------------------------------------------------
/// Where a walk moves on to: the next port of the innermost hub that has one left, or the end.
proof fn lemma_advanced(v: WalkView) -> (d: int)
    ensures
        -1 <= d < v.stack.len(),
        forall|e: int| d < e < v.stack.len() ==> (#[trigger] v.stack[e]).port >= v.stack[e].hub.nports,
        d < 0 ==> advanced(v) == finished(WalkView { stack: Seq::empty(), ..v }, end_result(v)),
        d >= 0 ==> v.stack[d].port < v.stack[d].hub.nports && advanced(v).0 == (WalkView {
            stack: v.stack.take(d).push(
                Level { port: (v.stack[d].port + 1) as u8, ..v.stack[d] },
            ),
            phase: Phase::Status,
            ..v
        }) && advanced(v).1 is PortStatus,
    decreases v.stack.len(),
{
    let n = v.stack.len() as int;
    if n == 0 {
        assert(v.stack =~= Seq::empty());
        -1
    } else if v.stack.last().port < v.stack.last().hub.nports {
        assert(v.stack.drop_last() =~= v.stack.take(n - 1));
        n - 1
    } else {
        let u = WalkView { stack: v.stack.drop_last(), ..v };
        let d = lemma_advanced(u);
        assert(forall|e: int| 0 <= e < n - 1 ==> u.stack[e] == v.stack[e]);
        if d >= 0 {
            assert(u.stack.take(d) =~= v.stack.take(d));
        }
        d
    }
}

/// Moving on keeps everything in order, and leads to a port behind the last one.
proof fn lemma_moving_on(v: WalkView, looked: Seq<Seq<u8>>, hubs: Seq<(Seq<u8>, DeviceHub)>)
    requires
        levels_wf(v.stack),
        rising(looked),
        all_belong(looked, hubs),
        all_known(v.stack, hubs),
        covered(v.stack, false, looked, hubs),
        looked.len() > 0,
        looked.last() == way(v.stack) || (v.stack.len() > 0 && v.stack.last().port == 0
            && looked.last() == way(v.stack.drop_last())),
    ensures
        ({
            let w = advanced(v).0;
            let l = if w.phase is Status {
                looked.push(way(w.stack))
            } else {
                looked
            };
            &&& w.phase is Status || (w.phase is Finished && w.stack.len() == 0 && advanced(v).1
                == BusAction::Finish(end_result(v)))
            &&& w.phase is Status ==> advanced(v).1 is PortStatus
            &&& levels_wf(w.stack)
            &&& rising(l)
            &&& all_belong(l, hubs)
            &&& all_known(w.stack, hubs)
            &&& covered(w.stack, false, l, hubs)
            &&& w.phase is Status ==> comes_before(looked.last(), way(w.stack))
        }),
{
    let d = lemma_advanced(v);
    let w = advanced(v).0;
    let s = v.stack;
    if d < 0 {
        assert(w.stack =~= Seq::empty());
        assert forall|k: int, j: u8|
            0 <= k < hubs.len() && 1 <= j <= hubs[k].1.nports implies looked.contains(
            #[trigger] hubs[k].0.push(j),
        ) by {
            if to_come(s, false, hubs[k].0, hubs[k].1, j) {
                assert(s[hubs[k].0.len() as int].port >= s[hubs[k].0.len() as int].hub.nports);
            }
        }
    } else {
        let to = way(w.stack);
        let l = looked.push(to);
        assert(to =~= way(s).take(d).push((s[d].port + 1) as u8));
        assert(parts_at(looked.last(), to, d));
        lemma_rising_push(looked, to);
        assert(hubs.contains((way(s).take(d), s[d].hub)));
        let at = choose|k: int|
            0 <= k < hubs.len() && hubs[k] == (way(s).take(d), s[d].hub);
        assert(to.drop_last() =~= way(s).take(d));
        assert(hubs[at].0 == to.drop_last());
        assert(port_of(to, hubs));
        assert forall|i: int| 0 <= i < l.len() implies (#[trigger] l[i]).len() == 0 || port_of(
            l[i],
            hubs,
        ) by {
            if i < looked.len() {
                assert(l[i] == looked[i]);
            }
        }
        assert forall|e: int| 0 <= e < w.stack.len() implies hubs.contains(
            (way(w.stack).take(e), (#[trigger] w.stack[e]).hub),
        ) by {
            assert(way(w.stack).take(e) =~= way(s).take(e));
            assert(w.stack[e].hub == s[e].hub);
        }
        assert forall|k: int, j: u8|
            0 <= k < hubs.len() && 1 <= j <= hubs[k].1.nports implies l.contains(
            #[trigger] hubs[k].0.push(j),
        ) || to_come(w.stack, false, hubs[k].0, hubs[k].1, j) by {
            let p = hubs[k].0;
            if looked.contains(p.push(j)) {
                let i = choose|i: int| 0 <= i < looked.len() && looked[i] == p.push(j);
                assert(l[i] == p.push(j));
            } else {
                let e = p.len() as int;
                assert(to_come(s, false, p, hubs[k].1, j));
                if e > d {
                    assert(s[e].port >= s[e].hub.nports);
                } else {
                    assert(way(w.stack).take(e) =~= way(s).take(e));
                    if e == d && j == s[d].port + 1 {
                        assert(to =~= p.push(j));
                        assert(l[looked.len() as int] == p.push(j));
                    }
                }
            }
        }
        assert forall|k: int| 0 <= k < w.stack.len() implies (#[trigger] w.stack[k]).hub.wf()
            && w.stack[k].port <= w.stack[k].hub.nports by {
            assert(s[k].hub.wf());
        }
    }
}

/// While ports are powered, which of them it is makes no difference to what was met; before the
/// first port all of them are to come.
proof fn lemma_top_port(
    s: Seq<Level>,
    port: u8,
    power: bool,
    looked: Seq<Seq<u8>>,
    hubs: Seq<(Seq<u8>, DeviceHub)>,
)
    requires
        s.len() > 0,
        all_known(s, hubs),
        covered(s, true, looked, hubs),
        power || port == 0,
    ensures
        ({
            let u = s.drop_last().push(Level { port, ..s.last() });
            &&& all_known(u, hubs)
            &&& covered(u, power, looked, hubs)
            &&& u.drop_last() == s.drop_last()
            &&& u.last().hub == s.last().hub
        }),
{
    let u = s.drop_last().push(Level { port, ..s.last() });
    assert(u.drop_last() =~= s.drop_last());
    assert forall|e: int| 0 <= e < u.len() implies hubs.contains(
        (way(u).take(e), (#[trigger] u[e]).hub),
    ) by {
        assert(way(u).take(e) =~= way(s).take(e));
        assert(u[e].hub == s[e].hub);
    }
    assert forall|k: int, j: u8|
        0 <= k < hubs.len() && 1 <= j <= hubs[k].1.nports implies looked.contains(
        #[trigger] hubs[k].0.push(j),
    ) || to_come(u, power, hubs[k].0, hubs[k].1, j) by {
        let e = hubs[k].0.len() as int;
        if to_come(s, true, hubs[k].0, hubs[k].1, j) {
            assert(way(u).take(e) =~= way(s).take(e));
        }
    }
}

/// A hub that is found has all its ports to come.
proof fn lemma_hub_found(
    s: Seq<Level>,
    hub: DeviceHub,
    looked: Seq<Seq<u8>>,
    hubs: Seq<(Seq<u8>, DeviceHub)>,
)
    requires
        all_known(s, hubs),
        all_belong(looked, hubs),
        covered(s, false, looked, hubs),
    ensures
        ({
            let u = s.push(Level { hub, port: 0 });
            let h = hubs.push((way(s), hub));
            &&& all_known(u, h)
            &&& all_belong(looked, h)
            &&& covered(u, true, looked, h)
        }),
{
    let u = s.push(Level { hub, port: 0 });
    let h = hubs.push((way(s), hub));
    assert forall|e: int| 0 <= e < u.len() implies h.contains(
        (way(u).take(e), (#[trigger] u[e]).hub),
    ) by {
        if e < s.len() {
            assert(way(u).take(e) =~= way(s).take(e));
            assert(u[e] == s[e]);
            let at = choose|k: int|
                0 <= k < hubs.len() && hubs[k] == (way(s).take(e), s[e].hub);
            assert(h[at] == hubs[at]);
        } else {
            assert(way(u).take(e) =~= way(s));
            assert(h[hubs.len() as int] == (way(s), hub));
        }
    }
    assert forall|i: int| 0 <= i < looked.len() implies (#[trigger] looked[i]).len() == 0
        || port_of(looked[i], h) by {
        if looked[i].len() > 0 {
            let at = choose|k: int|
                0 <= k < hubs.len() && (#[trigger] hubs[k]).0 == looked[i].drop_last() && 1
                    <= looked[i].last() <= hubs[k].1.nports;
            assert(h[at] == hubs[at]);
        }
    }
    assert forall|k: int, j: u8|
        0 <= k < h.len() && 1 <= j <= h[k].1.nports implies looked.contains(
        #[trigger] h[k].0.push(j),
    ) || to_come(u, true, h[k].0, h[k].1, j) by {
        if k < hubs.len() {
            assert(h[k] == hubs[k]);
            assert(looked.contains(hubs[k].0.push(j)) || to_come(s, false, hubs[k].0, hubs[k].1, j));
            let e = hubs[k].0.len() as int;
            if to_come(s, false, hubs[k].0, hubs[k].1, j) {
                assert(way(u).take(e) =~= way(s).take(e));
            }
        } else {
            assert(way(u).take(s.len() as int) =~= way(s));
        }
    }
}

/// Whether a step has led to a port behind the last one.
pub open spec fn grown(t: Tour, n: Tour) -> bool {
    &&& n.looked.len() > 0
    &&& n.looked == t.looked.push(n.looked.last())
    &&& t.looked.len() > 0 ==> comes_before(t.looked.last(), n.looked.last())
}

/// Devices stay in order.
proof fn lemma_takers(t: Tour, ev: BusEvent)
    requires
        tour_in_order(t),
        expects(t.walk.phase, ev),
        ({
            let n = tour_next(t, ev);
            ||| grown(t, n)
            ||| n.looked == t.looked && (n.walk.phase is Finished || n.walk.phase is DriverProbe || (
            !(t.walk.phase is DriverProbe) && taker(t.walk, ev) is None))
        }),
    ensures
        ({
            let n = tour_next(t, ev);
            &&& rising(ways_of(n.takers))
            &&& forall|k: int| 0 <= k < n.takers.len() ==> #[trigger] taken_before(n, k)
            &&& n.takers.len() > 0 ==> n.looked.len() > 0
            &&& forall|k: int|
                0 <= k < n.takers.len() ==> !hub_device((#[trigger] n.takers[k]).1) && has_driver(
                    n.takers[k].1,
                )
        }),
{
    let n = tour_next(t, ev);
    assert forall|k: int| 0 <= k < t.takers.len() implies #[trigger] taken_before(n, k) by {
        assert(taken_before(t, k));
        assert(n.takers[k] == t.takers[k]);
        if grown(t, n) && comes_before(t.takers[k].0, t.looked.last()) {
            lemma_before_is_transitive(t.takers[k].0, t.looked.last(), n.looked.last());
        }
    }
    if let Some(dev) = taker(t.walk, ev) {
        let place = way(t.walk.stack);
        assert(ways_of(n.takers) =~= ways_of(t.takers).push(place));
        if t.takers.len() > 0 {
            assert(taken_before(t, t.takers.len() - 1));
            assert(ways_of(t.takers).last() == t.takers[t.takers.len() - 1].0);
        }
        lemma_rising_push(ways_of(t.takers), place);
        assert(n.takers[t.takers.len() as int] == (place, dev));
        assert(taken_before(n, t.takers.len() as int));
    }
}

/// A step that leads on from `u`, a walk at the same place.
proof fn lemma_leads_on(t: Tour, ev: BusEvent, u: WalkView)
    requires
        tour_in_order(t),
        expects(t.walk.phase, ev),
        !before_all(t.walk.phase),
        walk_next(t.walk, ev) == advanced(u),
        u.mode == t.walk.mode,
        u.next_addr == t.walk.next_addr,
        (!powering(t.walk.phase) && u.stack == t.walk.stack) || (powering(t.walk.phase) && u.stack
            == at_port(t.walk, 0).stack),
        u.claimed == (match taker(t.walk, ev) {
            Some(dev) => if t.walk.mode == WalkMode::Claim && t.walk.claimed is None {
                Some(dev)
            } else {
                t.walk.claimed
            },
            None => t.walk.claimed,
        }),
    ensures
        tour_in_order(tour_next(t, ev)),
        tour_next(t, ev).walk.mode == t.walk.mode,
{
    let n = tour_next(t, ev);
    if powering(t.walk.phase) {
        lemma_top_port(t.walk.stack, 0, false, t.looked, t.hubs);
        let s = t.walk.stack;
        assert forall|k: int| 0 <= k < u.stack.len() implies (#[trigger] u.stack[k]).hub.wf()
            && u.stack[k].port <= u.stack[k].hub.nports by {
            assert(s[k].hub.wf());
        }
    }
    law_advance(u);
    lemma_moving_on(u, t.looked, t.hubs);
    if n.walk.phase is Status {
        assert(n.looked.last() == way(n.walk.stack));
        assert(grown(t, n));
    }
    lemma_takers(t, ev);
    if taker(t.walk, ev) is Some && t.takers.len() > 0 {
        assert(n.takers[0] == t.takers[0]);
    }
}

/// A step that ends the walk where it is.
proof fn lemma_breaks_off(t: Tour, ev: BusEvent, r: UsbResult<()>)
    requires
        tour_in_order(t),
        expects(t.walk.phase, ev),
        !powering(t.walk.phase),
        walk_next(t.walk, ev) == finished(t.walk, r),
        r is Err,
        taker(t.walk, ev) is None,
    ensures
        tour_in_order(tour_next(t, ev)),
        tour_next(t, ev).walk.mode == t.walk.mode,
{
    lemma_takers(t, ev);
}

/// A step at the same port.
proof fn lemma_stays(t: Tour, ev: BusEvent)
    requires
        tour_in_order(t),
        expects(t.walk.phase, ev),
        !before_all(t.walk.phase),
        !powering(t.walk.phase),
        ({
            let (w, a) = walk_next(t.walk, ev);
            &&& w.stack == t.walk.stack
            &&& w.mode == t.walk.mode
            &&& w.claimed == t.walk.claimed
            &&& 1 <= w.next_addr <= MAX_USB_ADDR
            &&& !before_all(w.phase) && !powering(w.phase) && !(w.phase is Finished) && !(
            w.phase is Status)
            &&& w.phase matches Phase::Address { p } ==> p.control_ep.dev == 0
            &&& !(a is Finish)
            &&& !(t.walk.phase is DriverProbe)
            &&& w.phase is DriverProbe ==> w.mode == WalkMode::Probe
            &&& taker(t.walk, ev) is None || w.phase is DriverProbe
        }),
    ensures
        tour_in_order(tour_next(t, ev)),
        tour_next(t, ev).walk.mode == t.walk.mode,
{
    lemma_takers(t, ev);
}

/// A step while the ports of a hub are powered.
proof fn lemma_powers_on(t: Tour, ev: BusEvent)
    requires
        tour_in_order(t),
        expects(t.walk.phase, ev),
        t.walk.phase is PowerStatus || t.walk.phase is PowerPort,
    ensures
        tour_in_order(tour_next(t, ev)),
        tour_next(t, ev).walk.mode == t.walk.mode,
{
    let v = t.walk;
    let n = tour_next(t, ev);
    let port = v.stack.last().port;
    let w = n.walk;
    assert(v.stack.last() == v.stack[v.stack.len() - 1]);
    if w.stack != v.stack {
        let u = v.stack.drop_last().push(Level { port: (port + 1) as u8, ..v.stack.last() });
        assert(w.stack == u);
        lemma_top_port(v.stack, (port + 1) as u8, true, t.looked, t.hubs);
        assert forall|k: int| 0 <= k < u.len() implies (#[trigger] u[k]).hub.wf() && u[k].port
            <= u[k].hub.nports by {
            assert(v.stack[k].hub.wf());
        }
    }
    lemma_takers(t, ev);
}

/// A step that finds a hub.
proof fn lemma_finds_hub(t: Tour, ev: BusEvent, hub: DeviceHub)
    requires
        tour_in_order(t),
        expects(t.walk.phase, ev),
        t.walk.phase is HubDescriptor,
        hub.wf(),
        walk_next(t.walk, ev) == power_from(
            WalkView { stack: t.walk.stack.push(Level { hub, port: 0 }), ..t.walk },
            1,
        ),
    ensures
        tour_in_order(tour_next(t, ev)),
        tour_next(t, ev).walk.mode == t.walk.mode,
{
    let v = t.walk;
    let n = tour_next(t, ev);
    let w = n.walk;
    let u = v.stack.push(Level { hub, port: 0 });
    lemma_hub_found(v.stack, hub, t.looked, t.hubs);
    lemma_top_port(u, 1, true, t.looked, t.hubs.push((way(v.stack), hub)));
    assert(u.drop_last() =~= v.stack);
    assert(w.stack.drop_last() =~= v.stack);
    assert(w.stack.last().hub == hub);
    assert forall|k: int| 0 <= k < w.stack.len() implies (#[trigger] w.stack[k]).hub.wf()
        && w.stack[k].port <= w.stack[k].hub.nports by {
        if k < v.stack.len() {
            assert(w.stack[k] == v.stack[k]);
        }
    }
    lemma_takers(t, ev);
}

/// The step that looks at the port of the controller.
proof fn lemma_looks_at_root(t: Tour, ev: BusEvent)
    requires
        tour_in_order(t),
        expects(t.walk.phase, ev),
        t.walk.phase is RootConnect,
        ev == BusEvent::Connected(true),
    ensures
        tour_in_order(tour_next(t, ev)),
        tour_next(t, ev).walk.mode == t.walk.mode,
{
    let n = tour_next(t, ev);
    assert(way(n.walk.stack) =~= Seq::<u8>::empty());
    assert(n.looked =~= seq![Seq::<u8>::empty()]);
    assert(n.looked.last() == way(n.walk.stack));
    assert(grown(t, n));
    lemma_rising_push(t.looked, way(n.walk.stack));
    lemma_takers(t, ev);
}

/// A step that leads on from the current port, or breaks off where that is the controller's.
proof fn lemma_child_gone(t: Tour, ev: BusEvent)
    requires
        tour_in_order(t),
        expects(t.walk.phase, ev),
        !before_all(t.walk.phase),
        !powering(t.walk.phase),
        taker(t.walk, ev) is None,
        walk_next(t.walk, ev) == child_gone(t.walk),
    ensures
        tour_in_order(tour_next(t, ev)),
        tour_next(t, ev).walk.mode == t.walk.mode,
{
    if t.walk.stack.len() == 0 {
        lemma_breaks_off(t, ev, Err(UsbError::Protocol(ERR_ROOT_CHILD)));
    } else {
        lemma_leads_on(t, ev, t.walk);
    }
}

/// Every step keeps a walk and what it has met in order.
proof fn lemma_step(t: Tour, ev: BusEvent)
    requires
        tour_in_order(t),
        expects(t.walk.phase, ev),
    ensures
        tour_in_order(tour_next(t, ev)),
        tour_next(t, ev).walk.mode == t.walk.mode,
{
    let v = t.walk;
    let (w, a) = walk_next(v, ev);
    match (v.phase, ev) {
        (Phase::RootPower, BusEvent::Done(r)) => match r {
            Err(e) => {
                lemma_breaks_off(t, ev, Err(e));
            },
            Ok(_) => {
                lemma_takers(t, ev);
            },
        },
        (Phase::RootConnect, BusEvent::Connected(c)) => {
            if c {
                lemma_looks_at_root(t, ev);
            } else {
                lemma_breaks_off(t, ev, Err(UsbError::Hardware(ERR_NO_DEVICE)));
            }
        },
        (Phase::Identify { speed }, BusEvent::Identity(r)) => match r {
            Err(e) => {
                if e is NotPresent {
                    lemma_child_gone(t, ev);
                } else {
                    lemma_breaks_off(t, ev, Err(e));
                }
            },
            Ok(id) => {
                if v.next_addr >= MAX_USB_ADDR {
                    lemma_breaks_off(t, ev, Err(UsbError::Protocol(ERR_ADDRESSES)));
                } else {
                    lemma_stays(t, ev);
                }
            },
        },
        (Phase::Address { p }, BusEvent::Done(r)) => match r {
            Err(e) => {
                if e is NotPresent {
                    lemma_child_gone(t, ev);
                } else {
                    lemma_breaks_off(t, ev, Err(e));
                }
            },
            Ok(_) => {
                lemma_stays(t, ev);
            },
        },
        (Phase::Configure { p }, BusEvent::Done(r)) => match r {
            Err(e) => {
                if e is NotPresent {
                    lemma_child_gone(t, ev);
                } else {
                    lemma_breaks_off(t, ev, Err(e));
                }
            },
            Ok(_) => {
                lemma_stays(t, ev);
            },
        },
        (Phase::Classify { p }, BusEvent::Bytes(r)) => {
            let dev = device_of(p, class_of(r));
            if hub_device(dev) || (has_driver(dev) && v.mode == WalkMode::Probe) {
                lemma_stays(t, ev);
            } else if has_driver(dev) {
                lemma_leads_on(
                    t,
                    ev,
                    WalkView {
                        claimed: if v.claimed is None {
                            Some(dev)
                        } else {
                            v.claimed
                        },
                        ..v
                    },
                );
            } else {
                lemma_leads_on(t, ev, v);
            }
        },
        (Phase::HubDescriptor { ep }, BusEvent::Bytes(r)) => {
            let described = match r {
                Err(e) => Err::<DeviceHub, UsbError>(e),
                Ok(b) => hub_of(ep, b@),
            };
            match described {
                Err(e) => {
                    if v.mode == WalkMode::Claim && e is NotPresent {
                        lemma_leads_on(t, ev, v);
                    } else {
                        lemma_breaks_off(t, ev, Err(e));
                    }
                },
                Ok(hub) => {
                    lemma_finds_hub(t, ev, hub);
                },
            }
        },
        (Phase::PowerStatus, BusEvent::Status(r)) => {
            lemma_powers_on(t, ev);
        },
        (Phase::PowerPort, BusEvent::Done(r)) => {
            lemma_powers_on(t, ev);
        },
        (Phase::PowerSettle, BusEvent::Done(r)) => {
            lemma_leads_on(t, ev, at_port(v, 0));
        },
        (Phase::DriverProbe, BusEvent::Done(r)) => match r {
            Err(e) => {
                lemma_breaks_off(t, ev, Err(e));
            },
            Ok(_) => {
                lemma_leads_on(t, ev, v);
            },
        },
        _ => {
            let d = lemma_advanced(v);
            if w.phase is Status || w.phase is Finished {
                lemma_child_gone(t, ev);
            } else {
                lemma_stays(t, ev);
            }
        },
    }
}

/// Whatever the events, a walk and what it has met are in order.
proof fn lemma_tour(mode: WalkMode, evs: Seq<BusEvent>)
    requires
        possible(mode, evs),
    ensures
        tour_in_order(tour(mode, evs)),
        tour(mode, evs).walk.mode == mode,
    decreases evs.len(),
{
    if evs.len() > 0 {
        lemma_tour(mode, evs.drop_last());
        lemma_step(tour(mode, evs.drop_last()), evs.last());
    }
}

// ---------------------------------------------------------------------------
// What holds of every walk
// ---------------------------------------------------------------------------
/// However a walk goes, it begins with the port of the controller, looks at ports in their order
/// and at none twice, and looks only at ports that the hubs it found have.
pub proof fn law_ports_in_order(mode: WalkMode, evs: Seq<BusEvent>)
    requires
        possible(mode, evs),
    ensures
        ({
            let t = tour(mode, evs);
            &&& rising(t.looked)
            &&& t.looked.no_duplicates()
            &&& t.looked.len() > 0 ==> t.looked[0] == Seq::<u8>::empty()
            &&& all_belong(t.looked, t.hubs)
        }),
{
    lemma_tour(mode, evs);
    let l = tour(mode, evs).looked;
    assert forall|i: int, j: int| 0 <= i < l.len() && 0 <= j < l.len() && i != j implies l[i]
        != l[j] by {
        lemma_before_is_strict(l[i]);
        if i < j {
            assert(comes_before(l[i], l[j]));
        } else {
            assert(comes_before(l[j], l[i]));
        }
    }
    if l.len() > 0 {
        assert(l[0] =~= Seq::<u8>::empty());
    }
}

/// A walk that ends without a failure has looked at every port of every hub that it found. So has
/// every walk that ends with no hub left on its way.
pub proof fn law_every_port_is_looked_at(mode: WalkMode, evs: Seq<BusEvent>)
    requires
        possible(mode, evs),
    ensures
        ({
            let t = tour(mode, evs);
            &&& t.last == BusAction::Finish(Ok(())) ==> t.walk.stack.len() == 0
            &&& t.walk.phase is Finished && t.walk.stack.len() == 0 ==> all_looked_at(
                t.looked,
                t.hubs,
            )
        }),
{
    lemma_tour(mode, evs);
    let t = tour(mode, evs);
    if t.walk.phase is Finished && t.walk.stack.len() == 0 {
        assert forall|k: int, j: u8|
            0 <= k < t.hubs.len() && 1 <= j <= t.hubs[k].1.nports implies t.looked.contains(
            #[trigger] t.hubs[k].0.push(j),
        ) by {
            assert(!to_come(t.walk.stack, false, t.hubs[k].0, t.hubs[k].1, j));
        }
    }
}

/// The failure that an event brings, if any.
pub open spec fn failure_of(v: WalkView, ev: BusEvent) -> Option<UsbError> {
    match ev {
        BusEvent::Done(Err(e)) => Some(e),
        BusEvent::Identity(Err(e)) => Some(e),
        BusEvent::Bytes(Err(e)) => Some(e),
        BusEvent::Bytes(Ok(b)) => match v.phase {
            Phase::HubDescriptor { ep } => match hub_of(ep, b@) {
                Err(e) => Some(e),
                Ok(h) => None,
            },
            _ => None,
        },
        _ => None,
    }
}

/// A walk breaks off below a hub only with the failure of the event, or for want of addresses.
pub proof fn law_walk_breaks_off_on_failure(v: WalkView, ev: BusEvent)
    requires
        walk_wf(v),
        expects(v.phase, ev),
        before_all(v.phase) ==> v.stack.len() == 0,
        walk_next(v, ev).1 is Finish,
        walk_next(v, ev).0.stack.len() > 0,
    ensures
        walk_next(v, ev).1 matches BusAction::Finish(Err(e)) && (failure_of(v, ev) == Some(e) || (
        v.phase is Identify && v.next_addr >= MAX_USB_ADDR && e == UsbError::Protocol(
            ERR_ADDRESSES,
        ))),
{
    let d = lemma_advanced(v);
    let e = lemma_advanced(at_port(v, 0));
    if let Some(dev) = taker(v, ev) {
        let f = lemma_advanced(
            WalkView {
                claimed: if v.claimed is None {
                    Some(dev)
                } else {
                    v.claimed
                },
                ..v
            },
        );
    }
}

/// Ports that the hubs on the way have left.
pub open spec fn ports_left(stack: Seq<Level>) -> int
    decreases stack.len(),
{
    if stack.len() == 0 {
        0
    } else {
        ports_left(stack.drop_last()) + (stack.last().hub.nports - stack.last().port)
    }
}

/// Steps at a port that a phase leaves, at most. A device that has an address may turn out to be
/// a hub, whose ports then take steps of their own.
pub open spec fn steps_at_port(p: Phase) -> int {
    match p {
        Phase::RootPower => 17,
        Phase::RootConnect => 16,
        Phase::Status => 15,
        Phase::ClearConnection => 14,
        Phase::Reset => 13,
        Phase::ClearReset => 12,
        Phase::After => 11,
        Phase::Identify { speed } => 10,
        Phase::Address { p } => 9009,
        Phase::Settle { p } => 9008,
        Phase::Configure { p } => 9007,
        Phase::Classify { p } => 9006,
        Phase::HubDescriptor { ep } => 9005,
        Phase::DriverProbe => 5,
        Phase::PowerStatus => 2,
        Phase::PowerPort => 1,
        Phase::PowerSettle => 0,
        Phase::Finished => 0,
    }
}

/// Steps that a walk has left at most.
pub open spec fn steps_left(v: WalkView) -> int {
    if v.phase is Finished {
        0
    } else {
        1 + 10_000 * (MAX_USB_ADDR - v.next_addr) + steps_at_port(v.phase) + if powering(v.phase) {
            let top = v.stack.last();
            20 * ports_left(v.stack.drop_last()) + 20 * top.hub.nports + 3 * (top.hub.nports
                - top.port)
        } else {
            20 * ports_left(v.stack)
        }
    }
}

/// Hubs have no fewer than no ports left.
proof fn lemma_ports_left(stack: Seq<Level>)
    requires
        levels_wf(stack),
    ensures
        ports_left(stack) >= 0,
    decreases stack.len(),
{
    if stack.len() > 0 {
        assert(stack.last() == stack[stack.len() - 1]);
        assert forall|k: int| 0 <= k < stack.drop_last().len() implies (
        #[trigger] stack.drop_last()[k]).hub.wf() && stack.drop_last()[k].port
            <= stack.drop_last()[k].hub.nports by {
            assert(stack.drop_last()[k] == stack[k]);
        }
        lemma_ports_left(stack.drop_last());
    }
}

/// Moving on uses up a port, or ends the walk.
proof fn lemma_moving_on_uses_ports(v: WalkView)
    requires
        levels_wf(v.stack),
    ensures
        ({
            let w = advanced(v).0;
            &&& w.phase is Finished || (w.phase is Status && ports_left(w.stack) < ports_left(
                v.stack,
            ))
            &&& w.next_addr == v.next_addr
            &&& levels_wf(w.stack)
        }),
    decreases v.stack.len(),
{
    let s = v.stack;
    if s.len() > 0 {
        assert(s.last() == s[s.len() - 1]);
        let rest = s.drop_last();
        assert forall|k: int| 0 <= k < rest.len() implies (#[trigger] rest[k]).hub.wf()
            && rest[k].port <= rest[k].hub.nports by {
            assert(rest[k] == s[k]);
        }
        if s.last().port < s.last().hub.nports {
            let u = rest.push(Level { port: (s.last().port + 1) as u8, ..s.last() });
            assert(u.drop_last() =~= rest);
            assert(advanced(v).0.stack == u);
            assert forall|k: int| 0 <= k < u.len() implies (#[trigger] u[k]).hub.wf() && u[k].port
                <= u[k].hub.nports by {
                assert(s[k].hub.wf());
            }
        } else {
            lemma_moving_on_uses_ports(WalkView { stack: rest, ..v });
        }
    }
}

/// Powering the ports of a hub comes to its end.
proof fn lemma_powering_comes_nearer(v: WalkView, ev: BusEvent)
    requires
        walk_wf(v),
        expects(v.phase, ev),
        powering(v.phase),
    ensures
        0 <= steps_left(walk_next(v, ev).0) < steps_left(v),
{
    let s = v.stack;
    let rest = s.drop_last();
    assert(s.last() == s[s.len() - 1]);
    assert forall|k: int| 0 <= k < rest.len() implies (#[trigger] rest[k]).hub.wf() && rest[k].port
        <= rest[k].hub.nports by {
        assert(rest[k] == s[k]);
    }
    lemma_ports_left(rest);
    if v.phase is PowerSettle {
        let z = at_port(v, 0);
        assert(z.stack.drop_last() =~= rest);
        assert forall|k: int| 0 <= k < z.stack.len() implies (#[trigger] z.stack[k]).hub.wf()
            && z.stack[k].port <= z.stack[k].hub.nports by {
            assert(s[k].hub.wf());
        }
        lemma_moving_on_uses_ports(z);
        lemma_ports_left(advanced(z).0.stack);
    } else {
        let next = (s.last().port + 1) as u8;
        assert(at_port(v, next).stack.drop_last() =~= rest);
    }
}

/// A hub that is found has fewer ports than a device with an address allows for.
proof fn lemma_hub_comes_nearer(v: WalkView, ev: BusEvent)
    requires
        walk_wf(v),
        expects(v.phase, ev),
        v.phase is HubDescriptor,
    ensures
        0 <= steps_left(walk_next(v, ev).0) < steps_left(v),
{
    let w = walk_next(v, ev).0;
    lemma_ports_left(v.stack);
    lemma_moving_on_uses_ports(v);
    lemma_ports_left(advanced(v).0.stack);
    if powering(w.phase) {
        assert(w.stack.drop_last() =~= v.stack);
    }
}

/// A device that has said what it is leads on.
proof fn lemma_device_comes_nearer(v: WalkView, ev: BusEvent)
    requires
        walk_wf(v),
        expects(v.phase, ev),
        v.phase is Classify,
    ensures
        0 <= steps_left(walk_next(v, ev).0) < steps_left(v),
{
    lemma_ports_left(v.stack);
    lemma_moving_on_uses_ports(v);
    lemma_ports_left(advanced(v).0.stack);
    if let Some(dev) = taker(v, ev) {
        let u = WalkView {
            claimed: if v.claimed is None {
                Some(dev)
            } else {
                v.claimed
            },
            ..v
        };
        lemma_moving_on_uses_ports(u);
        lemma_ports_left(advanced(u).0.stack);
    }
}

/// Each event brings a walk nearer to its end.
pub proof fn law_walk_comes_nearer(v: WalkView, ev: BusEvent)
    requires
        walk_wf(v),
        expects(v.phase, ev),
    ensures
        0 <= steps_left(walk_next(v, ev).0) < steps_left(v),
{
    if powering(v.phase) {
        lemma_powering_comes_nearer(v, ev);
    } else if v.phase is HubDescriptor {
        lemma_hub_comes_nearer(v, ev);
    } else if v.phase is Classify {
        lemma_device_comes_nearer(v, ev);
    } else {
        lemma_ports_left(v.stack);
        lemma_moving_on_uses_ports(v);
        lemma_ports_left(advanced(v).0.stack);
    }
}

/// Every walk ends: there are no more events than the walk had steps at its beginning.
pub proof fn law_walk_ends(mode: WalkMode, evs: Seq<BusEvent>)
    requires
        possible(mode, evs),
    ensures
        evs.len() + steps_left(tour(mode, evs).walk) <= steps_left(BusWalk::start(mode)),
        0 <= steps_left(tour(mode, evs).walk),
    decreases evs.len(),
{
    if evs.len() > 0 {
        let before = evs.drop_last();
        law_walk_ends(mode, before);
        lemma_tour(mode, before);
        law_walk_comes_nearer(tour(mode, before).walk, evs.last());
    }
}

/// A walk that looks for a device keeps the first one in port order that is no hub and that a
/// driver takes; it succeeds only where there is one.
pub proof fn law_first_taker_is_claimed(evs: Seq<BusEvent>)
    requires
        possible(WalkMode::Claim, evs),
    ensures
        ({
            let t = tour(WalkMode::Claim, evs);
            &&& rising(ways_of(t.takers))
            &&& forall|k: int|
                0 <= k < t.takers.len() ==> !hub_device((#[trigger] t.takers[k]).1) && has_driver(
                    t.takers[k].1,
                )
            &&& t.walk.claimed == (if t.takers.len() == 0 {
                None
            } else {
                Some(t.takers[0].1)
            })
            &&& t.last == BusAction::Finish(Ok(())) ==> t.takers.len() > 0
        }),
{
    lemma_tour(WalkMode::Claim, evs);
}

/// A device that was claimed stays claimed.
pub proof fn law_claimed_device_stays(v: WalkView, ev: BusEvent)
    requires
        walk_wf(v),
        expects(v.phase, ev),
        v.claimed is Some,
    ensures
        walk_next(v, ev).0.claimed == v.claimed,
{
    law_advance(v);
    law_advance(at_port(v, 0));
}

/// Where all ports were seen, a walk that looks for a device ends with success if it has one, and
/// else says that none was claimed.
pub proof fn law_result_of_a_whole_walk(v: WalkView, ev: BusEvent)
    requires
        walk_wf(v),
        expects(v.phase, ev),
        v.mode == WalkMode::Claim,
        v.stack.len() > 0,
        walk_next(v, ev).1 is Finish,
        walk_next(v, ev).0.stack.len() == 0,
    ensures
        walk_next(v, ev).1 == BusAction::Finish(
            if walk_next(v, ev).0.claimed is Some {
                Ok(())
            } else {
                Err(UsbError::Protocol(ERR_NOT_CLAIMED))
            },
        ),
{
    law_advance(v);
    law_advance(at_port(v, 0));
    if let Some(dev) = taker(v, ev) {
        law_advance(
            WalkView {
                claimed: if v.claimed is None {
                    Some(dev)
                } else {
                    v.claimed
                },
                ..v
            },
        );
    }
}

/// No step leads back to the beginning.
proof fn lemma_no_way_back(v: WalkView, ev: BusEvent)
    requires
        walk_wf(v),
        expects(v.phase, ev),
    ensures
        !(walk_next(v, ev).0.phase is RootPower),
{
    let d = lemma_advanced(v);
    let e = lemma_advanced(at_port(v, 0));
    if let Some(dev) = taker(v, ev) {
        let f = lemma_advanced(
            WalkView {
                claimed: if v.claimed is None {
                    Some(dev)
                } else {
                    v.claimed
                },
                ..v
            },
        );
    }
}

/// Where the port of the controller could be powered, a walk that looks for a device never ends
/// by saying that there is none present.
pub proof fn law_claiming_never_ends_not_present(evs: Seq<BusEvent>)
    requires
        possible(WalkMode::Claim, evs),
        evs.len() > 0,
        evs[0] == BusEvent::Done(Ok(())),
    ensures
        tour(WalkMode::Claim, evs).last != BusAction::Finish(Err(UsbError::NotPresent)),
{
    let before = evs.drop_last();
    let t = tour(WalkMode::Claim, before);
    let v = t.walk;
    let ev = evs.last();
    reveal_with_fuel(possible, 3);
    reveal_with_fuel(tour, 3);
    lemma_tour(WalkMode::Claim, before);
    if before.len() == 0 {
        assert(ev == evs[0]);
    } else {
        let earlier = tour(WalkMode::Claim, before.drop_last());
        lemma_tour(WalkMode::Claim, before.drop_last());
        lemma_no_way_back(earlier.walk, before.last());
        law_advance(v);
        law_advance(at_port(v, 0));
        if let Some(dev) = taker(v, ev) {
            law_advance(
                WalkView {
                    claimed: if v.claimed is None {
                        Some(dev)
                    } else {
                        v.claimed
                    },
                    ..v
                },
            );
        }
    }
}

} // verus!
