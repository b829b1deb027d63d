//! Clock ticks, delays and the heartbeat.
//!
//! Durations are counts of nanoseconds.

use crate::drivers::wdt;
use crate::hw::HwOp;
use crate::registers::{high32, low32};
use vstd::prelude::*;

verus! {

/// Ticks of the clock in a second.
pub const TIMEBASE_HZ: u64 = 25_000_000;

/// Low word of the timer comparator.
pub const CLINT_MTIMECMP_LO: usize = 0x7400_4000;

/// High word of the timer comparator.
pub const CLINT_MTIMECMP_HI: usize = 0x7400_4004;

/// Ticks between two heartbeats (10 ms).
pub const HEARTBEAT_INTERVAL_TICKS: u64 = 250_000;

/// Where the heartbeat counter is shown.
pub const HEARTBEAT_PA: usize = 0x0190_041C;

/// Where the last interrupted program counter is shown.
pub const LAST_PC_PA: usize = 0x0190_040C;

/// Ticks from `b` to `a` on a clock that wraps around.
pub open spec fn ticks_between(a: u64, b: u64) -> int {
    (a - b) % 0x1_0000_0000_0000_0000
}

/// Whole ticks in a duration.
pub open spec fn ticks_of(nanos: int) -> int {
    nanos * 25_000_000 / 1_000_000_000
}

/// Converts a duration to clock ticks; a count beyond 64 bits loses its upper part.
pub fn duration_to_ticks(nanos: u128) -> (ticks: u64)
    requires
        nanos * 25_000_000 <= u128::MAX,
    ensures
        ticks == ticks_of(nanos as int) % 0x1_0000_0000_0000_0000,
{
    (nanos * 25_000_000 / 1_000_000_000 % 0x1_0000_0000_0000_0000) as u64
}

/// The tick at which a delay that starts at `now` is over.
pub fn delay(now: u64, nanos: u128) -> (target: u64)
    requires
        nanos * 25_000_000 <= u128::MAX,
    ensures
        target == (now + ticks_of(nanos as int)) % 0x1_0000_0000_0000_0000,
{
    let t: u64 = duration_to_ticks(nanos);
    now.wrapping_add(t)
}

/// Whether a delay that ends at tick `target` is over at tick `now`: `target` lies less than half
/// a clock period back.
pub fn delay_over(now: u64, target: u64) -> (r: bool)
    ensures
        r == (ticks_between(now, target) < 0x8000_0000_0000_0000),
{
    now.wrapping_sub(target) < 0x8000_0000_0000_0000
}

/// A delay of less than half a clock period is over exactly when its ticks have passed, also
/// where the clock wraps around in between.
pub proof fn law_delay_is_exact(start: u64, ticks: int, passed: int)
    requires
        0 <= ticks < 0x8000_0000_0000_0000,
        0 <= passed < 0x8000_0000_0000_0000,
    ensures
        ({
            let target = ((start + ticks) % 0x1_0000_0000_0000_0000) as u64;
            let now = ((start + passed) % 0x1_0000_0000_0000_0000) as u64;
            ticks_between(now, target) < 0x8000_0000_0000_0000 <==> passed >= ticks
        }),
{
}

/// The time that has passed from tick `t0` to tick `now`, in nanoseconds; a time beyond 64 bits
/// counts as the greatest one.
pub fn elapsed_since(now: u64, t0: u64) -> (nanos: u64)
    ensures
        nanos == (if ticks_between(now, t0) * 40 <= u64::MAX {
            ticks_between(now, t0) * 40
        } else {
            u64::MAX as int
        }),
{
    let ticks: u64 = now.wrapping_sub(t0);
    let nanos: u128 = ticks as u128 * 1_000_000_000 / 25_000_000;
    if nanos <= u64::MAX as u128 {
        nanos as u64
    } else {
        u64::MAX
    }
}

/// The comparator set to `next`, low word first.
pub open spec fn comparator_script(next: int) -> Seq<HwOp> {
    seq![
        HwOp::Write { addr: CLINT_MTIMECMP_LO, value: (next % 0x1_0000_0000) as u32 },
        HwOp::Write { addr: CLINT_MTIMECMP_HI, value: (next / 0x1_0000_0000) as u32 },
    ]
}

/// The tick of the heartbeat after `now`.
pub open spec fn next_beat(now: u64) -> int {
    (now + HEARTBEAT_INTERVAL_TICKS) % 0x1_0000_0000_0000_0000
}

/// Sets the comparator to one heartbeat after `now`.
pub fn rearm(now: u64) -> (ops: Vec<HwOp>)
    ensures
        ops@ == comparator_script(next_beat(now)),
{
    let next: u64 = now.wrapping_add(HEARTBEAT_INTERVAL_TICKS);
    let mut ops: Vec<HwOp> = Vec::new();
    ops.push(HwOp::Write { addr: CLINT_MTIMECMP_LO, value: low32(next) });
    ops.push(HwOp::Write { addr: CLINT_MTIMECMP_HI, value: high32(next) });
    ops
}

/// Clears what the heartbeat shows and arms the comparator. The timer interrupt is enabled and
/// the watchdog started behind it.
pub fn init_heartbeat(now: u64) -> (ops: Vec<HwOp>)
    ensures
        ops@ == seq![
            HwOp::Write { addr: HEARTBEAT_PA, value: 0 },
            HwOp::Write { addr: LAST_PC_PA, value: 0 },
        ] + comparator_script(next_beat(now)),
{
    let mut ops: Vec<HwOp> = Vec::new();
    ops.push(HwOp::Write { addr: HEARTBEAT_PA, value: 0 });
    ops.push(HwOp::Write { addr: LAST_PC_PA, value: 0 });
    let mut tail: Vec<HwOp> = rearm(now);
    ops.append(&mut tail);
    ops
}

/// One heartbeat, with the interrupted program counter `pc`: the watchdog is fed first, then the
/// beat is counted, the program counter shown and the comparator armed again.
pub fn heartbeat_tick(pc: u64, now: u64) -> (ops: Vec<HwOp>)
    ensures
        ops@ == wdt::kick_script() + seq![
            HwOp::Increment { addr: HEARTBEAT_PA },
            HwOp::Write { addr: LAST_PC_PA, value: (pc % 0x1_0000_0000) as u32 },
        ] + comparator_script(next_beat(now)),
{
    let mut ops: Vec<HwOp> = wdt::kick();
    ops.push(HwOp::Increment { addr: HEARTBEAT_PA });
    ops.push(HwOp::Write { addr: LAST_PC_PA, value: low32(pc) });
    let mut tail: Vec<HwOp> = rearm(now);
    ops.append(&mut tail);
    assert(ops@ =~= wdt::kick_script() + seq![
        HwOp::Increment { addr: HEARTBEAT_PA },
        HwOp::Write { addr: LAST_PC_PA, value: (pc % 0x1_0000_0000) as u32 },
    ] + comparator_script(next_beat(now)));
    ops
}

/// A tick takes 40 nanoseconds, and only whole ticks count.
pub proof fn law_tick_takes_forty_nanoseconds(nanos: int)
    requires
        0 <= nanos,
    ensures
        40 * ticks_of(nanos) <= nanos < 40 * ticks_of(nanos) + 40,
{
}

/// The next heartbeat comes ten milliseconds after `now`: the two words of the comparator give its
/// tick.
pub proof fn law_heartbeat_comes_every_ten_milliseconds(now: u64)
    ensures
        ({
            let s = comparator_script(next_beat(now));
            let (lo, hi) = (s[0]->Write_value, s[1]->Write_value);
            &&& s.len() == 2
            &&& s[0]->Write_addr == 0x7400_4000 && s[1]->Write_addr == 0x7400_4004
            &&& ticks_between(
                (lo + 0x1_0000_0000 * hi) as u64,
                now,
            ) * 40 == 10_000_000
        }),
{
}

} // verus!
