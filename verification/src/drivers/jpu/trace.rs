//! How long the steps of a decode take.

use vstd::prelude::*;

verus! {

/// Number of steps.
pub const STEPS: usize = 17;

pub const COPY_STREAM: u32 = 3;

pub const CLEAN_STREAM: u32 = 4;

pub const INV_FRAME: u32 = 8;

pub const POLL: u32 = 14;

pub const INV_AFTER: u32 = 15;

/// Ticks that each step has taken since they were taken out, and when the last step ended.
pub struct StepTrace {
    pub ticks: [u32; 17],
    pub last: u64,
}

/// The ticks of all steps after a step has ended at tick `now`, where the one before it ended at
/// `last`.
pub open spec fn ticks_marked(ticks: Seq<u32>, last: u64, step: u32, now: u64) -> Seq<u32> {
    if last != 0 && now > last && step < 17 {
        ticks.update(
            step as int,
            ((ticks[step as int] + (now - last)) % 0x1_0000_0000) as u32,
        )
    } else {
        ticks
    }
}

/// The time of two steps that end one after the other goes to them, each its own; no other step
/// gets any of it.
pub proof fn law_time_goes_to_its_step(
    ticks: Seq<u32>,
    began: u64,
    first: u32,
    mid: u64,
    second: u32,
    end: u64,
    k: int,
)
    requires
        ticks.len() == 17,
        first < 17,
        second < 17,
        0 < began < mid < end,
        forall|i: int| 0 <= i < 17 ==> #[trigger] ticks[i] + (end - began) <= u32::MAX,
        0 <= k < 17,
    ensures
        ({
            let after = ticks_marked(ticks_marked(ticks, began, first, mid), mid, second, end);
            &&& after.len() == 17
            &&& after[k] - ticks[k] == (if k == first {
                mid - began
            } else {
                0
            }) + (if k == second {
                end - mid
            } else {
                0
            })
        }),
{
    assert(ticks[first as int] + (end - began) <= u32::MAX);
    assert(ticks[second as int] + (end - began) <= u32::MAX);
}

/// The first step ever, a clock that has not moved and a step that is not known add nothing.
pub proof fn law_nothing_is_timed(ticks: Seq<u32>, last: u64, step: u32, now: u64)
    requires
        last == 0 || now <= last || step >= 17,
    ensures
        ticks_marked(ticks, last, step, now) == ticks,
{
}

impl StepTrace {
    /// Nothing was timed yet.
    pub fn new() -> (t: StepTrace)
        ensures
            t.ticks@ == Seq::new(17, |k: int| 0u32),
            t.last == 0,
    {
        let t = StepTrace { ticks: [0u32; 17], last: 0 };
        assert(t.ticks@ =~= Seq::new(17, |k: int| 0u32));
        t
    }

    /// The step ends at tick `now`: the time since the last step ended is added to it, modulo a
    /// word. The first step ever, and a clock that has not moved, add nothing.
    pub fn mark_timed(&mut self, step: u32, now: u64)
        ensures
            final(self).last == now,
            final(self).ticks@ == ticks_marked(old(self).ticks@, old(self).last, step, now),
            final(self).ticks@ == (if old(self).last != 0 && now > old(self).last && step < 17 {
                old(self).ticks@.update(
                    step as int,
                    ((old(self).ticks@[step as int] + (now - old(self).last)) % 0x1_0000_0000) as u32,
                )
            } else {
                old(self).ticks@
            }),
    {
        let prev: u64 = self.last;
        self.last = now;
        if prev != 0 && now > prev && (step as usize) < STEPS {
            let spent: u32 = ((now - prev) % 0x1_0000_0000) as u32;
            let k: usize = step as usize;
            self.ticks[k] = self.ticks[k].wrapping_add(spent);
        }
    }
}

/// Takes the ticks of a step out; an unknown step has none.
pub fn take_step_ticks(t: &mut StepTrace, step: u32) -> (r: u32)
    ensures
        final(t).last == old(t).last,
        step < 17 ==> r == old(t).ticks@[step as int] && final(t).ticks@ == old(t).ticks@.update(
            step as int,
            0,
        ),
        step >= 17 ==> r == 0 && final(t).ticks@ == old(t).ticks@,
{
    let k: usize = step as usize;
    if k < STEPS {
        let r: u32 = t.ticks[k];
        t.ticks[k] = 0;
        r
    } else {
        0
    }
}

} // verus!
