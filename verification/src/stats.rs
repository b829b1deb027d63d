//! Counters in shared memory, which the big core reads.

use crate::hw::HwOp;
use crate::registers::low32;
use vstd::prelude::*;

verus! {

/// Where the counters lie.
pub const STATS_PA: usize = 0x8FFF_E040;

/// The word that marks the counters as valid.
pub const STATS_MAGIC: u32 = 0x5354_4154;

/// Bytes of the counters.
pub const STATS_BYTES: usize = 48;

/// Where the JPEG unit's step number goes.
pub const TRACE_PA: usize = STATS_PA + 32;

/// A frame is about to be captured.
pub const STAGE_CAPTURE: u32 = 1;

/// A frame was captured.
pub const STAGE_GOT_FRAME: u32 = 2;

/// The frame is about to be decoded.
pub const STAGE_DECODE: u32 = 3;

/// The big core is about to be told.
pub const STAGE_NOTIFY: u32 = 4;

/// A round is over.
pub const STAGE_DONE: u32 = 5;

/// The counters, a word each, in this order.
#[derive(Clone, Copy, Debug, PartialEq, Eq, Structural)]
pub struct Stats {
    pub magic: u32,
    pub loop_iters: u32,
    pub cap_ok: u32,
    pub cap_err: u32,
    pub jpu_ok: u32,
    pub jpu_err: u32,
    pub jpu_reset: u32,
    pub stage: u32,
    pub jpu_trace: u32,
    pub time_lo: u32,
    pub poll_count: u32,
    pub poll_time: u32,
}

/// Address of word `k`.
pub open spec fn word_pa(k: int) -> usize {
    (STATS_PA + 4 * k) as usize
}

/// Writing the counters back to memory.
pub open spec fn flush_op() -> HwOp {
    HwOp::CleanCache { start: STATS_PA, size: STATS_BYTES }
}

/// Clearing the counters; the mark comes last.
pub open spec fn init_script() -> Seq<HwOp> {
    Seq::new(11, |k: int| HwOp::Write { addr: word_pa(k + 1), value: 0 }) + seq![
        HwOp::Write { addr: STATS_PA, value: STATS_MAGIC },
        flush_op(),
    ]
}

/// Counting in word `k`.
pub open spec fn bump_script(k: int) -> Seq<HwOp> {
    seq![HwOp::Increment { addr: word_pa(k) }, flush_op()]
}

/// Clears the counters and marks them as valid.
pub fn init() -> (ops: Vec<HwOp>)
    ensures
        ops@ == init_script(),
{
    let mut ops: Vec<HwOp> = Vec::new();
    let mut k: usize = 0;
    while k < 11
        invariant
            k <= 11,
            ops@ == init_script().take(k as int),
        decreases 11 - k,
    {
        ops.push(HwOp::Write { addr: STATS_PA + 4 * (k + 1), value: 0 });
        k = k + 1;
        assert(ops@ =~= init_script().take(k as int));
    }
    ops.push(HwOp::Write { addr: STATS_PA, value: STATS_MAGIC });
    ops.push(HwOp::CleanCache { start: STATS_PA, size: STATS_BYTES });
    assert(ops@ =~= init_script());
    ops
}

/// Counts in one word.
fn bump(k: usize) -> (ops: Vec<HwOp>)
    requires
        k < 12,
    ensures
        ops@ == bump_script(k as int),
{
    let mut ops: Vec<HwOp> = Vec::new();
    ops.push(HwOp::Increment { addr: STATS_PA + 4 * k });
    ops.push(HwOp::CleanCache { start: STATS_PA, size: STATS_BYTES });
    ops
}

/// Counts a round of the main loop.
pub fn inc_loop() -> (ops: Vec<HwOp>)
    ensures
        ops@ == bump_script(1),
{
    bump(1)
}

/// Counts a captured frame.
pub fn inc_cap_ok() -> (ops: Vec<HwOp>)
    ensures
        ops@ == bump_script(2),
{
    bump(2)
}

/// Counts a capture that failed.
pub fn inc_cap_err() -> (ops: Vec<HwOp>)
    ensures
        ops@ == bump_script(3),
{
    bump(3)
}

/// Counts a decoded frame.
pub fn inc_jpu_ok() -> (ops: Vec<HwOp>)
    ensures
        ops@ == bump_script(4),
{
    bump(4)
}

/// Counts a decode that failed.
pub fn inc_jpu_err() -> (ops: Vec<HwOp>)
    ensures
        ops@ == bump_script(5),
{
    bump(5)
}

/// Counts a reset of the JPEG unit.
pub fn inc_jpu_reset() -> (ops: Vec<HwOp>)
    ensures
        ops@ == bump_script(6),
{
    bump(6)
}

/// Writes one word and writes the counters back.
fn put_word(k: usize, value: u32) -> (ops: Vec<HwOp>)
    requires
        k < 12,
    ensures
        ops@ == seq![HwOp::Write { addr: word_pa(k as int), value }, flush_op()],
{
    let mut ops: Vec<HwOp> = Vec::new();
    ops.push(HwOp::Write { addr: STATS_PA + 4 * k, value });
    ops.push(HwOp::CleanCache { start: STATS_PA, size: STATS_BYTES });
    ops
}

/// Records the lower half of the clock.
pub fn set_time_lo(now: u64) -> (ops: Vec<HwOp>)
    ensures
        ops@ == seq![
            HwOp::Write { addr: word_pa(9), value: (now % 0x1_0000_0000) as u32 },
            flush_op(),
        ],
{
    put_word(9, low32(now))
}

/// Records the stage that the main loop has reached.
pub fn set_stage(s: u32) -> (ops: Vec<HwOp>)
    ensures
        ops@ == seq![HwOp::Write { addr: word_pa(7), value: s }, flush_op()],
{
    put_word(7, s)
}

/// Counters lie four bytes apart from 8fffe040 on, behind the mark; a count is written back to
/// memory with all of them.
pub proof fn law_counters_lie_in_memory(k: int)
    requires
        0 <= k < 12,
    ensures
        bump_script(k) =~= seq![
            HwOp::Increment { addr: (0x8FFF_E040 + 4 * k) as usize },
            HwOp::CleanCache { start: 0x8FFF_E040, size: 48 },
        ],
        k > 0 ==> init_script()[k - 1] == (HwOp::Write {
            addr: (0x8FFF_E040 + 4 * k) as usize,
            value: 0,
        }),
        init_script()[11] == (HwOp::Write { addr: 0x8FFF_E040, value: 0x5354_4154 }),
        init_script()[12] == (HwOp::CleanCache { start: 0x8FFF_E040, size: 48 }),
        init_script().len() == 13,
{
}

} // verus!
