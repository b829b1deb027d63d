//! Hardware steps as values, and the rules by which waiting ends.

use crate::error::UsbError;
use crate::registers::merged;
use vstd::prelude::*;

verus! {

/// One step on the hardware. A list of them is performed in order.
#[derive(Clone, Copy, Debug, PartialEq, Eq)]
pub enum HwOp {
    /// Store `value` at `addr`.
    Write { addr: usize, value: u32 },
    /// Load from `addr`, replace the bits under `mask` by `value`, store back.
    Modify { addr: usize, mask: u32, value: u32 },
    /// Load from `addr`; where a bit under `test` is set, replace the bits under `mask` by `value`
    /// and store back.
    ModifyIfSet { addr: usize, test: u32, mask: u32, value: u32 },
    /// Load from `addr`, add one with wrap-around, store back.
    Increment { addr: usize },
    /// Load from `addr` and forget the value.
    Read { addr: usize },
    /// Wait for this many nanoseconds.
    Delay { nanos: u64 },
    /// Spin this many times.
    Spin { iters: u32 },
    /// Order memory accesses before and after.
    Fence,
    /// Write the cache lines of `[start, start + size)` back to memory.
    CleanCache { start: usize, size: usize },
    /// Forget the cache lines of `[start, start + size)`.
    InvalidateCache { start: usize, size: usize },
    /// Copy the first `len` bytes of the data at hand to `addr`.
    CopyIn { addr: usize, len: usize },
    /// Load from `addr` until the bits under `mask` are set (or clear, where `set` is false), or
    /// until `timeout_nanos` have passed; go on either way.
    Wait { addr: usize, mask: u32, set: bool, timeout_nanos: u64 },
    /// As `Wait`, at most `iters` times with `spin` spins in between; where the bits never come,
    /// the whole list ends with `error`.
    Poll { addr: usize, mask: u32, set: bool, iters: u32, spin: u32, error: UsbError },
}

/// What a waiting loop does next.
#[derive(Clone, Copy, Debug, PartialEq, Eq, Structural)]
pub enum WaitStep {
    /// The condition holds.
    Done,
    /// Look again.
    Again,
    /// Time is up.
    Expired,
}

/// Whether the bits under `mask` in `raw` are as `set` asks.
pub open spec fn bits_are(raw: u32, mask: u32, set: bool) -> bool {
    (raw & mask != 0) == set
}

/// One round of [`HwOp::Wait`]: the clock is looked at before the register.
pub fn wait_step(
    raw: u32,
    mask: u32,
    set: bool,
    elapsed_nanos: u64,
    timeout_nanos: u64,
) -> (r: WaitStep)
    ensures
        r == (if elapsed_nanos >= timeout_nanos {
            WaitStep::Expired
        } else if bits_are(raw, mask, set) {
            WaitStep::Done
        } else {
            WaitStep::Again
        }),
{
    if elapsed_nanos >= timeout_nanos {
        WaitStep::Expired
    } else if (raw & mask != 0) == set {
        WaitStep::Done
    } else {
        WaitStep::Again
    }
}

/// One round of [`HwOp::Poll`], with `left` rounds to go including this one.
pub fn poll_until(raw: u32, mask: u32, set: bool, left: u32) -> (r: WaitStep)
    ensures
        r == (if left == 0 {
            WaitStep::Expired
        } else if bits_are(raw, mask, set) {
            WaitStep::Done
        } else {
            WaitStep::Again
        }),
{
    if left == 0 {
        WaitStep::Expired
    } else if (raw & mask != 0) == set {
        WaitStep::Done
    } else {
        WaitStep::Again
    }
}

/// What [`HwOp::Modify`] stores over `old`.
pub fn modified(old: u32, mask: u32, value: u32) -> (r: u32)
    ensures
        r == merged(old, mask, value),
{
    (old & !mask) | value
}

} // verus!
