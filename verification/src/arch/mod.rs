//! The core: clock, cache, traps and interrupts.

pub mod cache;
pub mod plic;
pub mod time;
pub mod trap;
