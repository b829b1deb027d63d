//! The DWC2 host controller. Channel 0 carries control transfers, channel 1 video.

pub mod bring_up;
pub mod ch;
pub mod control;
pub mod controller;
pub mod cv182x;
pub mod dma;
pub mod isoch;
pub mod regs;
