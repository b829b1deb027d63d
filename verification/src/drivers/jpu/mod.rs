//! The JPEG unit.

pub mod decoder;
pub mod format;
pub mod header;
pub mod mem;
pub mod regs;
pub mod session;
pub mod trace;
pub mod upload;
