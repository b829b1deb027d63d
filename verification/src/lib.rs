//! cvirtos: the logic of a bare-metal firmware for the small core of an SG2002.
//!
//! The firmware grabs MJPEG frames from a USB camera, has the JPEG unit decode them into shared
//! memory, has the image engine convert them, and tells the big core through a mailbox. This
//! crate holds what the firmware decides and computes: parsers, register values, register
//! scripts and state machines. Nothing here touches hardware; a thin program around the crate
//! performs the [`hw::HwOp`]s and hands back what it read.

pub mod arch;
pub mod b2s;
pub mod drivers;
pub mod error;
pub mod fault;
pub mod hw;
pub mod ipc;
pub mod logger;
pub mod pieces;
pub mod platform;
pub mod registers;
pub mod stats;
pub mod text;
pub mod task;
pub mod yuv_buf;
