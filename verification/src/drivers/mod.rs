//! Device drivers.

pub mod gpio;
pub mod ive;
pub mod jpu;
pub mod mailbox;
pub mod pinmux;
pub mod usb;
pub mod wdt;
