//! The USB host stack.

pub mod device;
pub mod dwc2;
pub mod enumerate;
pub mod hub;
pub mod root;
pub mod setup;
pub mod topology;
pub mod tour;
pub mod uvc;
