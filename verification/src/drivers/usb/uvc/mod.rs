//! USB video cameras.

pub mod camera;
pub mod capture;
pub mod control;
pub mod descriptor;
pub mod open;
pub mod prefs;
pub mod session;
pub mod setup;
pub mod stream;
