//! Preferences that are set one by one, before streams are looked at.

use vstd::prelude::*;

verus! {

/// Preferences for streams; 0 stands for none.
#[derive(Clone, Copy, Debug, PartialEq, Eq, Structural)]
pub struct Preferred {
    pub max_pixels: u32,
    pub frame_w: u16,
    pub frame_h: u16,
    /// In ticks of 100 ns.
    pub frame_interval: u32,
}

impl Preferred {
    /// No preferences.
    pub fn none() -> (p: Preferred)
        ensures
            p == (Preferred { max_pixels: 0, frame_w: 0, frame_h: 0, frame_interval: 0 }),
    {
        Preferred { max_pixels: 0, frame_w: 0, frame_h: 0, frame_interval: 0 }
    }
}

/// Prefers frames of at most this many pixels.
pub fn set_preferred_max_pixels(p: &mut Preferred, pixels: u32)
    ensures
        *final(p) == (Preferred { max_pixels: pixels, ..*old(p) }),
{
    p.max_pixels = pixels;
}

/// Prefers frames of exactly this size.
pub fn set_preferred_frame_size(p: &mut Preferred, w: u16, h: u16)
    ensures
        *final(p) == (Preferred { frame_w: w, frame_h: h, ..*old(p) }),
{
    p.frame_w = w;
    p.frame_h = h;
}

/// Prefers this frame interval.
pub fn set_preferred_frame_interval(p: &mut Preferred, iv: u32)
    ensures
        *final(p) == (Preferred { frame_interval: iv, ..*old(p) }),
{
    p.frame_interval = iv;
}

} // verus!
