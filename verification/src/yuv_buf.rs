//! Where the planes of a shared frame lie.

use crate::drivers::jpu::decoder::{layout_fits, layout_of};
use crate::drivers::jpu::header::{HeaderView, FORMAT_422};
use vstd::prelude::*;

verus! {

/// Bytes of a plane of full size.
pub open spec fn full_plane(w: u32, h: u32) -> int {
    w * h
}

/// Bytes of a colour plane, which has half the columns and all the lines.
pub open spec fn half_plane(w: u32, h: u32) -> int {
    (w / 2) * h
}

/// A colour plane is at most half a plane of full size.
proof fn lemma_half(w: u32, h: u32)
    ensures
        0 <= 2 * half_plane(w, h) <= full_plane(w, h),
        0 <= half_plane(w, h),
        w % 2 == 0 ==> 2 * half_plane(w, h) == full_plane(w, h),
{
    let (c, b, a) = ((w / 2) as int, h as int, w as int);
    assert(0 <= c * b && 2 * (c * b) <= a * b) by (nonlinear_arith)
        requires
            0 <= c,
            2 * c <= a,
            0 <= b,
    ;
    if w % 2 == 0 {
        assert(2 * (c * b) == a * b) by (nonlinear_arith)
            requires
                2 * c == a,
        ;
    }
}

/// The addresses of the Y, U and V planes of a 4:2:2 frame of `w` by `h` at `pa`.
pub fn yuv_planes(pa: usize, w: u32, h: u32) -> (r: (usize, usize, usize))
    requires
        w * h <= u32::MAX,
        pa + full_plane(w, h) + half_plane(w, h) <= usize::MAX,
    ensures
        r.0 == pa,
        r.1 == pa + full_plane(w, h),
        r.2 == pa + full_plane(w, h) + half_plane(w, h),
{
    proof {
        lemma_half(w, h);
    }
    let y: usize = pa;
    let u: usize = pa + (w * h) as usize;
    let v: usize = u + ((w / 2) * h) as usize;
    (y, u, v)
}

/// The addresses of the R, G and B planes of a frame of `w` by `h` at `pa`.
pub fn rgb_planes(pa: usize, w: u32, h: u32) -> (r: (usize, usize, usize))
    requires
        w * h <= u32::MAX,
        pa + 2 * full_plane(w, h) <= usize::MAX,
    ensures
        r.0 == pa,
        r.1 == pa + full_plane(w, h),
        r.2 == pa + 2 * full_plane(w, h),
{
    let plane: usize = (w * h) as usize;
    (pa, pa + plane, pa + 2 * plane)
}

/// The planes of a 4:2:2 frame fill two planes of full size where the width is even, and never
/// more.
pub proof fn law_yuv_planes_fit(w: u32, h: u32)
    ensures
        full_plane(w, h) + 2 * half_plane(w, h) <= 2 * full_plane(w, h),
        w % 2 == 0 ==> full_plane(w, h) + 2 * half_plane(w, h) == 2 * full_plane(w, h),
{
    lemma_half(w, h);
}

/// The planes are where the JPEG unit puts them: for a 4:2:2 image of whole blocks, the decoder's
/// planes begin at the addresses that [`yuv_planes`] gives.
pub proof fn law_planes_match_decoder(h: HeaderView)
    requires
        layout_fits(h),
        h.format == FORMAT_422,
        h.width % 16 == 0,
        h.height % 8 == 0,
    ensures
        layout_of(h).luma_size == full_plane(h.width, h.height),
        layout_of(h).chroma_size == half_plane(h.width, h.height),
        layout_of(h).stride_y == h.width,
        layout_of(h).stride_c == h.width / 2,
{
    lemma_half(h.width, h.height);
}

} // verus!
