//! The window of memory that the controller reads and writes: a small area for control transfers,
//! then a work area for one microframe, then the frame under assembly.

use crate::error::{UsbError, UsbResult};
use crate::registers::low32;
use vstd::prelude::*;

verus! {

/// Size of the area for control transfers.
pub const EP0_REGION_BYTES: usize = 1024;

/// Where the area for video begins.
pub const DMA_OFF_UVC_BULK: usize = EP0_REGION_BYTES;

/// Size of the area for video.
pub const UVC_BULK_DMA_CAP: usize = 393_216;

/// Size of the window.
pub const DMA_BUF_TOTAL: usize = EP0_REGION_BYTES + UVC_BULK_DMA_CAP;

/// Where SETUP packets go.
pub const OFF_EP0: usize = 0;

/// Where the data of control transfers goes.
pub const DMA_OFF_SMALL_IO: usize = 256;

pub const ERR_WRITE_OVERFLOW: &'static str = "dma write overflow";

pub const ERR_WRITE_RANGE: &'static str = "dma write out of buf";

/// The address that the controller gets for offset `off` of a window at `base`.
pub open spec fn phys_of(base: usize, off: int) -> u32 {
    ((base + off) % 0x1_0000_0000) as u32
}

/// The address that the controller gets for an offset of the window; it is 32 bits wide.
pub fn dma_phys(base: usize, off: usize) -> (r: u32)
    requires
        base + off <= usize::MAX,
    ensures
        r == phys_of(base, off as int),
{
    low32((base + off) as u64)
}

/// Whether `len` bytes at `off` can be looked at.
pub open spec fn readable(off: int, len: int) -> bool {
    0 < len && off + len <= DMA_BUF_TOTAL
}

/// The bytes `[off, off + len)` of the window; `None` where there are none or they lead out of
/// it.
pub fn dma_rx_slice(window: &[u8], off: usize, len: usize) -> (r: Option<&[u8]>)
    requires
        window@.len() == DMA_BUF_TOTAL,
    ensures
        r is Some <==> readable(off as int, len as int),
        r matches Some(s) ==> s@ == window@.subrange(off as int, off + len),
{
    if len == 0 {
        return None;
    }
    match off.checked_add(len) {
        None => None,
        Some(end) => {
            if end > DMA_BUF_TOTAL {
                None
            } else {
                Some(vstd::slice::slice_subrange(window, off, end))
            }
        },
    }
}

/// What a write of `src` at `off` returns.
pub open spec fn write_outcome(off: int, len: int) -> UsbResult<()> {
    if off + len > usize::MAX {
        Err(UsbError::Protocol(ERR_WRITE_OVERFLOW))
    } else if off + len > DMA_BUF_TOTAL {
        Err(UsbError::Protocol(ERR_WRITE_RANGE))
    } else {
        Ok(())
    }
}

/// `w` with `src` written over it at `off`.
pub open spec fn written(w: Seq<u8>, off: int, src: Seq<u8>) -> Seq<u8> {
    Seq::new(
        w.len(),
        |i: int|
            if off <= i < off + src.len() {
                src[i - off]
            } else {
                w[i]
            },
    )
}

/// Writes `src` into the window at `off`, where it has room.
pub fn dma_write_at(window: &mut Vec<u8>, off: usize, src: &[u8]) -> (r: UsbResult<()>)
    requires
        old(window)@.len() == DMA_BUF_TOTAL,
    ensures
        final(window)@.len() == DMA_BUF_TOTAL,
        r == write_outcome(off as int, src@.len() as int),
        r is Ok ==> final(window)@ == written(old(window)@, off as int, src@),
        r is Err ==> final(window)@ == old(window)@,
{
    let end: usize = match off.checked_add(src.len()) {
        None => {
            return Err(UsbError::Protocol(ERR_WRITE_OVERFLOW));
        },
        Some(e) => e,
    };
    if end > DMA_BUF_TOTAL {
        return Err(UsbError::Protocol(ERR_WRITE_RANGE));
    }
    let ghost before = window@;
    let mut i: usize = 0;
    while i < src.len()
        invariant
            i <= src@.len(),
            off + src@.len() <= DMA_BUF_TOTAL,
            before.len() == DMA_BUF_TOTAL,
            window@ == written(before, off as int, src@.take(i as int)),
        decreases src@.len() - i,
    {
        window[off + i] = src[i];
        i = i + 1;
        assert(window@ =~= written(before, off as int, src@.take(i as int)));
    }
    assert(src@.take(i as int) =~= src@);
    Ok(())
}

/// What was written is read back, and nothing else changes.
pub proof fn law_write_then_read(w: Seq<u8>, off: int, src: Seq<u8>)
    requires
        0 <= off,
        off + src.len() <= w.len(),
    ensures
        written(w, off, src).subrange(off, off + src.len()) == src,
        forall|i: int|
            0 <= i < w.len() && !(off <= i < off + src.len()) ==> #[trigger] written(
                w,
                off,
                src,
            )[i] == w[i],
{
    assert(written(w, off, src).subrange(off, off + src.len()) =~= src);
}

/// The controller gets the lower 32 bits of the address, and bytes can be looked at where there
/// are any and they end within the 394240 bytes of the window; a write must end there too.
pub proof fn law_window(base: usize, off: int, len: int)
    requires
        0 <= off,
        0 <= len,
    ensures
        base + off <= u32::MAX ==> phys_of(base, off) == base + off,
        readable(off, len) <==> len > 0 && off + len <= 394240,
        write_outcome(off, len) is Ok <==> off + len <= 394240,
{
}

} // verus!
