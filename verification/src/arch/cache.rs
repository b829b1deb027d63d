//! Cache maintenance by lines.

use vstd::prelude::*;

verus! {

/// Bytes in a cache line.
pub const CACHE_LINE: usize = 64;

/// Start of the cache line that holds byte `addr`.
pub open spec fn line_of(addr: int) -> int {
    addr - addr % 64
}

/// Start addresses of the cache lines that `[start, start + size)` touches, in order.
pub open spec fn lines_of(start: int, size: int) -> Seq<usize> {
    if size <= 0 {
        Seq::empty()
    } else {
        Seq::new(
            ((start + size - 1) / 64 - start / 64 + 1) as nat,
            |k: int| (line_of(start) + 64 * k) as usize,
        )
    }
}

/// The lines that `[start, start + size)` touches. Nothing is to be done, and no fence needed,
/// where there are none.
fn lines(start: usize, size: usize) -> (r: Vec<usize>)
    requires
        start + size + 63 <= usize::MAX,
    ensures
        r@ == lines_of(start as int, size as int),
{
    let mut r: Vec<usize> = Vec::new();
    if size == 0 {
        return r;
    }
    let mut addr: usize = start - start % CACHE_LINE;
    let end: usize = start + size;
    while addr < end
        invariant
            size > 0,
            end == start + size,
            end + 63 <= usize::MAX,
            addr == line_of(start as int) + 64 * r@.len(),
            addr < end + 64,
            r@.len() <= (start + size - 1) as int / 64 - start as int / 64 + 1,
            forall|k: int| 0 <= k < r@.len() ==> r@[k] == line_of(start as int) + 64 * k,
        decreases end + 64 - addr,
    {
        r.push(addr);
        addr = addr + CACHE_LINE;
    }
    assert(r@ =~= lines_of(start as int, size as int));
    r
}

/// The lines to write back so that a device reads `[start, start + size)` as the core wrote it.
pub fn dcache_clean_range(start: usize, size: usize) -> (r: Vec<usize>)
    requires
        start + size + 63 <= usize::MAX,
    ensures
        r@ == lines_of(start as int, size as int),
{
    lines(start, size)
}

/// The lines to forget so that the core reads `[start, start + size)` as a device wrote it.
pub fn dcache_invalidate_range(start: usize, size: usize) -> (r: Vec<usize>)
    requires
        start + size + 63 <= usize::MAX,
    ensures
        r@ == lines_of(start as int, size as int),
{
    lines(start, size)
}

/// Every byte of a range lies in exactly one of the lines for the range, and no line lies wholly
/// outside of it.
pub proof fn law_lines_cover(start: int, size: int, byte: int)
    requires
        0 <= start,
        start + size + 63 <= usize::MAX,
        start <= byte < start + size,
    ensures
        ({
            let k = byte / 64 - start / 64;
            &&& 0 <= k < lines_of(start, size).len()
            &&& lines_of(start, size)[k] <= byte < lines_of(start, size)[k] + 64
        }),
        forall|k: int|
            0 <= k < lines_of(start, size).len() ==> {
                &&& #[trigger] lines_of(start, size)[k] % 64 == 0
                &&& lines_of(start, size)[k] < start + size
                &&& lines_of(start, size)[k] + 64 > start
            },
{
}

} // verus!
