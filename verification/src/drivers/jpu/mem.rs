//! Memory that the JPEG unit can reach, given out in pages.

use crate::drivers::jpu::regs::{JPU_DRAM_PHYSICAL_SIZE, VMEM_PAGE_SIZE};
use crate::hw::HwOp;
use vstd::prelude::*;

verus! {

/// Most pages of a pool.
pub const MAX_PAGES: usize = 64;

/// A range of memory.
#[derive(Clone, Copy, Debug, PartialEq, Eq, Structural)]
pub struct PhysBuffer {
    pub addr: usize,
    pub size: usize,
}

/// Whether a buffer stands for nothing.
pub open spec fn empty_buffer(b: PhysBuffer) -> bool {
    b.addr == 0 || b.size == 0
}

impl PhysBuffer {
    /// Whether the buffer stands for nothing.
    pub fn is_empty(&self) -> (r: bool)
        ensures
            r == empty_buffer(*self),
    {
        self.addr == 0 || self.size == 0
    }
}

/// Bit `k` of a word.
pub open spec fn bit64(w: u64, k: int) -> bool {
    w & (1u64 << (k as u64)) != 0
}

/// A pool of pages. Bit `k` of the map is set where page `k` is free.
pub struct JpuMemoryPool {
    base_addr: usize,
    size: usize,
    num_pages: usize,
    bitmap: u64,
}

/// Contents of a [`JpuMemoryPool`].
#[verifier::ext_equal]
pub struct PoolView {
    pub base: int,
    pub pages: int,
    /// Which of the 64 pages are free.
    pub free: Seq<bool>,
}

impl View for JpuMemoryPool {
    type V = PoolView;

    closed spec fn view(&self) -> PoolView {
        PoolView {
            base: self.base_addr as int,
            pages: self.num_pages as int,
            free: Seq::new(64, |k: int| bit64(self.bitmap, k)),
        }
    }
}

/// Pages that hold `size` bytes.
pub open spec fn pages_for(size: int) -> int {
    (size + VMEM_PAGE_SIZE - 1) / (VMEM_PAGE_SIZE as int)
}

/// Pages that must be free for a request of `n` pages; one is looked for even where none is
/// needed.
pub open spec fn pages_sought(n: int) -> int {
    if n > 0 {
        n
    } else {
        1
    }
}

/// Whether `need` pages from page `s` on are free.
pub open spec fn fits_at(p: PoolView, s: int, need: int) -> bool {
    0 <= s && s + need <= p.pages && forall|k: int| s <= k < s + need ==> #[trigger] p.free[k]
}

/// The pool after `n` pages from page `s` on were marked.
pub open spec fn marked(p: PoolView, s: int, n: int, free: bool) -> PoolView {
    PoolView {
        free: Seq::new(
            64,
            |k: int|
                if s <= k < s + n {
                    free
                } else {
                    p.free[k]
                },
        ),
        ..p
    }
}

/// The buffer of `n` pages from page `s` on.
pub open spec fn buffer_at(p: PoolView, s: int, n: int) -> PhysBuffer {
    PhysBuffer {
        addr: (p.base + s * VMEM_PAGE_SIZE) as usize,
        size: (n * VMEM_PAGE_SIZE) as usize,
    }
}

/// What freeing a buffer does: the pages it begins in and covers are free, as far as the pool
/// has them; a buffer from elsewhere is ignored.
pub open spec fn freed(p: PoolView, b: PhysBuffer) -> PoolView {
    if empty_buffer(b) || b.addr < p.base || b.addr >= p.base + p.pages * VMEM_PAGE_SIZE {
        p
    } else {
        let s = (b.addr - p.base) / (VMEM_PAGE_SIZE as int);
        let n = pages_for(b.size as int);
        let end = if s + n < p.pages {
            s + n
        } else {
            p.pages
        };
        marked(p, s, end - s, true)
    }
}

/// A pool that was just laid over `size` bytes from `base` on: it begins at a page boundary, has
/// at most 64 pages, and all of them are free.
pub open spec fn fresh_pool(base: int, size: int) -> PoolView {
    PoolView {
        base: pages_for(base) * VMEM_PAGE_SIZE,
        pages: if size < JPU_DRAM_PHYSICAL_SIZE {
            size / (VMEM_PAGE_SIZE as int)
        } else {
            64
        },
        free: Seq::new(64, |k: int| true),
    }
}

/// Setting or clearing one bit changes that bit and no other.
proof fn lemma_bit_update(w: u64, j: u64, k: u64)
    by (bit_vector)
    requires
        j < 64,
        k < 64,
    ensures
        ((w & !(1u64 << j)) & (1u64 << k) != 0) == (j != k && w & (1u64 << k) != 0),
        ((w | (1u64 << j)) & (1u64 << k) != 0) == (j == k || w & (1u64 << k) != 0),
        0xFFFF_FFFF_FFFF_FFFFu64 & (1u64 << k) != 0,
{
}

impl JpuMemoryPool {
    /// Whether the pool is in order: pages are counted by the size, the map covers them, and they
    /// lie in memory.
    pub closed spec fn wf(&self) -> bool {
        &&& self.num_pages <= MAX_PAGES
        &&& self.size == self.num_pages * VMEM_PAGE_SIZE
        &&& self.base_addr + self.size <= usize::MAX
    }

    /// What a pool in order has: at most 64 pages, a flag for each of 64, and all pages in memory.
    pub proof fn lemma_in_order(&self)
        requires
            self.wf(),
        ensures
            0 <= self@.pages <= 64,
            self@.free.len() == 64,
            0 <= self@.base,
            self@.base + self@.pages * VMEM_PAGE_SIZE <= usize::MAX,
    {
    }

    /// A pool without pages.
    pub fn new() -> (p: JpuMemoryPool)
        ensures
            p.wf(),
            p@.pages == 0,
            p@.base == 0,
            p@.free == Seq::new(64, |k: int| false),
    {
        let p = JpuMemoryPool { base_addr: 0, size: 0, num_pages: 0, bitmap: 0 };
        proof {
            assert forall|k: int| 0 <= k < 64 implies !bit64(0, k) by {
                let j = k as u64;
                assert(0u64 & (1u64 << j) == 0) by (bit_vector);
            }
            assert(p@.free =~= Seq::new(64, |k: int| false));
        }
        p
    }

    /// Takes over a range of memory: it begins at the next page boundary, and only whole pages
    /// count. All pages are free.
    fn init(&mut self, base: usize, size: usize)
        requires
            base + VMEM_PAGE_SIZE - 1 + size <= usize::MAX,
            size <= JPU_DRAM_PHYSICAL_SIZE,
        ensures
            final(self).wf(),
            final(self)@.base == pages_for(base as int) * VMEM_PAGE_SIZE,
            final(self)@.pages == size as int / VMEM_PAGE_SIZE as int,
            final(self)@.free == Seq::new(64, |k: int| true),
    {
        let up: usize = base + (VMEM_PAGE_SIZE - 1);
        self.base_addr = up - up % VMEM_PAGE_SIZE;
        self.size = size - size % VMEM_PAGE_SIZE;
        self.num_pages = self.size / VMEM_PAGE_SIZE;
        self.bitmap = 0xFFFF_FFFF_FFFF_FFFF;
        proof {
            assert forall|k: int| 0 <= k < 64 implies bit64(self.bitmap, k) by {
                lemma_bit_update(0, 0, k as u64);
            }
            assert(self@.free =~= Seq::new(64, |k: int| true));
        }
    }

    /// Whether page `k` is free.
    fn is_free(&self, k: usize) -> (r: bool)
        requires
            k < 64,
        ensures
            r == self@.free[k as int],
    {
        self.bitmap & (1u64 << (k as u64)) != 0
    }

    /// Marks pages.
    fn mark(&mut self, s: usize, n: usize, free: bool)
        requires
            old(self).wf(),
            s + n <= 64,
        ensures
            final(self).wf(),
            final(self)@ == marked(old(self)@, s as int, n as int, free),
    {
        let ghost before = self@;
        let mut i: usize = 0;
        assert(self@ =~= marked(before, s as int, 0, free));
        while i < n
            invariant
                i <= n,
                s + n <= 64,
                self.wf(),
                self@ == marked(before, s as int, i as int, free),
            decreases n - i,
        {
            let j: u64 = (s + i) as u64;
            let ghost w = self.bitmap;
            let ghost now = self@;
            if free {
                self.bitmap = self.bitmap | (1u64 << j);
            } else {
                self.bitmap = self.bitmap & !(1u64 << j);
            }
            proof {
                assert forall|k: int| 0 <= k < 64 implies #[trigger] self@.free[k] == (if k == j {
                    free
                } else {
                    now.free[k]
                }) by {
                    lemma_bit_update(w, j, k as u64);
                }
                assert(self@ =~= marked(before, s as int, i + 1, free));
            }
            i = i + 1;
        }
    }

    /// Gives out the first run of free pages that holds `size` bytes.
    pub fn alloc_pages(&mut self, size: usize) -> (r: Option<PhysBuffer>)
        requires
            old(self).wf(),
        ensures
            final(self).wf(),
            ({
                let n = pages_for(size as int);
                let need = pages_sought(n);
                match r {
                    Some(b) => exists|s: int| #[trigger]
                        fits_at(old(self)@, s, need) && (forall|t: int|
                            0 <= t < s ==> !#[trigger] fits_at(old(self)@, t, need)) && b
                            == buffer_at(old(self)@, s, n) && final(self)@ == marked(
                            old(self)@,
                            s,
                            n,
                            false,
                        ),
                    None => final(self)@ == old(self)@ && forall|s: int|
                        !#[trigger] fits_at(old(self)@, s, need),
                }
            }),
    {
        let npages: usize = size / VMEM_PAGE_SIZE + if size % VMEM_PAGE_SIZE != 0 {
            1usize
        } else {
            0usize
        };
        let need: usize = if npages > 0 {
            npages
        } else {
            1
        };
        let ghost p = self@;
        assert(npages == pages_for(size as int));
        let mut consecutive: usize = 0;
        let mut page_idx: usize = 0;
        while page_idx < self.num_pages
            invariant
                self.wf(),
                self@ == p,
                p == old(self)@,
                page_idx <= self.num_pages,
                consecutive <= page_idx,
                consecutive < need,
                npages == pages_for(size as int),
                need == pages_sought(npages as int),
                forall|k: int| page_idx - consecutive <= k < page_idx ==> #[trigger] p.free[k],
                forall|t: int|
                    0 <= t < page_idx - consecutive ==> !#[trigger] fits_at(p, t, need as int),
            decreases self.num_pages - page_idx,
        {
            if self.is_free(page_idx) {
                consecutive = consecutive + 1;
                if consecutive >= need {
                    let start_page: usize = page_idx + 1 - need;
                    assert(fits_at(p, start_page as int, need as int));
                    let addr: usize = self.base_addr + start_page * VMEM_PAGE_SIZE;
                    self.mark(start_page, npages, false);
                    return Some(PhysBuffer { addr, size: npages * VMEM_PAGE_SIZE });
                }
            } else {
                proof {
                    assert forall|t: int| 0 <= t < page_idx + 1 implies !#[trigger] fits_at(
                        p,
                        t,
                        need as int,
                    ) by {
                        if page_idx - consecutive <= t {
                            assert(t <= page_idx < t + need);
                        }
                    }
                }
                consecutive = 0;
            }
            page_idx = page_idx + 1;
        }
        None
    }

    /// Takes a buffer back.
    pub fn free_pages(&mut self, buf: PhysBuffer)
        requires
            old(self).wf(),
        ensures
            final(self).wf(),
            final(self)@ == freed(old(self)@, buf),
    {
        if buf.is_empty() || buf.addr < self.base_addr || buf.addr >= self.base_addr + self.size {
            return;
        }
        let start_page: usize = (buf.addr - self.base_addr) / VMEM_PAGE_SIZE;
        let npages: usize = buf.size / VMEM_PAGE_SIZE + if buf.size % VMEM_PAGE_SIZE != 0 {
            1usize
        } else {
            0usize
        };
        let room: usize = self.num_pages - start_page;
        let n: usize = if npages < room {
            npages
        } else {
            room
        };
        self.mark(start_page, n, true);
    }
}

/// A buffer that was given out lies on pages that were free and no longer are, so it overlaps no
/// buffer that is still in use; the other pages stay as they were.
pub proof fn law_alloc_takes_free_pages(p: PoolView, s: int, n: int, k: int)
    requires
        fits_at(p, s, pages_sought(n)),
        0 <= n,
        p.pages <= 64,
        0 <= k < 64,
    ensures
        s <= k < s + n ==> p.free[k] && !marked(p, s, n, false).free[k],
        !(s <= k < s + n) ==> marked(p, s, n, false).free[k] == p.free[k],
{
}

/// Taking back a buffer that was just given out restores the pool.
pub proof fn law_free_undoes_alloc(p: PoolView, s: int, n: int)
    requires
        0 < n,
        fits_at(p, s, n),
        0 < p.base,
        p.pages <= 64,
        p.free.len() == 64,
        p.base + p.pages * VMEM_PAGE_SIZE <= usize::MAX,
    ensures
        freed(marked(p, s, n, false), buffer_at(p, s, n)) == p,
{
    let q = marked(p, s, n, false);
    let b = buffer_at(p, s, n);
    assert(b.addr == p.base + s * VMEM_PAGE_SIZE);
    assert((b.addr - p.base) / (VMEM_PAGE_SIZE as int) == s);
    assert(pages_for(b.size as int) == n);
    assert(freed(q, b) =~= p);
}

/// Sets the pool up on a range of memory, as far as the pool can manage it.
pub fn init_jpu_memory_with(pool: &mut JpuMemoryPool, base: usize, size: usize)
    requires
        base + VMEM_PAGE_SIZE - 1 + JPU_DRAM_PHYSICAL_SIZE <= usize::MAX,
    ensures
        final(pool).wf(),
        final(pool)@ == fresh_pool(base as int, size as int),
{
    let n: usize = if size < JPU_DRAM_PHYSICAL_SIZE {
        size
    } else {
        JPU_DRAM_PHYSICAL_SIZE
    };
    pool.init(base, n);
}

/// Gives out a buffer.
pub fn jpu_alloc(pool: &mut JpuMemoryPool, size: usize) -> (r: Option<PhysBuffer>)
    requires
        old(pool).wf(),
    ensures
        final(pool).wf(),
        ({
            let n = pages_for(size as int);
            let need = pages_sought(n);
            match r {
                Some(b) => exists|s: int| #[trigger]
                    fits_at(old(pool)@, s, need) && (forall|t: int|
                        0 <= t < s ==> !#[trigger] fits_at(old(pool)@, t, need)) && b == buffer_at(
                        old(pool)@,
                        s,
                        n,
                    ) && final(pool)@ == marked(old(pool)@, s, n, false),
                None => final(pool)@ == old(pool)@ && forall|s: int|
                    !#[trigger] fits_at(old(pool)@, s, need),
            }
        }),
{
    pool.alloc_pages(size)
}

/// Takes a buffer back.
pub fn jpu_free(pool: &mut JpuMemoryPool, buf: PhysBuffer)
    requires
        old(pool).wf(),
    ensures
        final(pool).wf(),
        final(pool)@ == freed(old(pool)@, buf),
{
    if buf.is_empty() {
        return;
    }
    pool.free_pages(buf);
}

/// Copies data of `len` bytes into a buffer, as far as it has room.
pub fn copy_to_phys(buf: PhysBuffer, len: usize) -> (r: Option<HwOp>)
    ensures
        r == (if len == 0 || buf.size == 0 {
            None
        } else {
            Some(
                HwOp::CopyIn {
                    addr: buf.addr,
                    len: if len < buf.size {
                        len
                    } else {
                        buf.size
                    },
                },
            )
        }),
{
    let n: usize = if len < buf.size {
        len
    } else {
        buf.size
    };
    if n == 0 {
        return None;
    }
    Some(HwOp::CopyIn { addr: buf.addr, len: n })
}

/// Pages have 16384 bytes: a size takes as many as cover it, with none to spare.
pub proof fn law_pages_cover_the_size(size: int)
    requires
        0 <= size,
    ensures
        size <= 16384 * pages_for(size) < size + 16384,
{
}

/// A fresh pool begins at the first page boundary of its memory, has all whole pages of it up to
/// 64, and all of them are free.
pub proof fn law_fresh_pool(base: int, size: int, k: int)
    requires
        0 <= base,
        0 <= size,
        0 <= k < 64,
    ensures
        ({
            let p = fresh_pool(base, size);
            &&& p.base % 16384 == 0 && base <= p.base < base + 16384
            &&& 0 <= p.pages <= 64
            &&& size <= 1_048_576 ==> 16384 * p.pages <= size < 16384 * p.pages + 16384
            &&& size >= 1_048_576 ==> p.pages == 64
            &&& p.free[k]
        }),
{
}

/// A buffer lies on its pages: it begins at the first and ends with the last of them.
pub proof fn law_buffer_lies_on_its_pages(p: PoolView, s: int, n: int)
    requires
        0 <= s,
        0 <= n,
        s + n <= p.pages <= 64,
        0 <= p.base,
        p.base + 16384 * p.pages <= usize::MAX,
    ensures
        buffer_at(p, s, n).addr == p.base + 16384 * s,
        buffer_at(p, s, n).addr + buffer_at(p, s, n).size == p.base + 16384 * (s + n),
{
}

/// Taking a buffer back frees the pages that it touches and leaves every other page as it was; a
/// buffer from elsewhere changes nothing.
pub proof fn law_free_frees_what_the_buffer_touches(p: PoolView, b: PhysBuffer, k: int)
    requires
        p.free.len() == 64,
        0 <= p.base,
        0 <= p.pages <= 64,
        0 <= k < p.pages,
        b.addr > 0,
        b.size > 0,
        p.base <= b.addr,
        (b.addr - p.base) % 16384 == 0,
    ensures
        freed(p, b).free[k] == (p.free[k] || (b.addr < p.base + 16384 * (k + 1) && p.base + 16384 * k
            < b.addr + b.size)),
        freed(p, b).base == p.base && freed(p, b).pages == p.pages,
{
}

} // verus!
