//! Decoding a frame: geometry, tables, and the register scripts.

use crate::drivers::jpu::header::{
    law_header_is_bounded, min_of, parsed, sum_bytes, try_parse_jpeg_header, HeaderView, HuffTable, HuffView,
    JpegHeaderInfo, Parsed, FORMAT_224, FORMAT_400, FORMAT_420, FORMAT_422, FORMAT_444, NEG_FILL_16,
    NEG_FILL_24,
};
use crate::drivers::jpu::mem::{
    buffer_at, copy_to_phys, fits_at, freed, fresh_pool, init_jpu_memory_with, jpu_alloc,
    jpu_free, marked, pages_for, pages_sought, JpuMemoryPool, PhysBuffer, PoolView,
};
use crate::drivers::jpu::regs::{
    bbc_idle_op, hard_reset, hard_reset_script, hardware_init, hardware_init_script, wait_bbc_idle,
    BBC_BAS_ADDR, BBC_COMMAND, BBC_CTRL, BBC_CUR_POS, BBC_DATA_CNT, BBC_END_ADDR, BBC_EXT_ADDR,
    BBC_INT_ADDR, BBC_RD_PTR, BBC_STRM_CTRL, BBC_STRM_CTRL_END_FLAG, BBC_STRM_CTRL_PAGES,
    BBC_WR_PTR, CLP_INFO, DPB_BASE_CB, DPB_BASE_CR, DPB_BASE_Y, DPB_CONFIG, DPB_CSTRIDE,
    DPB_YSTRIDE, DPCM_DIFF_CB, DPCM_DIFF_CR, DPCM_DIFF_Y, GBU_BBER, GBU_BBHR, GBU_BBIR, GBU_BBSR,
    GBU_CTRL, GBU_FF_RPTR, GBU_TT_CNT, GBU_TT_CNT_H, GBU_WD_PTR, HUFF_ADDR, HUFF_ADDR_MAX,
    HUFF_ADDR_PTR, HUFF_CTRL, HUFF_CTRL_PHASE, HUFF_DATA, HUFF_PHASE_MAX, HUFF_PHASE_MIN,
    HUFF_PHASE_PTR, HUFF_PHASE_VAL, JPU_DRAM_PHYSICAL_SIZE, MCU_INFO, OP_INFO, PIC_CTRL,
    PIC_CTRL_HUFF_AC_IDX, PIC_CTRL_HUFF_DC_IDX, PIC_CTRL_USER_HUFF_TAB, PIC_ERRMB, PIC_SIZE,
    PIC_SIZE_HEIGHT, PIC_SIZE_WIDTH, PIC_START, PIC_START_START_PIC, PIC_STATUS, PIC_STATUS_DONE,
    PIC_STATUS_ERROR, QMAT_CTRL, QMAT_CTRL_PHASE, QMAT_DATA, QMAT_PHASE_CB, QMAT_PHASE_CR,
    QMAT_PHASE_Y, ROT_INFO, RST_COUNT, RST_INDEX, RST_INTVAL, SCL_INFO, STREAM_BUF_SIZE,
    VMEM_PAGE_SIZE,
};
use crate::hw::HwOp;
use crate::registers::{any_set, field_is_set, field_val, low32, placed};
use vstd::prelude::*;

verus! {

broadcast use vstd::array::group_array_axioms;

pub const BUS_REQ_NUM_SPARSE: u32 = 2;

pub const BUS_REQ_NUM_MEDIUM: u32 = 3;

pub const BUS_REQ_NUM_DENSE: u32 = 4;

/// Nanoseconds that a decode may take.
pub const DECODE_TIMEOUT_NANOS: u64 = 200_000_000;

/// Spins between a look at the unit and a look at the clock.
pub const DECODE_SPINS: u32 = 64;

pub const ERR_NO_STREAM_BUF: &'static str = "Failed to allocate stream buffer";

pub const ERR_OUTPUT_SMALL: &'static str = "output buffer too small";

pub const ERR_DECODE: &'static str = "JPU decode error";

pub const ERR_TIMEOUT: &'static str = "JPU decode timeout";

/// A decoded frame.
#[derive(Clone, Copy, Debug, PartialEq, Eq, Structural)]
pub struct DecodeResult {
    pub width: u32,
    pub height: u32,
    /// Bytes of all planes together.
    pub frame_size: usize,
}

// ---------------------------------------------------------------------------
// Geometry
// ---------------------------------------------------------------------------
/// Where the planes of a frame lie, and what the unit is told about its blocks.
#[derive(Clone, Copy, Debug, PartialEq, Eq, Structural)]
pub struct FrameLayout {
    pub aligned_width: u32,
    pub aligned_height: u32,
    pub stride_y: u32,
    pub stride_c: u32,
    pub luma_size: usize,
    pub chroma_size: usize,
    pub mcu_block_num: u32,
    pub comp_info: u32,
    pub bus_req_num: u32,
}

/// `x` rounded up to a multiple of `m`.
pub open spec fn round_up(x: int, m: int) -> int {
    (x + m - 1) / m * m
}

/// Width in whole blocks: of 16 where colour is halved across, else of 8.
pub open spec fn aligned_w(h: HeaderView) -> int {
    if h.format == FORMAT_420 || h.format == FORMAT_422 {
        round_up(h.width as int, 16)
    } else {
        round_up(h.width as int, 8)
    }
}

/// Height in whole blocks: of 16 where colour is halved down, else of 8.
pub open spec fn aligned_h(h: HeaderView) -> int {
    if h.format == FORMAT_420 || h.format == FORMAT_224 {
        round_up(h.height as int, 16)
    } else {
        round_up(h.height as int, 8)
    }
}

/// Bytes in a line of a colour plane.
pub open spec fn chroma_stride(h: HeaderView) -> int {
    if h.format == FORMAT_420 || h.format == FORMAT_422 {
        aligned_w(h) / 2
    } else if h.format == FORMAT_400 {
        0
    } else {
        aligned_w(h)
    }
}

/// Bytes of the brightness plane.
pub open spec fn luma_bytes(h: HeaderView) -> int {
    aligned_w(h) * aligned_h(h)
}

/// Bytes of a colour plane.
pub open spec fn chroma_bytes(h: HeaderView) -> int {
    if h.format == FORMAT_422 || h.format == FORMAT_224 {
        luma_bytes(h) / 2
    } else if h.format == FORMAT_444 {
        luma_bytes(h)
    } else if h.format == FORMAT_400 {
        0
    } else {
        chroma_stride(h) * aligned_h(h) / 2
    }
}

/// Bytes of a frame.
pub open spec fn frame_bytes(h: HeaderView) -> int {
    luma_bytes(h) + 2 * chroma_bytes(h)
}

/// Sampling factors of a component in four bits.
pub open spec fn comp_code(s: (u8, u8)) -> u32 {
    ((s.0 as u32) << 2u32) | (s.1 as u32)
}

/// Sampling factors of the components present, the first one on top.
pub open spec fn comp_codes(h: HeaderView) -> u32 {
    if h.num_components == 0 {
        0
    } else if h.num_components == 1 {
        comp_code(h.sampling[0]) << 8u32
    } else if h.num_components == 2 {
        (comp_code(h.sampling[0]) << 8u32) | (comp_code(h.sampling[1]) << 4u32)
    } else {
        (comp_code(h.sampling[0]) << 8u32) | (comp_code(h.sampling[1]) << 4u32) | comp_code(
            h.sampling[2],
        )
    }
}

/// Blocks of one component in a unit of all components.
pub open spec fn comp_blocks(h: HeaderView, c: int) -> int {
    if c < h.num_components {
        h.sampling[c].0 * h.sampling[c].1
    } else {
        0
    }
}

/// How densely the unit asks the bus for data.
pub open spec fn bus_requests(format: u32) -> u32 {
    if format == FORMAT_422 || format == FORMAT_224 {
        BUS_REQ_NUM_MEDIUM
    } else if format == FORMAT_444 || format == FORMAT_400 {
        BUS_REQ_NUM_DENSE
    } else {
        BUS_REQ_NUM_SPARSE
    }
}

/// The layout of a frame.
pub open spec fn layout_of(h: HeaderView) -> FrameLayout {
    FrameLayout {
        aligned_width: aligned_w(h) as u32,
        aligned_height: aligned_h(h) as u32,
        stride_y: aligned_w(h) as u32,
        stride_c: chroma_stride(h) as u32,
        luma_size: luma_bytes(h) as usize,
        chroma_size: chroma_bytes(h) as usize,
        mcu_block_num: (comp_blocks(h, 0) + comp_blocks(h, 1) + comp_blocks(h, 2)) as u32,
        comp_info: comp_codes(h),
        bus_req_num: bus_requests(h.format),
    }
}

/// Whether the sizes of a frame can be counted.
pub open spec fn layout_fits(h: HeaderView) -> bool {
    &&& aligned_w(h) <= u32::MAX
    &&& aligned_h(h) <= u32::MAX
    &&& luma_bytes(h) <= u32::MAX
    &&& frame_bytes(h) <= usize::MAX
}

/// A colour plane is no greater than the brightness plane.
pub proof fn law_chroma_within_luma(h: HeaderView)
    ensures
        0 <= chroma_bytes(h) <= luma_bytes(h),
        chroma_stride(h) * aligned_h(h) <= luma_bytes(h),
        0 <= chroma_stride(h) * aligned_h(h),
        frame_bytes(h) <= 3 * luma_bytes(h),
{
    let (w, t, c) = (aligned_w(h), aligned_h(h), chroma_stride(h));
    assert(0 <= c <= w && 0 <= t);
    assert(0 <= c * t <= w * t) by (nonlinear_arith)
        requires
            0 <= c <= w,
            0 <= t,
    ;
}

/// The frame of a parsed header is sized within 65536 by 65536, and its blocks and components
/// keep to their places in the register that describes them.
pub proof fn law_parsed_layout_is_bounded(d: Seq<u8>)
    ensures
        parsed(d) matches Parsed::Header(h) ==> {
            &&& aligned_w(h) <= 65536
            &&& aligned_h(h) <= 65536
            &&& comp_blocks(h, 0) + comp_blocks(h, 1) + comp_blocks(h, 2) <= 675
            &&& luma_bytes(h) <= u32::MAX && usize::BITS == 64 ==> layout_fits(h)
        },
{
    law_header_is_bounded(d);
    if let Parsed::Header(h) = parsed(d) {
        law_chroma_within_luma(h);
        assert forall|c: int| 0 <= c < 3 implies #[trigger] comp_blocks(h, c) <= 225 by {
            let (a, b) = (h.sampling[c].0 as int, h.sampling[c].1 as int);
            assert(a * b <= 225) by (nonlinear_arith)
                requires
                    0 <= a <= 15,
                    0 <= b <= 15,
            ;
        }
    }
}

/// Product of two sampling factors.
fn blocks(s: (u8, u8)) -> (r: u32)
    ensures
        r == s.0 * s.1,
        r <= 65025,
{
    proof {
        let (a, b) = (s.0 as int, s.1 as int);
        assert(0 <= a * b <= 255 * 255) by (nonlinear_arith)
            requires
                0 <= a <= 255,
                0 <= b <= 255,
        ;
    }
    s.0 as u32 * s.1 as u32
}

/// Sampling factors of a component in four bits.
fn code_of(s: (u8, u8)) -> (r: u32)
    ensures
        r == comp_code(s),
{
    ((s.0 as u32) << 2u32) | (s.1 as u32)
}

/// `x` rounded up to a multiple of 16.
fn up16(x: u32) -> (r: u32)
    requires
        round_up(x as int, 16) <= u32::MAX,
    ensures
        r == round_up(x as int, 16),
{
    let q: u32 = x / 16 + if x % 16 != 0 {
        1u32
    } else {
        0u32
    };
    q * 16
}

/// `x` rounded up to a multiple of 8.
fn up8(x: u32) -> (r: u32)
    requires
        round_up(x as int, 8) <= u32::MAX,
    ensures
        r == round_up(x as int, 8),
{
    let q: u32 = x / 8 + if x % 8 != 0 {
        1u32
    } else {
        0u32
    };
    q * 8
}

/// Computes the size and the layout of a frame.
pub fn frame_layout(header: &JpegHeaderInfo) -> (r: (usize, FrameLayout))
    requires
        layout_fits(header@),
    ensures
        r.0 == frame_bytes(header@),
        r.1 == layout_of(header@),
{
    let ghost h = header@;
    proof {
        law_chroma_within_luma(h);
    }
    let f: u32 = header.format;
    let aligned_width: u32 = if f == FORMAT_420 || f == FORMAT_422 {
        up16(header.width)
    } else {
        up8(header.width)
    };
    let aligned_height: u32 = if f == FORMAT_420 || f == FORMAT_224 {
        up16(header.height)
    } else {
        up8(header.height)
    };
    let stride_c: u32 = if f == FORMAT_420 || f == FORMAT_422 {
        aligned_width / 2
    } else if f == FORMAT_400 {
        0
    } else {
        aligned_width
    };
    let luma_size: usize = (aligned_width * aligned_height) as usize;
    let chroma_size: usize = if f == FORMAT_422 || f == FORMAT_224 {
        luma_size / 2
    } else if f == FORMAT_444 {
        luma_size
    } else if f == FORMAT_400 {
        0
    } else {
        (stride_c * aligned_height / 2) as usize
    };
    let n: u32 = header.num_components;
    let mut comp_info: u32 = 0;
    let mut mcu_block_num: u32 = 0;
    if n > 0 {
        comp_info = code_of(header.sampling[0]) << 8u32;
        mcu_block_num = blocks(header.sampling[0]);
    }
    if n > 1 {
        comp_info = comp_info | (code_of(header.sampling[1]) << 4u32);
        mcu_block_num = mcu_block_num + blocks(header.sampling[1]);
    }
    if n > 2 {
        comp_info = comp_info | code_of(header.sampling[2]);
        mcu_block_num = mcu_block_num + blocks(header.sampling[2]);
    }
    let bus_req_num: u32 = if f == FORMAT_422 || f == FORMAT_224 {
        BUS_REQ_NUM_MEDIUM
    } else if f == FORMAT_444 || f == FORMAT_400 {
        BUS_REQ_NUM_DENSE
    } else {
        BUS_REQ_NUM_SPARSE
    };
    let layout = FrameLayout {
        aligned_width,
        aligned_height,
        stride_y: aligned_width,
        stride_c,
        luma_size,
        chroma_size,
        mcu_block_num,
        comp_info,
        bus_req_num,
    };
    (luma_size + chroma_size * 2, layout)
}

// ---------------------------------------------------------------------------
// Stream and picture registers
// ---------------------------------------------------------------------------
/// The lower half of an address.
pub open spec fn lo(addr: int) -> u32 {
    (addr % 0x1_0000_0000) as u32
}

/// A write.
pub open spec fn wr(addr: usize, value: u32) -> HwOp {
    HwOp::Write { addr, value }
}

/// Table numbers of three components, one bit apart.
pub open spec fn table_index(t: Seq<usize>) -> u32 {
    ((((t[0] as u32) << 1u32) | (t[1] as u32)) << 1u32) | (t[2] as u32)
}

/// Telling the unit where the stream lies and what the picture is like.
pub open spec fn stream_script(addr: usize, len: usize, h: HeaderView, l: FrameLayout) -> Seq<
    HwOp,
> {
    seq![
        wr(BBC_BAS_ADDR, lo(addr as int)),
        wr(BBC_END_ADDR, lo(addr + len)),
        wr(BBC_RD_PTR, lo(addr as int)),
        wr(BBC_WR_PTR, lo(addr + len)),
        wr(
            BBC_STRM_CTRL,
            placed(BBC_STRM_CTRL_END_FLAG, 1) | placed(
                BBC_STRM_CTRL_PAGES,
                lo((len + 255) / 256),
            ),
        ),
        wr(GBU_TT_CNT, 0),
        wr(GBU_TT_CNT_H, 0),
        wr(PIC_ERRMB, 0),
        wr(
            PIC_CTRL,
            placed(PIC_CTRL_HUFF_DC_IDX, table_index(h.dc_huff_tbl)) | placed(
                PIC_CTRL_HUFF_AC_IDX,
                table_index(h.ac_huff_tbl),
            ) | placed(PIC_CTRL_USER_HUFF_TAB, 1),
        ),
        wr(
            PIC_SIZE,
            placed(PIC_SIZE_WIDTH, l.aligned_width) | placed(PIC_SIZE_HEIGHT, l.aligned_height),
        ),
        wr(ROT_INFO, 0),
        wr(MCU_INFO, (l.mcu_block_num << 16u32) | (h.num_components << 12u32) | l.comp_info),
        wr(DPB_CONFIG, 0),
        wr(RST_INTVAL, h.restart_interval),
        wr(SCL_INFO, 0),
        wr(OP_INFO, l.bus_req_num),
    ]
}

/// Tells the unit where the stream lies and what the picture is like.
pub fn configure_stream_regs(
    stream_buf: &PhysBuffer,
    copy_len: usize,
    header: &JpegHeaderInfo,
    layout: FrameLayout,
) -> (ops: Vec<HwOp>)
    requires
        stream_buf.addr + copy_len <= usize::MAX,
    ensures
        ops@ == stream_script(stream_buf.addr, copy_len, header@, layout),
{
    let stream_phys: u32 = low32(stream_buf.addr as u64);
    let stream_end: u32 = low32((stream_buf.addr + copy_len) as u64);
    let pages: usize = copy_len / 256 + if copy_len % 256 != 0 {
        1usize
    } else {
        0usize
    };
    let strm_pages: u32 = low32(pages as u64);
    let dc: u32 = ((((header.dc_huff_tbl[0] as u32) << 1u32) | (header.dc_huff_tbl[1] as u32))
        << 1u32) | (header.dc_huff_tbl[2] as u32);
    let ac: u32 = ((((header.ac_huff_tbl[0] as u32) << 1u32) | (header.ac_huff_tbl[1] as u32))
        << 1u32) | (header.ac_huff_tbl[2] as u32);
    let mut ops: Vec<HwOp> = Vec::new();
    ops.push(HwOp::Write { addr: BBC_BAS_ADDR, value: stream_phys });
    ops.push(HwOp::Write { addr: BBC_END_ADDR, value: stream_end });
    ops.push(HwOp::Write { addr: BBC_RD_PTR, value: stream_phys });
    ops.push(HwOp::Write { addr: BBC_WR_PTR, value: stream_end });
    ops.push(
        HwOp::Write {
            addr: BBC_STRM_CTRL,
            value: field_val(BBC_STRM_CTRL_END_FLAG, 1) | field_val(
                BBC_STRM_CTRL_PAGES,
                strm_pages,
            ),
        },
    );
    ops.push(HwOp::Write { addr: GBU_TT_CNT, value: 0 });
    ops.push(HwOp::Write { addr: GBU_TT_CNT_H, value: 0 });
    ops.push(HwOp::Write { addr: PIC_ERRMB, value: 0 });
    ops.push(
        HwOp::Write {
            addr: PIC_CTRL,
            value: field_val(PIC_CTRL_HUFF_DC_IDX, dc) | field_val(PIC_CTRL_HUFF_AC_IDX, ac)
                | field_val(PIC_CTRL_USER_HUFF_TAB, 1),
        },
    );
    ops.push(
        HwOp::Write {
            addr: PIC_SIZE,
            value: field_val(PIC_SIZE_WIDTH, layout.aligned_width) | field_val(
                PIC_SIZE_HEIGHT,
                layout.aligned_height,
            ),
        },
    );
    ops.push(HwOp::Write { addr: ROT_INFO, value: 0 });
    ops.push(
        HwOp::Write {
            addr: MCU_INFO,
            value: (layout.mcu_block_num << 16u32) | (header.num_components << 12u32)
                | layout.comp_info,
        },
    );
    ops.push(HwOp::Write { addr: DPB_CONFIG, value: 0 });
    ops.push(HwOp::Write { addr: RST_INTVAL, value: header.restart_interval });
    ops.push(HwOp::Write { addr: SCL_INFO, value: 0 });
    ops.push(HwOp::Write { addr: OP_INFO, value: layout.bus_req_num });
    ops
}

// ---------------------------------------------------------------------------
// Tables
// ---------------------------------------------------------------------------
/// A code as the unit takes it: its sign fills the upper half.
pub open spec fn code_word(code: u32) -> u32 {
    (((if code & 0x8000 != 0 {
        NEG_FILL_16
    } else {
        0
    }) & 0xFFFF) << 16u32) | code
}

/// A byte as the unit takes it: its sign fills the upper bits.
pub open spec fn byte_word(v: u32) -> u32 {
    (((if v & 0x80 != 0 {
        NEG_FILL_24
    } else {
        0
    }) & 0xFF_FFFF) << 8u32) | v
}

/// Writing the codes of all lengths.
pub open spec fn code_words(codes: Seq<u32>) -> Seq<HwOp> {
    Seq::new(16, |j: int| wr(HUFF_DATA, code_word(codes[j])))
}

/// Writing the value pointers of all lengths.
pub open spec fn ptr_words(ptrs: Seq<u8>) -> Seq<HwOp> {
    Seq::new(16, |j: int| wr(HUFF_DATA, byte_word(ptrs[j] as u32)))
}

/// Values that the counts of a table announce; of a DC table twelve lengths count.
pub open spec fn value_count(t: HuffView, dc: bool) -> int {
    sum_bytes(
        t.bits.take(
            if dc {
                12
            } else {
                16
            },
        ),
    ) as int
}

/// Values of a table that are written.
pub open spec fn values_written(t: HuffView, dc: bool) -> int {
    min_of(value_count(t, dc), t.num_values as int)
}

/// Entries that fill a table up.
pub open spec fn values_missing(t: HuffView, dc: bool) -> int {
    let room = if dc {
        12int
    } else {
        162
    };
    if value_count(t, dc) < room {
        room - value_count(t, dc)
    } else {
        0
    }
}

/// Writing the values of a table, filled up with ones.
pub open spec fn value_words(t: HuffView, dc: bool) -> Seq<HwOp> {
    Seq::new(
        values_written(t, dc) as nat,
        |j: int| wr(HUFF_DATA, byte_word(t.values[j] as u32)),
    ) + Seq::new(values_missing(t, dc) as nat, |j: int| wr(HUFF_DATA, 0xFFFF_FFFF))
}

/// Selecting a part of the tables.
pub open spec fn huff_phase(phase: u32) -> HwOp {
    wr(HUFF_CTRL, placed(HUFF_CTRL_PHASE, phase))
}

/// Loading the Huffman tables: first codes, last codes, pointers and values, of the DC tables
/// before the AC tables.
pub open spec fn huff_script(t: Seq<HuffView>) -> Seq<HwOp> {
    seq![huff_phase(HUFF_PHASE_MIN)] + code_words(t[0].min_codes) + code_words(t[2].min_codes)
        + code_words(t[1].min_codes) + code_words(t[3].min_codes) + seq![
        huff_phase(HUFF_PHASE_MAX),
        wr(HUFF_ADDR, HUFF_ADDR_MAX),
    ] + code_words(t[0].max_codes) + code_words(t[2].max_codes) + code_words(t[1].max_codes)
        + code_words(t[3].max_codes) + seq![
        huff_phase(HUFF_PHASE_PTR),
        wr(HUFF_ADDR, HUFF_ADDR_PTR),
    ] + ptr_words(t[0].ptrs) + ptr_words(t[2].ptrs) + ptr_words(t[1].ptrs) + ptr_words(t[3].ptrs)
        + seq![huff_phase(HUFF_PHASE_VAL)] + value_words(t[0], true) + value_words(t[2], true)
        + value_words(t[1], false) + value_words(t[3], false) + seq![huff_phase(0)]
}

/// Whether the values that are written are there.
pub open spec fn tables_fit(t: Seq<HuffView>) -> bool {
    values_written(t[0], true) <= 256 && values_written(t[1], false) <= 256 && values_written(
        t[2],
        true,
    ) <= 256 && values_written(t[3], false) <= 256
}

/// Adds the codes of all lengths.
fn push_codes(ops: &mut Vec<HwOp>, codes: &[u32; 16])
    ensures
        final(ops)@ == old(ops)@ + code_words(codes@),
{
    let ghost before = ops@;
    let mut j: usize = 0;
    while j < 16
        invariant
            j <= 16,
            ops@ == before + code_words(codes@).take(j as int),
        decreases 16 - j,
    {
        let data: u32 = codes[j];
        let fill: u32 = HuffTable::sign_extend_16(data);
        ops.push(HwOp::Write { addr: HUFF_DATA, value: ((fill & 0xFFFF) << 16u32) | data });
        j = j + 1;
        assert(ops@ =~= before + code_words(codes@).take(j as int));
    }
    assert(code_words(codes@).take(16) =~= code_words(codes@));
}

/// Adds the value pointers of all lengths.
fn push_ptrs(ops: &mut Vec<HwOp>, ptrs: &[u8; 16])
    ensures
        final(ops)@ == old(ops)@ + ptr_words(ptrs@),
{
    let ghost before = ops@;
    let mut j: usize = 0;
    while j < 16
        invariant
            j <= 16,
            ops@ == before + ptr_words(ptrs@).take(j as int),
        decreases 16 - j,
    {
        let data: u32 = ptrs[j] as u32;
        let fill: u32 = HuffTable::sign_extend_8(data);
        ops.push(HwOp::Write { addr: HUFF_DATA, value: ((fill & 0xFF_FFFF) << 8u32) | data });
        j = j + 1;
        assert(ops@ =~= before + ptr_words(ptrs@).take(j as int));
    }
    assert(ptr_words(ptrs@).take(16) =~= ptr_words(ptrs@));
}

/// Counts the values that a table announces.
fn count_values(t: &HuffTable, dc: bool) -> (n: usize)
    ensures
        n == value_count(t@, dc),
        n <= 4080,
{
    let lengths: usize = if dc {
        12
    } else {
        16
    };
    let mut n: usize = 0;
    let mut j: usize = 0;
    assert(t.bits@.take(0) =~= Seq::<u8>::empty());
    while j < lengths
        invariant
            j <= lengths <= 16,
            n <= 255 * j,
            n == sum_bytes(t.bits@.take(j as int)),
        decreases lengths - j,
    {
        proof {
            assert(t.bits@.take(j + 1).drop_last() =~= t.bits@.take(j as int));
        }
        n = n + t.bits[j] as usize;
        j = j + 1;
    }
    n
}

/// Adds the values of a table.
fn push_values(ops: &mut Vec<HwOp>, t: &HuffTable, dc: bool)
    requires
        values_written(t@, dc) <= 256,
    ensures
        final(ops)@ == old(ops)@ + value_words(t@, dc),
{
    let ghost before = ops@;
    let count: usize = count_values(t, dc);
    let written: usize = if count < t.num_values {
        count
    } else {
        t.num_values
    };
    let ghost words = Seq::new(
        written as nat,
        |j: int| wr(HUFF_DATA, byte_word(t.values@[j] as u32)),
    );
    let mut j: usize = 0;
    while j < written
        invariant
            j <= written <= 256,
            words == Seq::new(
                written as nat,
                |j: int| wr(HUFF_DATA, byte_word(t.values@[j] as u32)),
            ),
            ops@ == before + words.take(j as int),
        decreases written - j,
    {
        let data: u32 = t.values[j] as u32;
        let fill: u32 = HuffTable::sign_extend_8(data);
        ops.push(HwOp::Write { addr: HUFF_DATA, value: ((fill & 0xFF_FFFF) << 8u32) | data });
        j = j + 1;
        assert(ops@ =~= before + words.take(j as int));
    }
    assert(words.take(written as int) =~= words);
    let room: usize = if dc {
        12
    } else {
        162
    };
    let missing: usize = if count < room {
        room - count
    } else {
        0
    };
    let ghost fills = Seq::new(missing as nat, |j: int| wr(HUFF_DATA, 0xFFFF_FFFF));
    let mut k: usize = 0;
    while k < missing
        invariant
            k <= missing <= 162,
            fills == Seq::new(missing as nat, |j: int| wr(HUFF_DATA, 0xFFFF_FFFF)),
            ops@ == before + words + fills.take(k as int),
        decreases missing - k,
    {
        ops.push(HwOp::Write { addr: HUFF_DATA, value: 0xFFFF_FFFF });
        k = k + 1;
        assert(ops@ =~= before + words + fills.take(k as int));
    }
    assert(fills.take(missing as int) =~= fills);
    assert(words + fills =~= value_words(t@, dc));
    assert(ops@ =~= before + value_words(t@, dc));
}

/// Selects a part of the tables.
fn select_phase(phase: u32) -> (op: HwOp)
    ensures
        op == huff_phase(phase),
{
    HwOp::Write { addr: HUFF_CTRL, value: field_val(HUFF_CTRL_PHASE, phase) }
}

/// Loads the Huffman tables.
#[verifier::rlimit(40)]
pub fn upload_huff_tables(header: &JpegHeaderInfo) -> (ops: Vec<HwOp>)
    requires
        tables_fit(header@.huff_tables),
    ensures
        ops@ == huff_script(header@.huff_tables),
{
    let ghost t = header@.huff_tables;
    let mut ops: Vec<HwOp> = Vec::new();
    ops.push(select_phase(HUFF_PHASE_MIN));
    push_codes(&mut ops, &header.huff_tables[0].min_codes);
    push_codes(&mut ops, &header.huff_tables[2].min_codes);
    push_codes(&mut ops, &header.huff_tables[1].min_codes);
    push_codes(&mut ops, &header.huff_tables[3].min_codes);
    ops.push(select_phase(HUFF_PHASE_MAX));
    ops.push(HwOp::Write { addr: HUFF_ADDR, value: HUFF_ADDR_MAX });
    push_codes(&mut ops, &header.huff_tables[0].max_codes);
    push_codes(&mut ops, &header.huff_tables[2].max_codes);
    push_codes(&mut ops, &header.huff_tables[1].max_codes);
    push_codes(&mut ops, &header.huff_tables[3].max_codes);
    ops.push(select_phase(HUFF_PHASE_PTR));
    ops.push(HwOp::Write { addr: HUFF_ADDR, value: HUFF_ADDR_PTR });
    push_ptrs(&mut ops, &header.huff_tables[0].ptrs);
    push_ptrs(&mut ops, &header.huff_tables[2].ptrs);
    push_ptrs(&mut ops, &header.huff_tables[1].ptrs);
    push_ptrs(&mut ops, &header.huff_tables[3].ptrs);
    ops.push(select_phase(HUFF_PHASE_VAL));
    push_values(&mut ops, &header.huff_tables[0], true);
    push_values(&mut ops, &header.huff_tables[2], true);
    push_values(&mut ops, &header.huff_tables[1], false);
    push_values(&mut ops, &header.huff_tables[3], false);
    ops.push(select_phase(0));
    assert(ops@ =~= huff_script(t));
    ops
}

/// Loading one quantisation table.
pub open spec fn quant_words(phase: u32, t: Seq<u16>) -> Seq<HwOp> {
    seq![wr(QMAT_CTRL, placed(QMAT_CTRL_PHASE, phase))] + Seq::new(
        64,
        |j: int| wr(QMAT_DATA, t[j] as u32),
    ) + seq![wr(QMAT_CTRL, placed(QMAT_CTRL_PHASE, 0))]
}

/// Loading the quantisation table of component `c`, where the component is there and names a
/// table that is.
pub open spec fn quant_part(h: HeaderView, c: int, phase: u32) -> Seq<HwOp> {
    if c < h.num_components && h.quant_tbl[c] < 4 && h.quant_tbl[c] < h.quant_table_count {
        quant_words(phase, h.quant_tables[h.quant_tbl[c] as int])
    } else {
        Seq::empty()
    }
}

/// Loading the quantisation tables of all components.
pub open spec fn quant_script(h: HeaderView) -> Seq<HwOp> {
    quant_part(h, 0, QMAT_PHASE_Y) + quant_part(h, 1, QMAT_PHASE_CB) + quant_part(
        h,
        2,
        QMAT_PHASE_CR,
    )
}

/// Adds the quantisation table of a component.
fn push_quant(ops: &mut Vec<HwOp>, header: &JpegHeaderInfo, c: usize, phase: u32)
    requires
        c < 3,
    ensures
        final(ops)@ == old(ops)@ + quant_part(header@, c as int, phase),
{
    let ghost before = ops@;
    let table_idx: usize = header.quant_tbl[c];
    if c as u32 >= header.num_components || table_idx >= 4 || table_idx
        >= header.quant_table_count {
        assert(ops@ =~= before + quant_part(header@, c as int, phase));
        return;
    }
    ops.push(HwOp::Write { addr: QMAT_CTRL, value: field_val(QMAT_CTRL_PHASE, phase) });
    let ghost t = header@.quant_tables[table_idx as int];
    let ghost words = Seq::new(64, |j: int| wr(QMAT_DATA, t[j] as u32));
    let ghost head = before + seq![wr(QMAT_CTRL, placed(QMAT_CTRL_PHASE, phase))];
    let mut j: usize = 0;
    assert(ops@ =~= head + words.take(0));
    while j < 64
        invariant
            j <= 64,
            table_idx < 4,
            t == header@.quant_tables[table_idx as int],
            words == Seq::new(64, |j: int| wr(QMAT_DATA, t[j] as u32)),
            ops@ == head + words.take(j as int),
        decreases 64 - j,
    {
        ops.push(
            HwOp::Write { addr: QMAT_DATA, value: header.quant_tables[table_idx].values[j] as u32 },
        );
        j = j + 1;
        assert(ops@ =~= head + words.take(j as int));
    }
    assert(words.take(64) =~= words);
    ops.push(HwOp::Write { addr: QMAT_CTRL, value: field_val(QMAT_CTRL_PHASE, 0) });
    assert(ops@ =~= before + quant_part(header@, c as int, phase));
}

/// Loads the quantisation tables.
pub fn upload_quant_tables(header: &JpegHeaderInfo) -> (ops: Vec<HwOp>)
    ensures
        ops@ == quant_script(header@),
{
    let mut ops: Vec<HwOp> = Vec::new();
    push_quant(&mut ops, header, 0, QMAT_PHASE_Y);
    push_quant(&mut ops, header, 1, QMAT_PHASE_CB);
    push_quant(&mut ops, header, 2, QMAT_PHASE_CR);
    assert(ops@ =~= quant_script(header@));
    ops
}

// ---------------------------------------------------------------------------
// The stream reader and the start
// ---------------------------------------------------------------------------
/// Address of a page of the stream, before it is cut to a word.
pub open spec fn page_address(stream: usize, page: int) -> int {
    lo(stream as int) + 256 * (page % 0x100_0000)
}

/// Fetching one page of 256 bytes of the stream.
pub open spec fn page_script(stream: usize, page: int) -> Seq<HwOp> {
    seq![
        wr(BBC_CUR_POS, lo(page)),
        wr(BBC_EXT_ADDR, page_address(stream, page) as u32),
        wr(BBC_INT_ADDR, (64 * (page % 2)) as u32),
        wr(BBC_DATA_CNT, 64),
        wr(BBC_COMMAND, 0),
        bbc_idle_op(),
    ]
}

/// Positioning the stream reader at the entropy-coded data: two pages are fetched, the word and
/// bit where it begins are set, and the half of the buffer that comes next.
pub open spec fn gram_script(stream: usize, ecs: int) -> Seq<HwOp> {
    let page = ecs / 256;
    let word = 4 * (ecs / 16 % 16) + 64 * (page % 2);
    let next = if page % 2 == 1 {
        0u32
    } else {
        64u32
    };
    page_script(stream, page) + page_script(stream, page + 1) + seq![
        wr(BBC_CUR_POS, lo(page + 2)),
        wr(BBC_CTRL, 1),
        wr(GBU_WD_PTR, word as u32),
        wr(GBU_BBSR, 0),
        wr(GBU_BBER, 127),
        wr(GBU_BBIR, next),
        wr(GBU_BBHR, next),
        wr(GBU_CTRL, 4),
        wr(GBU_FF_RPTR, (8 * (ecs % 16)) as u32),
    ]
}

/// Whether the pages that are fetched can be addressed.
pub open spec fn pages_reachable(stream: usize, ecs: int) -> bool {
    page_address(stream, ecs / 256) <= u32::MAX && page_address(stream, ecs / 256 + 1) <= u32::MAX
}

/// Fetches one page of the stream.
fn fetch_page(stream_phys: usize, page: usize) -> (ops: Vec<HwOp>)
    requires
        page_address(stream_phys, page as int) <= u32::MAX,
    ensures
        ops@ == page_script(stream_phys, page as int),
{
    let mut ops: Vec<HwOp> = Vec::new();
    ops.push(HwOp::Write { addr: BBC_CUR_POS, value: low32(page as u64) });
    let offset: u32 = 256 * (page % 0x100_0000) as u32;
    ops.push(HwOp::Write { addr: BBC_EXT_ADDR, value: low32(stream_phys as u64) + offset });
    ops.push(HwOp::Write { addr: BBC_INT_ADDR, value: 64 * (page % 2) as u32 });
    ops.push(HwOp::Write { addr: BBC_DATA_CNT, value: 64 });
    ops.push(HwOp::Write { addr: BBC_COMMAND, value: 0 });
    ops.push(wait_bbc_idle());
    ops
}

/// Positions the stream reader at the entropy-coded data.
pub fn gram_setup(stream_phys: usize, header: &JpegHeaderInfo) -> (ops: Vec<HwOp>)
    requires
        pages_reachable(stream_phys, header@.ecs_offset),
    ensures
        ops@ == gram_script(stream_phys, header@.ecs_offset),
{
    let ecs: usize = header.ecs_offset;
    let page: usize = ecs / 256;
    let word: u32 = 4 * (ecs / 16 % 16) as u32 + 64 * (page % 2) as u32;
    let next: u32 = if page % 2 == 1 {
        0
    } else {
        64
    };
    let mut ops: Vec<HwOp> = fetch_page(stream_phys, page);
    let mut second: Vec<HwOp> = fetch_page(stream_phys, page + 1);
    ops.append(&mut second);
    ops.push(HwOp::Write { addr: BBC_CUR_POS, value: low32((page + 2) as u64) });
    ops.push(HwOp::Write { addr: BBC_CTRL, value: 1 });
    ops.push(HwOp::Write { addr: GBU_WD_PTR, value: word });
    ops.push(HwOp::Write { addr: GBU_BBSR, value: 0 });
    ops.push(HwOp::Write { addr: GBU_BBER, value: 127 });
    ops.push(HwOp::Write { addr: GBU_BBIR, value: next });
    ops.push(HwOp::Write { addr: GBU_BBHR, value: next });
    ops.push(HwOp::Write { addr: GBU_CTRL, value: 4 });
    ops.push(HwOp::Write { addr: GBU_FF_RPTR, value: 8 * (ecs % 16) as u32 });
    assert(ops@ =~= gram_script(stream_phys, ecs as int));
    ops
}

/// Clearing what the last frame left in the status register.
pub open spec fn clear_status_op() -> HwOp {
    wr(PIC_STATUS, placed(PIC_STATUS_DONE, 1) | placed(PIC_STATUS_ERROR, 1))
}

/// Clears the status register.
fn clear_status() -> (op: HwOp)
    ensures
        op == clear_status_op(),
{
    HwOp::Write {
        addr: PIC_STATUS,
        value: field_val(PIC_STATUS_DONE, 1) | field_val(PIC_STATUS_ERROR, 1),
    }
}

/// Starting a decode into planes one behind the other from `frame` on.
pub open spec fn start_script(frame: usize, ecs: int, l: FrameLayout) -> Seq<HwOp> {
    seq![
        wr(RST_INDEX, 0),
        wr(RST_COUNT, 0),
        wr(DPCM_DIFF_Y, 0),
        wr(DPCM_DIFF_CB, 0),
        wr(DPCM_DIFF_CR, 0),
        wr(GBU_FF_RPTR, (8 * (ecs % 16)) as u32),
        wr(GBU_CTRL, 3),
        wr(DPB_BASE_Y, lo(frame as int)),
        wr(DPB_BASE_CB, lo(frame + l.luma_size)),
        wr(DPB_BASE_CR, lo(frame + l.luma_size + l.chroma_size)),
        wr(DPB_YSTRIDE, l.stride_y),
        wr(DPB_CSTRIDE, l.stride_c),
        wr(CLP_INFO, 0),
        clear_status_op(),
        wr(PIC_START, placed(PIC_START_START_PIC, 1)),
    ]
}

/// Starts a decode.
pub fn start_decode(frame_phys: usize, header: &JpegHeaderInfo, layout: FrameLayout) -> (ops: Vec<
    HwOp,
>)
    requires
        frame_phys + layout.luma_size + layout.chroma_size <= usize::MAX,
    ensures
        ops@ == start_script(frame_phys, header@.ecs_offset, layout),
{
    let cb: usize = frame_phys + layout.luma_size;
    let cr: usize = cb + layout.chroma_size;
    let mut ops: Vec<HwOp> = Vec::new();
    ops.push(HwOp::Write { addr: RST_INDEX, value: 0 });
    ops.push(HwOp::Write { addr: RST_COUNT, value: 0 });
    ops.push(HwOp::Write { addr: DPCM_DIFF_Y, value: 0 });
    ops.push(HwOp::Write { addr: DPCM_DIFF_CB, value: 0 });
    ops.push(HwOp::Write { addr: DPCM_DIFF_CR, value: 0 });
    ops.push(HwOp::Write { addr: GBU_FF_RPTR, value: 8 * (header.ecs_offset % 16) as u32 });
    ops.push(HwOp::Write { addr: GBU_CTRL, value: 3 });
    ops.push(HwOp::Write { addr: DPB_BASE_Y, value: low32(frame_phys as u64) });
    ops.push(HwOp::Write { addr: DPB_BASE_CB, value: low32(cb as u64) });
    ops.push(HwOp::Write { addr: DPB_BASE_CR, value: low32(cr as u64) });
    ops.push(HwOp::Write { addr: DPB_YSTRIDE, value: layout.stride_y });
    ops.push(HwOp::Write { addr: DPB_CSTRIDE, value: layout.stride_c });
    ops.push(HwOp::Write { addr: CLP_INFO, value: 0 });
    ops.push(clear_status());
    ops.push(HwOp::Write { addr: PIC_START, value: field_val(PIC_START_START_PIC, 1) });
    ops
}

/// What a look at a running decode says.
#[derive(Clone, Copy, Debug, PartialEq, Eq)]
pub enum DecodePoll {
    /// It is over; the status is to be cleared.
    Over { ack: HwOp, result: Result<(), &'static str> },
    /// Look again.
    Again,
    /// It takes too long.
    Expired,
}

/// One look at a running decode: done before error, and both before the clock.
pub fn poll_decode_done(pic_status: u32, elapsed_nanos: u64) -> (r: DecodePoll)
    ensures
        r == (if any_set(PIC_STATUS_DONE, pic_status) {
            DecodePoll::Over { ack: clear_status_op(), result: Ok(()) }
        } else if any_set(PIC_STATUS_ERROR, pic_status) {
            DecodePoll::Over { ack: clear_status_op(), result: Err(ERR_DECODE) }
        } else if elapsed_nanos >= DECODE_TIMEOUT_NANOS {
            DecodePoll::Expired
        } else {
            DecodePoll::Again
        }),
{
    if field_is_set(PIC_STATUS_DONE, pic_status) {
        return DecodePoll::Over { ack: clear_status(), result: Ok(()) };
    }
    if field_is_set(PIC_STATUS_ERROR, pic_status) {
        return DecodePoll::Over { ack: clear_status(), result: Err(ERR_DECODE) };
    }
    if elapsed_nanos >= DECODE_TIMEOUT_NANOS {
        return DecodePoll::Expired;
    }
    DecodePoll::Again
}

// ---------------------------------------------------------------------------
// The decoder
// ---------------------------------------------------------------------------
/// A decoder: a buffer for the stream, and the place where frames go.
#[derive(Clone, Copy, Debug, PartialEq, Eq, Structural)]
pub struct JpuDecoder {
    pub stream_buf: PhysBuffer,
    pub frame_buf: PhysBuffer,
}

/// The beginning of a decode: what is done, and the frame that comes of it if the unit succeeds.
#[derive(Debug)]
pub struct DecodeStart {
    pub ops: Vec<HwOp>,
    pub outcome: Result<DecodeResult, &'static str>,
}

/// Bytes of a stream that are copied.
pub open spec fn copied(dec: JpuDecoder, d: Seq<u8>) -> int {
    min_of(d.len() as int, dec.stream_buf.size as int)
}

/// Copying a stream to where the unit can read it.
pub open spec fn copy_script(dec: JpuDecoder, d: Seq<u8>) -> Seq<HwOp> {
    let n = copied(dec, d);
    (if n == 0 {
        Seq::empty()
    } else {
        seq![HwOp::CopyIn { addr: dec.stream_buf.addr, len: n as usize }]
    }) + seq![HwOp::CleanCache { start: dec.stream_buf.addr, size: n as usize }]
}

/// Decoding a stream with header `h`.
pub open spec fn decode_script(dec: JpuDecoder, d: Seq<u8>, h: HeaderView) -> Seq<HwOp> {
    copy_script(dec, d) + stream_script(
        dec.stream_buf.addr,
        copied(dec, d) as usize,
        h,
        layout_of(h),
    ) + huff_script(h.huff_tables) + quant_script(h) + gram_script(
        dec.stream_buf.addr,
        h.ecs_offset,
    ) + start_script(dec.frame_buf.addr, h.ecs_offset, layout_of(h))
}

/// Whether every number that a decode comes across can be counted, and every table entry that it
/// reads is there.
pub open spec fn decodable(dec: JpuDecoder, d: Seq<u8>) -> bool {
    match parsed(d) {
        Parsed::OutOfRange => false,
        Parsed::Fail(e) => true,
        Parsed::Header(h) => {
            &&& layout_fits(h)
            &&& dec.stream_buf.addr + copied(dec, d) <= usize::MAX
            &&& frame_bytes(h) <= dec.frame_buf.size ==> {
                &&& tables_fit(h.huff_tables)
                &&& pages_reachable(dec.stream_buf.addr, h.ecs_offset)
                &&& dec.frame_buf.addr + luma_bytes(h) + chroma_bytes(h) <= usize::MAX
            }
        },
    }
}

/// What is done to begin the decode of `d`: a stream without a usable header is not touched; a
/// frame that has no room is copied but not decoded.
pub open spec fn begin_ops(dec: JpuDecoder, d: Seq<u8>) -> Seq<HwOp> {
    match parsed(d) {
        Parsed::Header(h) => if frame_bytes(h) > dec.frame_buf.size {
            copy_script(dec, d)
        } else {
            decode_script(dec, d, h)
        },
        _ => Seq::empty(),
    }
}

/// The frame that comes of the decode of `d` if the unit succeeds, or why it was not begun.
pub open spec fn begin_outcome(dec: JpuDecoder, d: Seq<u8>) -> Result<DecodeResult, &'static str> {
    match parsed(d) {
        Parsed::Header(h) => if frame_bytes(h) > dec.frame_buf.size {
            Err(ERR_OUTPUT_SMALL)
        } else {
            Ok(
                DecodeResult {
                    width: h.width,
                    height: h.height,
                    frame_size: frame_bytes(h) as usize,
                },
            )
        },
        Parsed::Fail(e) => Err(e),
        Parsed::OutOfRange => Err(ERR_DECODE),
    }
}

/// Whether `r` is the beginning of the decode of `d`.
pub open spec fn decode_begins(r: DecodeStart, dec: JpuDecoder, d: Seq<u8>) -> bool {
    r.ops@ == begin_ops(dec, d) && r.outcome == begin_outcome(dec, d)
}

/// Whether the sizes of a frame can be counted.
fn check_layout(header: &JpegHeaderInfo) -> (r: bool)
    ensures
        r == layout_fits(header@),
{
    let ghost h = header@;
    let f: u32 = header.format;
    let aw: u64 = if f == FORMAT_420 || f == FORMAT_422 {
        (header.width as u64 + 15) / 16 * 16
    } else {
        (header.width as u64 + 7) / 8 * 8
    };
    let ah: u64 = if f == FORMAT_420 || f == FORMAT_224 {
        (header.height as u64 + 15) / 16 * 16
    } else {
        (header.height as u64 + 7) / 8 * 8
    };
    if aw > u32::MAX as u64 || ah > u32::MAX as u64 {
        return false;
    }
    proof {
        let (a, b) = (aw as int, ah as int);
        assert(0 <= a * b <= 0xFFFF_FFFF * 0xFFFF_FFFF) by (nonlinear_arith)
            requires
                0 <= a <= 0xFFFF_FFFF,
                0 <= b <= 0xFFFF_FFFF,
        ;
        assert(luma_bytes(h) == aw * ah);
        law_chroma_within_luma(h);
    }
    let area: u64 = aw * ah;
    if area > u32::MAX as u64 {
        return false;
    }
    let cw: u64 = if f == FORMAT_420 || f == FORMAT_422 {
        aw / 2
    } else {
        aw
    };
    let chroma: u64 = if f == FORMAT_422 || f == FORMAT_224 {
        area / 2
    } else if f == FORMAT_444 {
        area
    } else if f == FORMAT_400 {
        0
    } else {
        assert(chroma_stride(h) == cw);
        cw * ah / 2
    };
    area + 2 * chroma <= usize::MAX as u64
}

/// Whether the values of a table that are written are there.
fn check_table(t: &HuffTable, dc: bool) -> (r: bool)
    ensures
        r == (values_written(t@, dc) <= 256),
{
    let count: usize = count_values(t, dc);
    count <= 256 || t.num_values <= 256
}

/// The pool of a decoder: fresh, but for the stream buffer in its first pages, where it has room.
pub open spec fn stream_pool(base: int, size: int) -> PoolView {
    let fresh = fresh_pool(base, size);
    if size >= STREAM_BUF_SIZE {
        marked(fresh, 0, pages_for(STREAM_BUF_SIZE as int), false)
    } else {
        fresh
    }
}

/// What comes of a decode by a look at the unit: `None` where it is still at work. A unit that
/// takes too long has failed.
pub fn decode_outcome(poll: DecodePoll) -> (r: Option<Result<(), &'static str>>)
    ensures
        r == (match poll {
            DecodePoll::Over { ack, result } => Some(result),
            DecodePoll::Expired => Some(Err::<(), &'static str>(ERR_TIMEOUT)),
            DecodePoll::Again => None,
        }),
{
    match poll {
        DecodePoll::Over { ack, result } => Some(result),
        DecodePoll::Expired => Some(Err(ERR_TIMEOUT)),
        DecodePoll::Again => None,
    }
}

impl JpuDecoder {
    /// A decoder with its stream buffer in a pool of its own and frames going to
    /// `[out_pa, out_pa + out_size)`, and the bring-up of the unit. The unit is brought up even
    /// where the pool has no room.
    pub fn new_with_pool(
        pool: &mut JpuMemoryPool,
        dma_pool_base: usize,
        dma_pool_size: usize,
        out_pa: usize,
        out_size: usize,
    ) -> (r: (Vec<HwOp>, Result<JpuDecoder, &'static str>))
        requires
            dma_pool_base + VMEM_PAGE_SIZE - 1 + JPU_DRAM_PHYSICAL_SIZE <= usize::MAX,
        ensures
            final(pool).wf(),
            final(pool)@ == stream_pool(dma_pool_base as int, dma_pool_size as int),
            r.0@ == hardware_init_script(),
            dma_pool_size >= STREAM_BUF_SIZE ==> r.1 == Ok::<JpuDecoder, &'static str>(
                JpuDecoder {
                    stream_buf: PhysBuffer {
                        addr: (pages_for(dma_pool_base as int) * VMEM_PAGE_SIZE) as usize,
                        size: STREAM_BUF_SIZE,
                    },
                    frame_buf: PhysBuffer { addr: out_pa, size: out_size },
                },
            ),
            dma_pool_size < STREAM_BUF_SIZE ==> r.1 == Err::<JpuDecoder, &'static str>(
                ERR_NO_STREAM_BUF,
            ),
    {
        init_jpu_memory_with(pool, dma_pool_base, dma_pool_size);
        let ops: Vec<HwOp> = hardware_init();
        let ghost p = pool@;
        proof {
            assert(pages_for(STREAM_BUF_SIZE as int) == 16);
            if dma_pool_size >= STREAM_BUF_SIZE {
                assert(fits_at(p, 0, 16));
            }
        }
        match jpu_alloc(pool, STREAM_BUF_SIZE) {
            None => {
                assert(!fits_at(p, 0, pages_sought(pages_for(STREAM_BUF_SIZE as int))));
                (ops, Err(ERR_NO_STREAM_BUF))
            },
            Some(stream_buf) => {
                proof {
                    let s = choose|s: int| #[trigger]
                        fits_at(p, s, 16) && (forall|t: int|
                            0 <= t < s ==> !#[trigger] fits_at(p, t, 16)) && stream_buf
                            == buffer_at(p, s, 16) && pool@ == marked(p, s, 16, false);
                    assert(fits_at(p, s, 16));
                    assert(s == 0);
                }
                let frame_buf = PhysBuffer { addr: out_pa, size: out_size };
                (ops, Ok(JpuDecoder { stream_buf, frame_buf }))
            },
        }
    }

    /// Gives the stream buffer back. The place where frames go was never taken.
    pub fn release(self, pool: &mut JpuMemoryPool)
        requires
            old(pool).wf(),
        ensures
            final(pool).wf(),
            final(pool)@ == freed(old(pool)@, self.stream_buf),
    {
        if !self.stream_buf.is_empty() {
            jpu_free(pool, self.stream_buf);
        }
    }

    /// Begins to decode a stream. `None` where a number cannot be counted or a table entry is not
    /// there.
    pub fn try_decode(&self, jpeg_data: &[u8]) -> (r: Option<DecodeStart>)
        requires
            jpeg_data@.len() <= isize::MAX,
        ensures
            r is Some <==> decodable(*self, jpeg_data@),
            r matches Some(s) ==> decode_begins(s, *self, jpeg_data@),
    {
        let ghost d = jpeg_data@;
        let header: JpegHeaderInfo = match try_parse_jpeg_header(jpeg_data) {
            None => {
                return None;
            },
            Some(Err(e)) => {
                return Some(DecodeStart { ops: Vec::new(), outcome: Err(e) });
            },
            Some(Ok(h)) => h,
        };
        let ghost h = header@;
        if !check_layout(&header) {
            return None;
        }
        proof {
            law_chroma_within_luma(h);
        }
        let copy_len: usize = if jpeg_data.len() < self.stream_buf.size {
            jpeg_data.len()
        } else {
            self.stream_buf.size
        };
        if self.stream_buf.addr > usize::MAX - copy_len {
            return None;
        }
        let mut ops: Vec<HwOp> = Vec::new();
        if let Some(op) = copy_to_phys(self.stream_buf, copy_len) {
            ops.push(op);
        }
        ops.push(HwOp::CleanCache { start: self.stream_buf.addr, size: copy_len });
        assert(ops@ =~= copy_script(*self, d));
        let (frame_size, layout) = frame_layout(&header);
        if frame_size > self.frame_buf.size {
            return Some(DecodeStart { ops, outcome: Err(ERR_OUTPUT_SMALL) });
        }
        if !(check_table(&header.huff_tables[0], true) && check_table(
            &header.huff_tables[1],
            false,
        ) && check_table(&header.huff_tables[2], true) && check_table(
            &header.huff_tables[3],
            false,
        )) {
            return None;
        }
        let page: u64 = (header.ecs_offset / 256) as u64;
        let base: u64 = low32(self.stream_buf.addr as u64) as u64;
        if base + 256 * (page % 0x100_0000) > u32::MAX as u64 || base + 256 * ((page + 1)
            % 0x100_0000) > u32::MAX as u64 {
            return None;
        }
        if self.frame_buf.addr > usize::MAX - layout.luma_size || self.frame_buf.addr
            + layout.luma_size > usize::MAX - layout.chroma_size {
            return None;
        }
        let mut part: Vec<HwOp> = configure_stream_regs(
            &self.stream_buf,
            copy_len,
            &header,
            layout,
        );
        ops.append(&mut part);
        part = upload_huff_tables(&header);
        ops.append(&mut part);
        part = upload_quant_tables(&header);
        ops.append(&mut part);
        part = gram_setup(self.stream_buf.addr, &header);
        ops.append(&mut part);
        part = start_decode(self.frame_buf.addr, &header, layout);
        ops.append(&mut part);
        let outcome: Result<DecodeResult, &'static str> = Ok(
            DecodeResult { width: header.width, height: header.height, frame_size },
        );
        Some(DecodeStart { ops, outcome })
    }

    /// Begins to decode a stream.
    pub fn decode(&self, jpeg_data: &[u8]) -> (r: DecodeStart)
        requires
            jpeg_data@.len() <= isize::MAX,
            decodable(*self, jpeg_data@),
        ensures
            decode_begins(r, *self, jpeg_data@),
    {
        match self.try_decode(jpeg_data) {
            Some(s) => s,
            None => DecodeStart { ops: Vec::new(), outcome: Err(ERR_DECODE) },
        }
    }

    /// Ends a decode: a unit that fails or hangs is reset.
    pub fn finish(pending: DecodeResult, polled: Result<(), &'static str>) -> (r: (
        Vec<HwOp>,
        Result<DecodeResult, &'static str>,
    ))
        ensures
            match polled {
                Ok(_) => r.0@ == Seq::<HwOp>::empty() && r.1 == Ok::<DecodeResult, &'static str>(
                    pending,
                ),
                Err(e) => r.0@ == hard_reset_script() && r.1 == Err::<DecodeResult, &'static str>(
                    e,
                ),
            },
    {
        match polled {
            Ok(_) => (Vec::new(), Ok(pending)),
            Err(e) => (hard_reset(), Err(e)),
        }
    }
}

} // verus!
