//! What reaches the JPEG unit of the tables and the geometry of an image.

use crate::drivers::jpu::decoder::{
    aligned_h, aligned_w, begin_ops, begin_outcome, byte_word, chroma_bytes, code_word, code_words,
    comp_blocks, frame_bytes, gram_script, huff_script, layout_of, luma_bytes, page_address,
    ptr_words, quant_part, quant_script, start_script, stream_script, value_count, value_words,
    DecodeResult, FrameLayout, JpuDecoder, ERR_OUTPUT_SMALL,
};
use crate::drivers::jpu::format::{
    image_bytes, in_parts, law_frame_is_kept, law_quantisation_table_is_kept, lemma_total,
    no_frames, no_quants, quant_valid, scan_valid, segment_valid, total, QuantSpec, ScanSpec,
    Segment,
};
use crate::drivers::jpu::header::{parsed, HeaderView, HuffView, Parsed};
use crate::hw::HwOp;
use vstd::prelude::*;

verus! {

/// Whether the quantisation table of component `c` is there.
pub open spec fn has_matrix(h: HeaderView, c: int) -> bool {
    c < h.num_components && h.quant_tbl[c] < 4 && h.quant_tbl[c] < h.quant_table_count
}

/// Where the table of component `c` begins among what is written: behind 66 writes for each of
/// those before it.
pub open spec fn matrix_at(h: HeaderView, c: int) -> int
    decreases c,
{
    if c <= 0 {
        0
    } else if has_matrix(h, c - 1) {
        matrix_at(h, c - 1) + 66
    } else {
        matrix_at(h, c - 1)
    }
}

/// The number by which the unit knows the table of a component: brightness, blue, red.
pub open spec fn matrix_phase(c: int) -> u32 {
    if c == 0 {
        0x03
    } else if c == 1 {
        0x43
    } else {
        0x83
    }
}

/// For every component whose table is there, the unit is told which table comes, then gets its 64
/// coefficients in the order in which the header holds them, then is told that it is over.
pub proof fn law_coefficients_are_written_in_order(h: HeaderView, c: int, k: int)
    requires
        0 <= c < 3,
        0 <= k < 64,
        has_matrix(h, c),
    ensures
        ({
            let s = quant_script(h);
            let at = matrix_at(h, c);
            &&& 0 <= at && at + 66 <= s.len()
            &&& s[at] == (HwOp::Write { addr: 0x0B00_0090, value: matrix_phase(c) })
            &&& s[at + 1 + k] == (HwOp::Write {
                addr: 0x0B00_0098,
                value: h.quant_tables[h.quant_tbl[c] as int][k] as u32,
            })
            &&& s[at + 65] == (HwOp::Write { addr: 0x0B00_0090, value: 0 })
        }),
{
    reveal_with_fuel(matrix_at, 4);
    assert((0x03u32 & 0xFF) << 0u32 == 0x03 && (0x43u32 & 0xFF) << 0u32 == 0x43 && (0x83u32 & 0xFF)
        << 0u32 == 0x83 && (0u32 & 0xFF) << 0u32 == 0) by (bit_vector);
    let s = quant_script(h);
    let at = matrix_at(h, c);
    let phase = matrix_phase(c);
    let part = quant_part(h, c, phase);
    assert(part.len() == 66);
    assert(s.subrange(at, at + 66) =~= part);
    assert(s[at] == part[0]);
    assert(s[at + 1 + k] == part[1 + k]);
    assert(s[at + 65] == part[65]);
}

/// Nothing is written for components whose table is not there.
pub proof fn law_no_coefficients_without_table(h: HeaderView)
    ensures
        quant_script(h).len() == matrix_at(h, 3),
{
    reveal_with_fuel(matrix_at, 4);
}

/// From the data to the unit: for every component, the `k`-th coefficient that the unit gets
/// behind the choice of its table is the `k`-th coefficient of the quantisation table that the
/// data holds for the component's destination, be it written in one byte or in two.
pub proof fn law_coefficients_reach_the_unit(
    front: Seq<Segment>,
    matrices: Seq<QuantSpec>,
    m: int,
    mid: Seq<Segment>,
    frame: Segment,
    back: Seq<Segment>,
    scan: Seq<ScanSpec>,
    selection: Seq<u8>,
    data: Seq<u8>,
    c: int,
    k: int,
)
    requires
        forall|j: int| 0 <= j < front.len() ==> segment_valid(#[trigger] front[j]),
        forall|j: int| 0 <= j < mid.len() ==> segment_valid(#[trigger] mid[j]),
        forall|j: int| 0 <= j < back.len() ==> segment_valid(#[trigger] back[j]),
        segment_valid(Segment::Quant { matrices }),
        segment_valid(frame),
        scan_valid(scan, selection),
        0 <= m < matrices.len(),
        forall|j: int| m < j < matrices.len() ==> (#[trigger] matrices[j]).dest != matrices[m].dest,
        no_quants(mid),
        no_quants(back),
        no_frames(back),
        frame matches Segment::Frame { progressive, precision, height, width, comps }
            && comps.len() == 3 && comps[c].table == matrices[m].dest,
        0 <= c < 3,
        0 <= k < 64,
    ensures
        parsed(
            image_bytes(
                front + seq![Segment::Quant { matrices }] + (mid + seq![frame] + back),
                scan,
                selection,
                data,
            ),
        ) matches Parsed::Header(h) && {
            let s = quant_script(h);
            let at = matrix_at(h, c);
            &&& has_matrix(h, c)
            &&& s[at] == (HwOp::Write { addr: 0x0B00_0090, value: matrix_phase(c) })
            &&& s[at + 1 + k] == (HwOp::Write {
                addr: 0x0B00_0098,
                value: matrices[m].coefs[k] as u32,
            })
        },
{
    let quant = seq![Segment::Quant { matrices }];
    let rest = mid + seq![frame] + back;
    let segments = front + quant + rest;
    assert forall|j: int| 0 <= j < rest.len() implies segment_valid(#[trigger] rest[j]) && !(rest[j]
        is Quant) by {
        if j < mid.len() {
            assert(rest[j] == mid[j]);
        } else if j > mid.len() {
            assert(rest[j] == back[j - mid.len() - 1]);
        }
    }
    law_quantisation_table_is_kept(front, matrices, m, rest, scan, selection, data);
    let before = front + quant + mid;
    assert forall|j: int| 0 <= j < before.len() implies segment_valid(#[trigger] before[j]) by {
        if j < front.len() {
            assert(before[j] == front[j]);
        } else if j > front.len() {
            assert(before[j] == mid[j - front.len() - 1]);
        }
    }
    law_frame_is_kept(before, frame, back, scan, selection, data);
    assert(in_parts(before, seq![frame], back) =~= segments);
    assert(in_parts(front, quant, rest) =~= segments);
    assert(quant_valid(matrices[m]));
    if let Parsed::Header(h) = parsed(image_bytes(segments, scan, selection, data)) {
        assert(h.sampling[c] == h.sampling[c]);
        law_coefficients_are_written_in_order(h, c, k);
    }
}

// ---------------------------------------------------------------------------
// Huffman tables
// ---------------------------------------------------------------------------
/// A number of sixteen bits with its top bit copied into the upper half of a word.
pub open spec fn signed16(v: int) -> int {
    if v >= 0x8000 {
        v + 0xFFFF_0000
    } else {
        v
    }
}

/// A byte with its top bit copied into the rest of a word.
pub open spec fn signed8(v: int) -> int {
    if v >= 0x80 {
        v + 0xFFFF_FF00
    } else {
        v
    }
}

/// The `p`-th table that the unit gets: both tables for constants, then the others.
pub open spec fn nth_table(p: int) -> int {
    if p == 0 {
        0
    } else if p == 1 {
        2
    } else if p == 2 {
        1
    } else {
        3
    }
}

proof fn lemma_words(c: u32)
    ensures
        c <= 0xFFFF ==> code_word(c) == signed16(c as int),
        c <= 0xFF ==> byte_word(c) == signed8(c as int),
{
    assert(c <= 0xFFFF ==> ((c & 0x8000 != 0) == (c >= 0x8000)) && (((0xFFFFu32 & 0xFFFF) << 16u32)
        | c) == 0xFFFF_0000 + c && (((0u32 & 0xFFFF) << 16u32) | c) == c) by (bit_vector);
    assert(c <= 0xFF ==> ((c & 0x80 != 0) == (c >= 0x80)) && (((0xFF_FFFFu32 & 0xFF_FFFF) << 8u32)
        | c) == 0xFFFF_FF00 + c && (((0u32 & 0xFF_FFFF) << 8u32) | c) == c) by (bit_vector);
}

/// The unit gets the least codes of all four tables, then the greatest, then the value pointers,
/// sixteen words of each table, with the sign carried on; each column is announced before it.
pub proof fn law_code_columns_are_written(t: Seq<HuffView>, p: int, j: int)
    requires
        t.len() == 4,
        0 <= p < 4,
        0 <= j < 16,
    ensures
        ({
            let s = huff_script(t);
            let table = t[nth_table(p)];
            let at = 16 * p + j;
            &&& s.len() >= 199
            &&& s[0] == (HwOp::Write { addr: 0x0B00_0080, value: 0x003 })
            &&& s[1 + at] matches HwOp::Write { addr, value } && addr == 0x0B00_0088 && (
            table.min_codes[j] <= 0xFFFF ==> value == signed16(table.min_codes[j] as int))
            &&& s[65] == (HwOp::Write { addr: 0x0B00_0080, value: 0x403 })
            &&& s[66] == (HwOp::Write { addr: 0x0B00_0084, value: 0x440 })
            &&& s[67 + at] matches HwOp::Write { addr, value } && addr == 0x0B00_0088 && (
            table.max_codes[j] <= 0xFFFF ==> value == signed16(table.max_codes[j] as int))
            &&& s[131] == (HwOp::Write { addr: 0x0B00_0080, value: 0x803 })
            &&& s[132] == (HwOp::Write { addr: 0x0B00_0084, value: 0x880 })
            &&& s[133 + at] == (HwOp::Write {
                addr: 0x0B00_0088,
                value: signed8(table.ptrs[j] as int) as u32,
            })
            &&& s[197] == (HwOp::Write { addr: 0x0B00_0080, value: 0xC03 })
            &&& s.last() == (HwOp::Write { addr: 0x0B00_0080, value: 0 })
        }),
{
    let s = huff_script(t);
    let table = t[nth_table(p)];
    let at = 16 * p + j;
    lemma_words(table.min_codes[j]);
    lemma_words(table.max_codes[j]);
    lemma_words(table.ptrs[j] as u32);
    assert((0x003u32 & 0xFFF) << 0u32 == 0x003 && (0x403u32 & 0xFFF) << 0u32 == 0x403 && (0x803u32
        & 0xFFF) << 0u32 == 0x803 && (0xC03u32 & 0xFFF) << 0u32 == 0xC03 && (0u32 & 0xFFF) << 0u32
        == 0) by (bit_vector);
    assert(s[1 + at] == code_words(table.min_codes)[j]);
    assert(s[67 + at] == code_words(table.max_codes)[j]);
    assert(s[133 + at] == ptr_words(table.ptrs)[j]);
}

/// How many values of a table the unit gets: those of up to twelve bits of a table for constants,
/// all of another.
pub open spec fn value_total(t: HuffView, dc: bool) -> nat {
    if dc {
        total(t.bits.take(12))
    } else {
        total(t.bits)
    }
}

/// How many words the values of a table take: twelve of a table for constants, 162 of another,
/// or more where it has more.
pub open spec fn value_words_of(t: HuffView, dc: bool) -> int {
    let n = value_total(t, dc) as int;
    let room = if dc {
        12int
    } else {
        162int
    };
    if n < room {
        room
    } else {
        n
    }
}

/// Counts add up the same from either end.
proof fn lemma_value_count(t: HuffView, dc: bool)
    requires
        t.bits.len() == 16,
    ensures
        value_count(t, dc) == value_total(t, dc),
{
    lemma_total(t.bits.take(12));
    lemma_total(t.bits);
    assert(t.bits.take(16) =~= t.bits);
}

/// The values of a table are written in their order, with the sign carried on, and the place that
/// is left is filled with ones.
pub proof fn law_values_are_written(t: HuffView, dc: bool, k: int)
    requires
        t.bits.len() == 16,
        value_total(t, dc) <= t.num_values,
        0 <= k < value_words_of(t, dc),
    ensures
        value_words(t, dc).len() == value_words_of(t, dc),
        value_words(t, dc)[k] == (HwOp::Write {
            addr: 0x0B00_0088,
            value: if k < value_total(t, dc) {
                signed8(t.values[k] as int) as u32
            } else {
                0xFFFF_FFFF
            },
        }),
{
    lemma_value_count(t, dc);
    lemma_words(t.values[k] as u32);
}

/// The values of the tables come one table behind the other behind the columns of codes, and the
/// upload ends right behind them.
pub proof fn law_value_parts_follow(t: Seq<HuffView>)
    requires
        t.len() == 4,
    ensures
        huff_script(t).skip(198).drop_last() == value_words(t[0], true) + value_words(t[2], true)
            + value_words(t[1], false) + value_words(t[3], false),
{
    assert(huff_script(t).skip(198).drop_last() =~= value_words(t[0], true) + value_words(t[2], true)
        + value_words(t[1], false) + value_words(t[3], false));
}

// ---------------------------------------------------------------------------
// Geometry
// ---------------------------------------------------------------------------
/// Whether colour is halved across in a format, and whether it is halved down.
pub open spec fn halved(format: u32) -> (bool, bool) {
    (format == 0 || format == 1, format == 0 || format == 2)
}

/// The planes of a frame: the brightness plane covers the picture in whole blocks, of 16 where
/// colour is halved that way and of 8 where it is not, with no block to spare. A colour plane has
/// half of its columns where colour is halved across, half of its lines where it is halved down,
/// and is not there in a grey picture.
pub proof fn law_planes_cover_the_picture(h: HeaderView)
    requires
        h.format <= 4,
    ensures
        ({
            let (across, down) = halved(h.format);
            let (w, t) = (aligned_w(h), aligned_h(h));
            &&& h.width <= w && h.height <= t
            &&& across ==> w % 16 == 0 && w < h.width + 16
            &&& !across ==> w % 8 == 0 && w < h.width + 8
            &&& down ==> t % 16 == 0 && t < h.height + 16
            &&& !down ==> t % 8 == 0 && t < h.height + 8
            &&& luma_bytes(h) == w * t
            &&& chroma_bytes(h) == (if h.format == 4 {
                0
            } else {
                (if across { w / 2 } else { w }) * (if down { t / 2 } else { t })
            })
            &&& frame_bytes(h) == luma_bytes(h) + chroma_bytes(h) + chroma_bytes(h)
        }),
{
    let (w, t) = (aligned_w(h), aligned_h(h));
    let (u, v) = (w / 2, t / 2);
    if h.format == 0 {
        assert(w == 2 * u && t == 2 * v);
        assert(u * t / 2 == u * v) by (nonlinear_arith)
            requires
                t == 2 * v,
        ;
    } else if h.format == 1 {
        assert(w == 2 * u);
        assert(w * t / 2 == u * t) by (nonlinear_arith)
            requires
                w == 2 * u,
        ;
    } else if h.format == 2 {
        assert(t == 2 * v);
        assert(w * t / 2 == w * v) by (nonlinear_arith)
            requires
                t == 2 * v,
        ;
    }
}

/// What the unit is told of the planes is what they are: lines of the brightness plane are as
/// long as it is wide, lines of a colour plane as long as that plane is.
pub proof fn law_layout_is_that_of_the_planes(h: HeaderView)
    requires
        h.format <= 4,
        h.width <= 0xFFFF,
        h.height <= 0xFFFF,
        luma_bytes(h) <= u32::MAX,
    ensures
        ({
            let l = layout_of(h);
            let (across, down) = halved(h.format);
            &&& l.aligned_width == aligned_w(h) && l.aligned_height == aligned_h(h)
            &&& l.stride_y == aligned_w(h)
            &&& l.stride_c == (if h.format == 4 {
                0
            } else if across {
                aligned_w(h) / 2
            } else {
                aligned_w(h)
            })
            &&& l.luma_size == luma_bytes(h) && l.chroma_size == chroma_bytes(h)
            &&& l.bus_req_num == (if h.format == 0 {
                2
            } else if h.format <= 2 {
                3u32
            } else {
                4
            })
        }),
{
    law_planes_cover_the_picture(h);
    crate::drivers::jpu::decoder::law_chroma_within_luma(h);
}

/// The unit is told of as many blocks as the components have together, and of the sampling
/// factors of component `c` in the four bits that belong to it, the first component on top.
pub proof fn law_layout_counts_blocks(h: HeaderView, c: int)
    requires
        h.num_components == 3,
        h.sampling.len() == 3,
        forall|k: int| 0 <= k < 3 ==> (#[trigger] h.sampling[k]).0 < 4 && h.sampling[k].1 < 4,
        0 <= c < 3,
    ensures
        layout_of(h).mcu_block_num == h.sampling[0].0 * h.sampling[0].1 + h.sampling[1].0
            * h.sampling[1].1 + h.sampling[2].0 * h.sampling[2].1,
        (layout_of(h).comp_info >> ((8 - 4 * c) as u32)) & 0xf == 4 * h.sampling[c].0
            + h.sampling[c].1,
        layout_of(h).comp_info < 0x1000,
{
    assert(h.sampling[0].0 < 4 && h.sampling[1].0 < 4 && h.sampling[2].0 < 4);
    let (a0, d0) = (h.sampling[0].0 as u32, h.sampling[0].1 as u32);
    let (a1, d1) = (h.sampling[1].0 as u32, h.sampling[1].1 as u32);
    let (a2, d2) = (h.sampling[2].0 as u32, h.sampling[2].1 as u32);
    let r = (((a0 << 2u32) | d0) << 8u32) | (((a1 << 2u32) | d1) << 4u32) | ((a2 << 2u32) | d2);
    assert((r >> 8u32) & 0xf == 4 * a0 + d0 && (r >> 4u32) & 0xf == 4 * a1 + d1 && (r >> 0u32) & 0xf
        == 4 * a2 + d2 && r < 0x1000) by (bit_vector)
        requires
            a0 < 4,
            a1 < 4,
            a2 < 4,
            d0 < 4,
            d1 < 4,
            d2 < 4,
            r == (((a0 << 2u32) | d0) << 8u32) | (((a1 << 2u32) | d1) << 4u32) | ((a2 << 2u32)
                | d2),
    ;
    let (b0, b1, b2) = (
        h.sampling[0].0 * h.sampling[0].1,
        h.sampling[1].0 * h.sampling[1].1,
        h.sampling[2].0 * h.sampling[2].1,
    );
    assert(0 <= b0 <= 9 && 0 <= b1 <= 9 && 0 <= b2 <= 9) by (nonlinear_arith)
        requires
            b0 == h.sampling[0].0 * h.sampling[0].1,
            b1 == h.sampling[1].0 * h.sampling[1].1,
            b2 == h.sampling[2].0 * h.sampling[2].1,
            h.sampling[0].0 < 4,
            h.sampling[0].1 < 4,
            h.sampling[1].0 < 4,
            h.sampling[1].1 < 4,
            h.sampling[2].0 < 4,
            h.sampling[2].1 < 4,
    ;
    assert(comp_blocks(h, 0) == b0 && comp_blocks(h, 1) == b1 && comp_blocks(h, 2) == b2);
}

// ---------------------------------------------------------------------------
// Registers
// ---------------------------------------------------------------------------
/// The value of a write, and whether it goes to `addr`.
pub open spec fn writes(op: HwOp, addr: usize) -> bool {
    op matches HwOp::Write { addr: a, value } && a == addr
}

/// The value of a write.
pub open spec fn value_of(op: HwOp) -> u32 {
    match op {
        HwOp::Write { addr, value } => value,
        _ => 0,
    }
}

/// The unit reads the stream from its buffer: it begins at the buffer, is read from there on, and
/// ends where the copied bytes end, which also is how far it was written; pages of 256 bytes
/// cover it, with no page to spare, and the end is marked as known.
pub proof fn law_stream_registers(addr: usize, len: usize, h: HeaderView, l: FrameLayout)
    requires
        addr + len <= u32::MAX,
    ensures
        ({
            let s = stream_script(addr, len, h, l);
            let pages = value_of(s[4]) & 0x7FFF_FFFF;
            &&& s.len() == 16
            &&& s[0] == (HwOp::Write { addr: 0x0B00_0230, value: addr as u32 })
            &&& s[1] == (HwOp::Write { addr: 0x0B00_0208, value: (addr + len) as u32 })
            &&& s[2] == (HwOp::Write { addr: 0x0B00_0210, value: addr as u32 })
            &&& s[3] == (HwOp::Write { addr: 0x0B00_020C, value: (addr + len) as u32 })
            &&& writes(s[4], 0x0B00_0234)
            &&& value_of(s[4]) >= 0x8000_0000
            &&& len <= 256 * pages < len + 256
        }),
{
    let n = ((len + 255) / 256) as u32;
    let v = ((1u32 & 1) << 31u32) | ((n & 0x7FFF_FFFF) << 0u32);
    assert(v >= 0x8000_0000 && v & 0x7FFF_FFFF == n) by (bit_vector)
        requires
            v == ((1u32 & 1) << 31u32) | ((n & 0x7FFF_FFFF) << 0u32),
            n < 0x0200_0000,
    ;
}

/// The unit is told of the picture: its size in whole blocks, width in the upper half, its blocks
/// and components, the restart interval and the bus requests; counters are cleared, and neither
/// turning nor scaling is asked for.
pub proof fn law_picture_registers(addr: usize, len: usize, h: HeaderView, l: FrameLayout)
    requires
        l.aligned_width <= 0xFFFF,
        l.aligned_height <= 0xFFFF,
        l.mcu_block_num <= 0xFFFF,
        l.comp_info <= 0xFFF,
        h.num_components <= 0xF,
    ensures
        ({
            let s = stream_script(addr, len, h, l);
            &&& s[5] == (HwOp::Write { addr: 0x0B00_0118, value: 0 })
            &&& s[6] == (HwOp::Write { addr: 0x0B00_011C, value: 0 })
            &&& s[7] == (HwOp::Write { addr: 0x0B00_0008, value: 0 })
            &&& s[9] == (HwOp::Write {
                addr: 0x0B00_0014,
                value: (0x1_0000 * l.aligned_width + l.aligned_height) as u32,
            })
            &&& s[10] == (HwOp::Write { addr: 0x0B00_001C, value: 0 })
            &&& s[11] == (HwOp::Write {
                addr: 0x0B00_0018,
                value: (0x1_0000 * l.mcu_block_num + 0x1000 * h.num_components
                    + l.comp_info) as u32,
            })
            &&& s[12] == (HwOp::Write { addr: 0x0B00_0030, value: 0 })
            &&& s[13] == (HwOp::Write { addr: 0x0B00_00B0, value: h.restart_interval })
            &&& s[14] == (HwOp::Write { addr: 0x0B00_0020, value: 0 })
            &&& s[15] == (HwOp::Write { addr: 0x0B00_002C, value: l.bus_req_num })
        }),
{
    let (w, t) = (l.aligned_width, l.aligned_height);
    let (n, c, i) = (l.mcu_block_num, h.num_components, l.comp_info);
    assert(((w & 0xFFFF) << 16u32) | ((t & 0xFFFF) << 0u32) == 0x1_0000 * w + t) by (bit_vector)
        requires
            w <= 0xFFFF,
            t <= 0xFFFF,
    ;
    assert((n << 16u32) | (c << 12u32) | i == 0x1_0000 * n + 0x1000 * c + i) by (bit_vector)
        requires
            n <= 0xFFFF,
            c <= 0xF,
            i <= 0xFFF,
    ;
}

/// The unit is told to use the tables that it gets, and for each component which of the two
/// tables for constants and which of the two others it has; the first component is on top.
pub proof fn law_table_choice(addr: usize, len: usize, h: HeaderView, l: FrameLayout)
    requires
        h.dc_huff_tbl.len() == 3,
        h.ac_huff_tbl.len() == 3,
        forall|k: int| 0 <= k < 3 ==> #[trigger] h.dc_huff_tbl[k] <= 1,
        forall|k: int| 0 <= k < 3 ==> #[trigger] h.ac_huff_tbl[k] <= 1,
    ensures
        stream_script(addr, len, h, l)[8] == (HwOp::Write {
            addr: 0x0B00_0010,
            value: (0x40 + 0x80 * (4 * h.dc_huff_tbl[0] + 2 * h.dc_huff_tbl[1] + h.dc_huff_tbl[2])
                + 0x400 * (4 * h.ac_huff_tbl[0] + 2 * h.ac_huff_tbl[1]
                + h.ac_huff_tbl[2])) as u32,
        }),
{
    assert(h.dc_huff_tbl[0] <= 1 && h.dc_huff_tbl[1] <= 1 && h.dc_huff_tbl[2] <= 1);
    assert(h.ac_huff_tbl[0] <= 1 && h.ac_huff_tbl[1] <= 1 && h.ac_huff_tbl[2] <= 1);
    let (a, b, c) = (h.dc_huff_tbl[0] as u32, h.dc_huff_tbl[1] as u32, h.dc_huff_tbl[2] as u32);
    let (x, y, z) = (h.ac_huff_tbl[0] as u32, h.ac_huff_tbl[1] as u32, h.ac_huff_tbl[2] as u32);
    let dc = (((a << 1u32) | b) << 1u32) | c;
    let ac = (((x << 1u32) | y) << 1u32) | z;
    assert(((dc & 7) << 7u32) | ((ac & 7) << 10u32) | ((1u32 & 1) << 6u32) == 0x40 + 0x80 * (4 * a
        + 2 * b + c) + 0x400 * (4 * x + 2 * y + z)) by (bit_vector)
        requires
            a <= 1,
            b <= 1,
            c <= 1,
            x <= 1,
            y <= 1,
            z <= 1,
            dc == (((a << 1u32) | b) << 1u32) | c,
            ac == (((x << 1u32) | y) << 1u32) | z,
    ;
}

/// Before the start the page with the first byte of coded data and the one behind it are brought
/// into the two halves of the unit's buffer, even pages into the first; the unit is pointed at
/// the word and the bit where the data begins, and at the half that comes next.
pub proof fn law_coded_data_is_pointed_at(stream: usize, ecs: int)
    requires
        0 <= ecs <= 0xFFFF_FFFF,
        stream + ecs + 512 <= u32::MAX,
    ensures
        ({
            let s = gram_script(stream, ecs);
            let page = value_of(s[0]);
            let (word, bit) = (value_of(s[14]), value_of(s[20]));
            &&& s.len() == 21
            &&& writes(s[0], 0x0B00_022C) && 256 * page <= ecs < 256 * page + 256
            &&& s[1] == (HwOp::Write { addr: 0x0B00_0214, value: (stream + 256 * page) as u32 })
            &&& s[2] == (HwOp::Write {
                addr: 0x0B00_0218,
                value: if page % 2 == 0 {
                    0
                } else {
                    64
                },
            })
            &&& s[3] == (HwOp::Write { addr: 0x0B00_021C, value: 64 })
            &&& s[4] == (HwOp::Write { addr: 0x0B00_0220, value: 0 })
            &&& s[6] == (HwOp::Write { addr: 0x0B00_022C, value: (page + 1) as u32 })
            &&& s[7] == (HwOp::Write {
                addr: 0x0B00_0214,
                value: (stream + 256 * page + 256) as u32,
            })
            &&& s[8] == (HwOp::Write {
                addr: 0x0B00_0218,
                value: if page % 2 == 0 {
                    64
                } else {
                    0
                },
            })
            &&& s[9] == (HwOp::Write { addr: 0x0B00_021C, value: 64 })
            &&& s[10] == (HwOp::Write { addr: 0x0B00_0220, value: 0 })
            &&& s[12] == (HwOp::Write { addr: 0x0B00_022C, value: (page + 2) as u32 })
            &&& s[13] == (HwOp::Write { addr: 0x0B00_0228, value: 1 })
            &&& writes(s[14], 0x0B00_0114) && writes(s[20], 0x0B00_0160)
            &&& 256 * page + 4 * (word - value_of(s[2])) + bit / 8 == ecs
            &&& word % 4 == 0 && bit % 8 == 0 && bit < 128
            &&& s[15] == (HwOp::Write { addr: 0x0B00_0140, value: 0 })
            &&& s[16] == (HwOp::Write { addr: 0x0B00_0144, value: 127 })
            &&& s[17] == (HwOp::Write { addr: 0x0B00_0148, value: value_of(s[8]) })
            &&& s[18] == (HwOp::Write { addr: 0x0B00_014C, value: value_of(s[8]) })
            &&& s[19] == (HwOp::Write { addr: 0x0B00_0100, value: 4 })
        }),
{
    let page = ecs / 256;
    assert(page_address(stream, page) == stream + 256 * page);
    assert(page_address(stream, page + 1) == stream + 256 * (page + 1));
}

/// The bits that start the unit and clear its status.
proof fn lemma_start_bits()
    ensures
        (1u32 & 1) << 0u32 == 1,
        ((1u32 & 1) << 0u32) | ((1u32 & 1) << 1u32) == 3,
{
    assert(((1u32 & 1) << 0u32) | ((1u32 & 1) << 1u32) == 3 && (1u32 & 1) << 0u32 == 1)
        by (bit_vector);
}

/// At the start the unit gets the place of each plane, one right behind the other, and the length
/// of their lines; the picture begins without restarts, differences or a leftover status, and
/// the start comes last.
pub proof fn law_planes_lie_behind_one_another(frame: usize, ecs: int, l: FrameLayout)
    requires
        frame + l.luma_size + l.chroma_size <= u32::MAX,
        0 <= ecs,
    ensures
        ({
            let s = start_script(frame, ecs, l);
            &&& s.len() == 15
            &&& s[0] == (HwOp::Write { addr: 0x0B00_00B4, value: 0 })
            &&& s[1] == (HwOp::Write { addr: 0x0B00_00B8, value: 0 })
            &&& s[2] == (HwOp::Write { addr: 0x0B00_00F0, value: 0 })
            &&& s[3] == (HwOp::Write { addr: 0x0B00_00F4, value: 0 })
            &&& s[4] == (HwOp::Write { addr: 0x0B00_00F8, value: 0 })
            &&& writes(s[5], 0x0B00_0160) && value_of(s[5]) == 8 * (ecs % 16)
            &&& s[6] == (HwOp::Write { addr: 0x0B00_0100, value: 3 })
            &&& writes(s[7], 0x0B00_0034) && value_of(s[7]) == frame
            &&& writes(s[8], 0x0B00_0038) && value_of(s[8]) - value_of(s[7]) == l.luma_size
            &&& writes(s[9], 0x0B00_003C) && value_of(s[9]) - value_of(s[8]) == l.chroma_size
            &&& s[10] == (HwOp::Write { addr: 0x0B00_0064, value: l.stride_y })
            &&& s[11] == (HwOp::Write { addr: 0x0B00_0068, value: l.stride_c })
            &&& s[12] == (HwOp::Write { addr: 0x0B00_0028, value: 0 })
            &&& s[13] == (HwOp::Write { addr: 0x0B00_0004, value: 3 })
            &&& s[14] == (HwOp::Write { addr: 0x0B00_0000, value: 1 })
        }),
{
    lemma_start_bits();
}

/// What is decoded is the copied stream, and nothing is told to the unit before the copy or
/// behind the start; a frame that has no room leaves the unit alone, and so does a stream without
/// a header. The frame that is promised has the size of the picture and covers all planes.
pub proof fn law_decode_begins_with_the_copy(dec: JpuDecoder, d: Seq<u8>)
    requires
        d.len() > 0,
        dec.stream_buf.size > 0,
    ensures
        ({
            let n = if d.len() < dec.stream_buf.size {
                d.len() as int
            } else {
                dec.stream_buf.size as int
            };
            let s = begin_ops(dec, d);
            match parsed(d) {
                Parsed::Header(h) => {
                    &&& s[0] == (HwOp::CopyIn { addr: dec.stream_buf.addr, len: n as usize })
                    &&& s[1] == (HwOp::CleanCache { start: dec.stream_buf.addr, size: n as usize })
                    &&& if luma_bytes(h) + 2 * chroma_bytes(h) > dec.frame_buf.size {
                        s.len() == 2 && begin_outcome(dec, d) is Err
                    } else {
                        &&& s.last() == (HwOp::Write { addr: 0x0B00_0000, value: 1 })
                        &&& begin_outcome(dec, d) == Ok::<DecodeResult, &'static str>(
                            DecodeResult {
                                width: h.width,
                                height: h.height,
                                frame_size: (luma_bytes(h) + 2 * chroma_bytes(h)) as usize,
                            },
                        )
                    }
                },
                _ => s.len() == 0 && begin_outcome(dec, d) is Err,
            }
        }),
{
    lemma_start_bits();
}

/// With fewer than three components only those that are there are counted and described; a stream
/// without a usable header fails with the reason, a frame without room says so.
pub proof fn law_fewer_components(h: HeaderView)
    requires
        h.sampling.len() == 3,
        h.sampling[0].0 < 4,
        h.sampling[0].1 < 4,
        h.sampling[1].0 < 4,
        h.sampling[1].1 < 4,
    ensures
        h.num_components == 0 ==> layout_of(h).mcu_block_num == 0 && layout_of(h).comp_info == 0,
        h.num_components == 1 ==> layout_of(h).mcu_block_num == h.sampling[0].0 * h.sampling[0].1
            && layout_of(h).comp_info == 0x100 * (4 * h.sampling[0].0 + h.sampling[0].1),
        h.num_components == 2 ==> layout_of(h).mcu_block_num == h.sampling[0].0 * h.sampling[0].1
            + h.sampling[1].0 * h.sampling[1].1 && layout_of(h).comp_info == 0x100 * (4
            * h.sampling[0].0 + h.sampling[0].1) + 0x10 * (4 * h.sampling[1].0 + h.sampling[1].1),
{
    let (a0, d0) = (h.sampling[0].0 as u32, h.sampling[0].1 as u32);
    let (a1, d1) = (h.sampling[1].0 as u32, h.sampling[1].1 as u32);
    assert((((a0 << 2u32) | d0) << 8u32) == 0x100 * (4 * a0 + d0) && (((a0 << 2u32) | d0) << 8u32) | ((
    (a1 << 2u32) | d1) << 4u32) == 0x100 * (4 * a0 + d0) + 0x10 * (4 * a1 + d1)) by (bit_vector)
        requires
            a0 < 4,
            a1 < 4,
            d0 < 4,
            d1 < 4,
    ;
    let (b0, b1) = (h.sampling[0].0 * h.sampling[0].1, h.sampling[1].0 * h.sampling[1].1);
    assert(0 <= b0 <= 9 && 0 <= b1 <= 9) by (nonlinear_arith)
        requires
            b0 == h.sampling[0].0 * h.sampling[0].1,
            b1 == h.sampling[1].0 * h.sampling[1].1,
            h.sampling[0].0 < 4,
            h.sampling[0].1 < 4,
            h.sampling[1].0 < 4,
            h.sampling[1].1 < 4,
    ;
    assert(comp_blocks(h, 0) == (if h.num_components > 0 {
        b0
    } else {
        0
    }));
    assert(comp_blocks(h, 1) == (if h.num_components > 1 {
        b1
    } else {
        0
    }));
}

/// A stream without a usable header fails with the reason that the search for it gave, and a frame
/// for which there is no room says so.
pub proof fn law_reasons_not_to_decode(dec: JpuDecoder, d: Seq<u8>)
    ensures
        parsed(d) matches Parsed::Fail(e) ==> begin_outcome(dec, d) == Err::<
            DecodeResult,
            &'static str,
        >(e),
        parsed(d) matches Parsed::Header(h) ==> luma_bytes(h) + 2 * chroma_bytes(h)
            > dec.frame_buf.size ==> begin_outcome(dec, d) == Err::<DecodeResult, &'static str>(
            ERR_OUTPUT_SMALL,
        ),
{
}

} // verus!
