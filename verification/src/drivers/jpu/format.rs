//! JPEG data as a camera writes it, and what the header parser makes of it.
//!
//! An image is described by its segments, each with the numbers and tables that it carries. The
//! functions below write such a description down byte by byte; the laws say that parsing the
//! bytes gives the numbers and tables back.

use crate::drivers::jpu::header::{
    be16_at, blank_header, dht_applied, dht_fits, dht_loaded, dht_num_values, dqt_applied,
    dqt_loaded, dri_applied, first_code, generated, huff_slot_of, lemma_codes_fit,
    parsed, sof_applied, sof_sampling, sos_applied, sum_bytes, walk, HeaderView, HuffView, Parsed,
    ERR_NO_SOS, ERR_SOF_SHORT,
};
use crate::pieces::{joined, lemma_joined_first, lemma_joined_one};
use vstd::arithmetic::power2::{lemma2_to64, lemma_pow2_unfold, pow2};
use vstd::prelude::*;

verus! {

/// A Huffman table: its class and destination, how many codes of each length it has, and the
/// values of the codes.
#[verifier::ext_equal]
pub struct HuffSpec {
    pub class: u8,
    pub dest: u8,
    pub counts: Seq<u8>,
    pub values: Seq<u8>,
}

/// A quantisation table: its destination and its coefficients, written in two bytes each where
/// `wide`.
#[verifier::ext_equal]
pub struct QuantSpec {
    pub wide: bool,
    pub dest: u8,
    pub coefs: Seq<u16>,
}

/// A component of a frame: its name, its sampling factors and its quantisation table.
#[verifier::ext_equal]
pub struct CompSpec {
    pub id: u8,
    pub across: u8,
    pub down: u8,
    pub table: u8,
}

/// A component of a scan: its name and its Huffman tables.
#[verifier::ext_equal]
pub struct ScanSpec {
    pub id: u8,
    pub dc: u8,
    pub ac: u8,
}

/// A segment before the scan.
pub enum Segment {
    /// Huffman tables.
    Huff { tables: Seq<HuffSpec> },
    /// Quantisation tables.
    Quant { matrices: Seq<QuantSpec> },
    /// The frame, baseline or progressive.
    Frame { progressive: bool, precision: u8, height: u16, width: u16, comps: Seq<CompSpec> },
    /// The restart interval.
    Restart { interval: u16 },
    /// Anything else that has a length.
    Other { marker: u8, body: Seq<u8> },
}

/// The sum of some counts.
pub open spec fn total(counts: Seq<u8>) -> nat
    decreases counts.len(),
{
    if counts.len() == 0 {
        0
    } else {
        counts[0] as nat + total(counts.drop_first())
    }
}

/// A number in two bytes, the high one first.
pub open spec fn be_bytes(n: int) -> Seq<u8> {
    seq![(n / 256) as u8, (n % 256) as u8]
}

/// Whether a Huffman table can be written down: sixteen counts, and as many values as they say.
pub open spec fn huff_valid(t: HuffSpec) -> bool {
    t.class < 16 && t.dest < 16 && t.counts.len() == 16 && t.values.len() == total(t.counts)
        && t.values.len() <= 256
}

/// A Huffman table in bytes.
pub open spec fn huff_bytes(t: HuffSpec) -> Seq<u8> {
    seq![(16 * t.class + t.dest) as u8] + t.counts + t.values
}

/// Huffman tables in bytes.
pub open spec fn huff_rows(ts: Seq<HuffSpec>) -> Seq<Seq<u8>> {
    Seq::new(ts.len(), |k: int| huff_bytes(ts[k]))
}

/// Whether a quantisation table can be written down: 64 coefficients, and a destination below 4.
pub open spec fn quant_valid(t: QuantSpec) -> bool {
    &&& t.dest < 4
    &&& t.coefs.len() == 64
    &&& !t.wide ==> forall|k: int| 0 <= k < 64 ==> #[trigger] t.coefs[k] < 256
}

/// The coefficients of a quantisation table in bytes.
pub open spec fn coef_bytes(t: QuantSpec) -> Seq<u8> {
    if t.wide {
        Seq::new(
            128,
            |j: int|
                if j % 2 == 0 {
                    (t.coefs[j / 2] / 256) as u8
                } else {
                    (t.coefs[j / 2] % 256) as u8
                },
        )
    } else {
        Seq::new(64, |j: int| t.coefs[j] as u8)
    }
}

/// A quantisation table in bytes.
pub open spec fn quant_bytes(t: QuantSpec) -> Seq<u8> {
    seq![
        if t.wide {
            (16 + t.dest) as u8
        } else {
            t.dest
        },
    ] + coef_bytes(t)
}

/// Quantisation tables in bytes.
pub open spec fn quant_rows(ts: Seq<QuantSpec>) -> Seq<Seq<u8>> {
    Seq::new(ts.len(), |k: int| quant_bytes(ts[k]))
}

/// The components of a frame in bytes.
pub open spec fn comp_rows(cs: Seq<CompSpec>) -> Seq<u8> {
    Seq::new(
        3 * cs.len(),
        |j: int|
            if j % 3 == 0 {
                cs[j / 3].id
            } else if j % 3 == 1 {
                (16 * cs[j / 3].across + cs[j / 3].down) as u8
            } else {
                cs[j / 3].table
            },
    )
}

/// The components of a scan in bytes.
pub open spec fn scan_rows(cs: Seq<ScanSpec>) -> Seq<u8> {
    Seq::new(
        2 * cs.len(),
        |j: int|
            if j % 2 == 0 {
                cs[j / 2].id
            } else {
                (16 * cs[j / 2].dc + cs[j / 2].ac) as u8
            },
    )
}

/// The byte behind the `FF` of a segment.
pub open spec fn marker_byte(s: Segment) -> u8 {
    match s {
        Segment::Huff { tables } => 0xC4,
        Segment::Quant { matrices } => 0xDB,
        Segment::Frame { progressive, precision, height, width, comps } => if progressive {
            0xC2
        } else {
            0xC0
        },
        Segment::Restart { interval } => 0xDD,
        Segment::Other { marker, body } => marker,
    }
}

/// What a segment holds behind its length.
pub open spec fn segment_body(s: Segment) -> Seq<u8> {
    match s {
        Segment::Huff { tables } => joined(huff_rows(tables)),
        Segment::Quant { matrices } => joined(quant_rows(matrices)),
        Segment::Frame { progressive, precision, height, width, comps } => seq![precision]
            + be_bytes(height as int) + be_bytes(width as int) + seq![comps.len() as u8]
            + comp_rows(comps),
        Segment::Restart { interval } => be_bytes(interval as int),
        Segment::Other { marker, body } => body,
    }
}

/// Whether a segment can be written down.
pub open spec fn segment_valid(s: Segment) -> bool {
    &&& segment_body(s).len() + 2 <= 0xFFFF
    &&& match s {
        Segment::Huff { tables } => forall|k: int|
            0 <= k < tables.len() ==> huff_valid(#[trigger] tables[k]),
        Segment::Quant { matrices } => forall|k: int|
            0 <= k < matrices.len() ==> quant_valid(#[trigger] matrices[k]),
        Segment::Frame { progressive, precision, height, width, comps } => {
            &&& 1 <= comps.len() <= 255
            &&& forall|k: int|
                0 <= k < comps.len() ==> (#[trigger] comps[k]).across < 16 && comps[k].down < 16
        },
        Segment::Restart { interval } => true,
        Segment::Other { marker, body } => marker >= 0xC1 && marker != 0xC2 && marker != 0xC4
            && !(0xD8 <= marker <= 0xDB) && marker != 0xDD && marker != 0xFF,
    }
}

/// A segment in bytes: its marker, its length, which counts itself, and its body.
pub open spec fn segment_bytes(s: Segment) -> Seq<u8> {
    seq![0xFFu8, marker_byte(s)] + be_bytes(segment_body(s).len() as int + 2) + segment_body(s)
}

/// Segments in bytes.
pub open spec fn segment_rows(segments: Seq<Segment>) -> Seq<Seq<u8>> {
    Seq::new(segments.len(), |k: int| segment_bytes(segments[k]))
}

/// Whether a scan header can be written down.
pub open spec fn scan_valid(scan: Seq<ScanSpec>, selection: Seq<u8>) -> bool {
    &&& scan.len() <= 255
    &&& selection.len() == 3
    &&& forall|k: int| 0 <= k < scan.len() ==> (#[trigger] scan[k]).dc < 16 && scan[k].ac < 16
}

/// A scan header in bytes.
pub open spec fn scan_bytes(scan: Seq<ScanSpec>, selection: Seq<u8>) -> Seq<u8> {
    seq![0xFFu8, 0xDA] + be_bytes(6 + 2 * scan.len() as int) + seq![scan.len() as u8] + scan_rows(scan)
        + selection
}

/// An image in bytes: its start, its segments, the scan header, and the coded data.
pub open spec fn image_bytes(
    segments: Seq<Segment>,
    scan: Seq<ScanSpec>,
    selection: Seq<u8>,
    data: Seq<u8>,
) -> Seq<u8> {
    seq![0xFFu8, 0xD8] + joined(segment_rows(segments)) + scan_bytes(scan, selection) + data
}

// ---------------------------------------------------------------------------
// What segments mean
// ---------------------------------------------------------------------------
/// The slot of a Huffman table: tables for constants are even, the others odd.
pub open spec fn slot_of(t: HuffSpec) -> int {
    2 * (t.dest as int % 2) + t.class as int % 2
}

/// The header with one more Huffman table.
pub open spec fn with_huff(h: HeaderView, t: HuffSpec) -> HeaderView {
    let before = h.huff_tables[slot_of(t)];
    HeaderView {
        huff_tables: h.huff_tables.update(
            slot_of(t),
            generated(
                HuffView {
                    bits: t.counts,
                    values: Seq::new(
                        256,
                        |j: int|
                            if j < t.values.len() {
                                t.values[j]
                            } else {
                                before.values[j]
                            },
                    ),
                    num_values: t.values.len(),
                    ..before
                },
            ),
        ),
        ..h
    }
}

/// The header with more Huffman tables, one after the other.
pub open spec fn with_huffs(h: HeaderView, ts: Seq<HuffSpec>) -> HeaderView
    decreases ts.len(),
{
    if ts.len() == 0 {
        h
    } else {
        with_huffs(with_huff(h, ts[0]), ts.drop_first())
    }
}

/// The header with one more quantisation table.
pub open spec fn with_quant(h: HeaderView, t: QuantSpec) -> HeaderView {
    HeaderView {
        quant_tables: h.quant_tables.update(t.dest as int, t.coefs),
        quant_table_count: if t.dest < h.quant_table_count {
            h.quant_table_count
        } else {
            t.dest + 1
        },
        ..h
    }
}

/// The header with more quantisation tables, one after the other.
pub open spec fn with_quants(h: HeaderView, ts: Seq<QuantSpec>) -> HeaderView
    decreases ts.len(),
{
    if ts.len() == 0 {
        h
    } else {
        with_quants(with_quant(h, ts[0]), ts.drop_first())
    }
}

/// The format of a colour image: 4:2:0 is 0, 4:2:2 is 1, its upright twin is 2, all else is 3.
pub open spec fn colour_format(comps: Seq<CompSpec>) -> u32 {
    let (a, d) = (comps[0].across, comps[0].down);
    if a == 2 && d == 2 && comps[1].across == 1 && comps[1].down == 1 {
        0
    } else if a == 2 && d == 1 {
        1
    } else if a == 1 && d == 2 {
        2
    } else {
        3
    }
}

/// The header with the frame.
pub open spec fn with_frame(
    h: HeaderView,
    height: u16,
    width: u16,
    comps: Seq<CompSpec>,
) -> HeaderView {
    let sized = HeaderView {
        height: height as u32,
        width: width as u32,
        num_components: comps.len() as u32,
        ..h
    };
    if comps.len() == 3 {
        HeaderView {
            sampling: Seq::new(3, |c: int| (comps[c].across, comps[c].down)),
            quant_tbl: Seq::new(3, |c: int| comps[c].table as usize),
            format: colour_format(comps),
            ..sized
        }
    } else {
        HeaderView { sampling: Seq::new(3, |c: int| (1u8, 1u8)), format: 4, ..sized }
    }
}

/// The header with one more segment.
pub open spec fn with_segment(h: HeaderView, s: Segment) -> HeaderView {
    match s {
        Segment::Huff { tables } => with_huffs(h, tables),
        Segment::Quant { matrices } => with_quants(h, matrices),
        Segment::Frame { progressive, precision, height, width, comps } => with_frame(
            h,
            height,
            width,
            comps,
        ),
        Segment::Restart { interval } => HeaderView { restart_interval: interval as u32, ..h },
        Segment::Other { marker, body } => h,
    }
}

/// The header with more segments, one after the other.
pub open spec fn with_segments(h: HeaderView, segments: Seq<Segment>) -> HeaderView
    decreases segments.len(),
{
    if segments.len() == 0 {
        h
    } else {
        with_segments(with_segment(h, segments[0]), segments.drop_first())
    }
}

/// The header with the scan, whose data begins at `data_at`; tables are named for the first three
/// components.
pub open spec fn with_scan(h: HeaderView, scan: Seq<ScanSpec>, data_at: int) -> HeaderView {
    HeaderView {
        dc_huff_tbl: Seq::new(
            3,
            |k: int|
                if k < scan.len() {
                    scan[k].dc as usize
                } else {
                    h.dc_huff_tbl[k]
                },
        ),
        ac_huff_tbl: Seq::new(
            3,
            |k: int|
                if k < scan.len() {
                    scan[k].ac as usize
                } else {
                    h.ac_huff_tbl[k]
                },
        ),
        ecs_offset: data_at,
        ..h
    }
}

/// Whether `part` stands at `i` of `d`.
pub open spec fn stands_at(d: Seq<u8>, i: int, part: Seq<u8>) -> bool {
    0 <= i && i + part.len() <= d.len() && d.subrange(i, i + part.len()) == part
}

/// Byte by byte, what stands somewhere.
proof fn lemma_stands(d: Seq<u8>, i: int, part: Seq<u8>)
    requires
        stands_at(d, i, part),
    ensures
        forall|j: int| 0 <= j < part.len() ==> #[trigger] d[i + j] == part[j],
        forall|j: int| i <= j < i + part.len() ==> #[trigger] d[j] == part[j - i],
{
    assert forall|j: int| 0 <= j < part.len() implies #[trigger] d[i + j] == part[j] by {
        assert(d.subrange(i, i + part.len())[j] == d[i + j]);
    }
    assert forall|j: int| i <= j < i + part.len() implies #[trigger] d[j] == part[j - i] by {
        assert(d[i + (j - i)] == part[j - i]);
    }
}

/// Where two parts stand one behind the other, each stands in its place.
proof fn lemma_stands_apart(d: Seq<u8>, i: int, a: Seq<u8>, b: Seq<u8>)
    requires
        stands_at(d, i, a + b),
    ensures
        stands_at(d, i, a),
        stands_at(d, i + a.len(), b),
{
    lemma_stands(d, i, a + b);
    assert forall|j: int| 0 <= j < a.len() implies d[i + j] == a[j] by {
        assert(d[i + j] == (a + b)[j]);
    }
    assert forall|j: int| 0 <= j < b.len() implies d[i + a.len() + j] == b[j] by {
        assert(d[i + (a.len() + j)] == (a + b)[a.len() + j]);
    }
    assert(d.subrange(i, i + a.len()) =~= a);
    assert(d.subrange(i + a.len(), i + a.len() + b.len()) =~= b);
}

/// Counts add up the same from either end.
pub proof fn lemma_total(counts: Seq<u8>)
    ensures
        sum_bytes(counts) == total(counts),
    decreases counts.len(),
{
    if counts.len() > 0 {
        lemma_total(counts.drop_first());
        lemma_sum_first(counts);
    }
}

/// The first byte counts like any other.
proof fn lemma_sum_first(s: Seq<u8>)
    requires
        s.len() > 0,
    ensures
        sum_bytes(s) == s[0] + sum_bytes(s.drop_first()),
    decreases s.len(),
{
    if s.len() > 1 {
        lemma_sum_first(s.drop_last());
        assert(s.drop_last().drop_first() =~= s.drop_first().drop_last());
        assert(s.drop_first().last() == s.last());
    } else {
        assert(s.drop_last() =~= Seq::<u8>::empty());
        assert(s.drop_first() =~= Seq::<u8>::empty());
        reveal_with_fuel(sum_bytes, 2);
    }
}

/// A Huffman table is read back.
proof fn lemma_huff_table(d: Seq<u8>, off: int, t: HuffSpec, h: HeaderView)
    requires
        huff_valid(t),
        stands_at(d, off, huff_bytes(t)),
    ensures
        off + 1 < d.len(),
        dht_num_values(d, off) == t.values.len(),
        huff_slot_of(d[off] / 16, d[off] % 16) == slot_of(t),
        dht_loaded(d, off, h.huff_tables[slot_of(t)]) == with_huff(
            HeaderView { huff_tables: h.huff_tables, ..h },
            t,
        ).huff_tables[slot_of(t)] || !(0 <= slot_of(t) < h.huff_tables.len()),
{
    let b = huff_bytes(t);
    lemma_stands(d, off, b);
    lemma_total(t.counts);
    assert(d[off + 0] == b[0]);
    assert forall|j: int| 0 <= j < 16 implies #[trigger] d[off + 1 + j] == t.counts[j] by {
        assert(d[off + (1 + j)] == b[1 + j]);
    }
    assert forall|j: int| 0 <= j < t.values.len() implies #[trigger] d[off + 17 + j]
        == t.values[j] by {
        assert(d[off + (17 + j)] == b[17 + j]);
    }
    assert(d.subrange(off + 1, off + 17) =~= t.counts);
    if 0 <= slot_of(t) < h.huff_tables.len() {
        let old = h.huff_tables[slot_of(t)];
        let new = with_huff(h, t).huff_tables[slot_of(t)];
        assert(dht_loaded(d, off, old).bits =~= t.counts);
        assert(dht_loaded(d, off, old).values =~= new.values);
        assert(dht_loaded(d, off, old) =~= new);
    }
}

/// Huffman tables that stand one behind the other are all read back.
proof fn lemma_huff_tables(d: Seq<u8>, off: int, ts: Seq<HuffSpec>, h: HeaderView)
    requires
        forall|k: int| 0 <= k < ts.len() ==> huff_valid(#[trigger] ts[k]),
        stands_at(d, off, joined(huff_rows(ts))),
        h.huff_tables.len() == 4,
    ensures
        dht_applied(d, off, off + joined(huff_rows(ts)).len(), h) == Some(with_huffs(h, ts)),
        with_huffs(h, ts).huff_tables.len() == 4,
    decreases ts.len(),
{
    if ts.len() > 0 {
        let t = ts[0];
        let tail = ts.drop_first();
        let rows = huff_rows(ts);
        lemma_joined_first(rows);
        assert(rows.drop_first() =~= huff_rows(tail));
        lemma_stands_apart(d, off, huff_bytes(t), joined(huff_rows(tail)));
        assert(huff_valid(t));
        lemma_huff_table(d, off, t, h);
        assert forall|k: int| 0 <= k < tail.len() implies huff_valid(#[trigger] tail[k]) by {
            assert(tail[k] == ts[k + 1]);
        }
        lemma_huff_tables(d, off + huff_bytes(t).len(), tail, with_huff(h, t));
        assert(with_huff(h, t).huff_tables =~= h.huff_tables.update(
            slot_of(t),
            dht_loaded(d, off, h.huff_tables[slot_of(t)]),
        ));
    }
}

/// A quantisation table is read back.
proof fn lemma_quant_table(d: Seq<u8>, off: int, t: QuantSpec, old: Seq<u16>)
    requires
        quant_valid(t),
        stands_at(d, off, quant_bytes(t)),
    ensures
        off + 2 < d.len(),
        d[off] % 16 == t.dest,
        (d[off] / 16 != 0) == t.wide,
        quant_bytes(t).len() == (if t.wide {
            129int
        } else {
            65int
        }),
        dqt_loaded(d, off, t.wide, old) == t.coefs,
{
    let b = quant_bytes(t);
    lemma_stands(d, off, b);
    assert(d[off + 0] == b[0]);
    assert forall|j: int| 0 <= j < 64 implies #[trigger] dqt_loaded(d, off, t.wide, old)[j]
        == t.coefs[j] by {
        if t.wide {
            assert(d[off + (1 + 2 * j)] == b[1 + 2 * j]);
            assert(d[off + (2 + 2 * j)] == b[2 + 2 * j]);
            assert(coef_bytes(t)[2 * j] == (t.coefs[j] / 256) as u8);
            assert(coef_bytes(t)[2 * j + 1] == (t.coefs[j] % 256) as u8);
        } else {
            assert(d[off + (1 + j)] == b[1 + j]);
            assert(t.coefs[j] < 256);
        }
    }
    assert(dqt_loaded(d, off, t.wide, old) =~= t.coefs);
}

/// Quantisation tables that stand one behind the other are all read back.
proof fn lemma_quant_tables(d: Seq<u8>, off: int, ts: Seq<QuantSpec>, h: HeaderView)
    requires
        forall|k: int| 0 <= k < ts.len() ==> quant_valid(#[trigger] ts[k]),
        stands_at(d, off, joined(quant_rows(ts))),
    ensures
        dqt_applied(d, off, off + joined(quant_rows(ts)).len(), h) == Some(with_quants(h, ts)),
        with_quants(h, ts).huff_tables == h.huff_tables,
    decreases ts.len(),
{
    if ts.len() > 0 {
        let t = ts[0];
        let tail = ts.drop_first();
        let rows = quant_rows(ts);
        lemma_joined_first(rows);
        assert(rows.drop_first() =~= quant_rows(tail));
        lemma_stands_apart(d, off, quant_bytes(t), joined(quant_rows(tail)));
        assert(quant_valid(t));
        lemma_quant_table(d, off, t, h.quant_tables[t.dest as int]);
        assert forall|k: int| 0 <= k < tail.len() implies quant_valid(#[trigger] tail[k]) by {
            assert(tail[k] == ts[k + 1]);
        }
        lemma_quant_tables(d, off + quant_bytes(t).len(), tail, with_quant(h, t));
    }
}

/// A frame is read back.
proof fn lemma_frame(d: Seq<u8>, i: int, s: Segment, h: HeaderView)
    requires
        s is Frame,
        segment_valid(s),
        stands_at(d, i, segment_bytes(s)),
    ensures
        i + 10 < d.len(),
        sof_applied(d, i, h) == with_segment(h, s),
{
    if let Segment::Frame { progressive, precision, height, width, comps } = s {
        let b = segment_bytes(s);
        let body = segment_body(s);
        lemma_stands(d, i, b);
        assert forall|j: int| 0 <= j < body.len() implies #[trigger] d[i + 4 + j] == body[j] by {
            assert(d[i + (4 + j)] == b[4 + j]);
        }
        assert(d[i + 4 + 1] == body[1] && d[i + 4 + 2] == body[2] && d[i + 4 + 3] == body[3]
            && d[i + 4 + 4] == body[4] && d[i + 4 + 5] == body[5]);
        assert(be16_at(d, i + 5) == height && be16_at(d, i + 7) == width);
        assert(d[i + 9] == comps.len());
        if comps.len() == 3 {
            assert forall|c: int| 0 <= c < 3 implies #[trigger] d[i + 11 + 3 * c] == 16
                * comps[c].across + comps[c].down && d[i + 12 + 3 * c] == comps[c].table by {
                assert(d[i + 4 + (7 + 3 * c)] == body[7 + 3 * c]);
                assert(d[i + 4 + (8 + 3 * c)] == body[8 + 3 * c]);
                assert(body[7 + 3 * c] == comp_rows(comps)[3 * c + 1]);
                assert(body[8 + 3 * c] == comp_rows(comps)[3 * c + 2]);
            }
            assert forall|c: int| 0 <= c < 3 implies #[trigger] sof_sampling(d, i)[c] == (
                comps[c].across,
                comps[c].down,
            ) by {
                assert(d[i + 11 + 3 * c] == 16 * comps[c].across + comps[c].down);
            }
            assert(sof_sampling(d, i) =~= with_segment(h, s).sampling);
            assert forall|c: int| 0 <= c < 3 implies d[i + 12 + 3 * c] == comps[c].table by {
                assert(d[i + 11 + 3 * c] == 16 * comps[c].across + comps[c].down);
            }
            assert(sof_applied(d, i, h).quant_tbl =~= with_segment(h, s).quant_tbl);
        } else {
            assert(sof_applied(d, i, h).sampling =~= with_segment(h, s).sampling);
        }
        assert(sof_applied(d, i, h) =~= with_segment(h, s));
    }
}

/// A segment is read back, and the search goes on right behind it.
proof fn lemma_segment(d: Seq<u8>, i: int, s: Segment, h: HeaderView)
    requires
        segment_valid(s),
        stands_at(d, i, segment_bytes(s)),
        h.huff_tables.len() == 4,
    ensures
        walk(d, i, h) == walk(d, i + segment_bytes(s).len(), with_segment(h, s)),
        with_segment(h, s).huff_tables.len() == 4,
{
    let b = segment_bytes(s);
    let body = segment_body(s);
    lemma_stands(d, i, b);
    assert(d[i + 0] == b[0] && d[i + 1] == b[1] && d[i + 2] == b[2] && d[i + 3] == b[3]);
    assert(be16_at(d, i + 2) == body.len() + 2);
    assert(b =~= (seq![0xFFu8, marker_byte(s)] + be_bytes(body.len() as int + 2)) + body);
    lemma_stands_apart(d, i, seq![0xFFu8, marker_byte(s)] + be_bytes(body.len() as int + 2), body);
    match s {
        Segment::Huff { tables } => {
            lemma_huff_tables(d, i + 4, tables, h);
        },
        Segment::Quant { matrices } => {
            lemma_quant_tables(d, i + 4, matrices, h);
        },
        Segment::Frame { progressive, precision, height, width, comps } => {
            lemma_frame(d, i, s, h);
        },
        Segment::Restart { interval } => {
            assert(d[i + 4] == b[4] && d[i + 5] == b[5]);
            assert(dri_applied(d, i, h) =~= with_segment(h, s));
        },
        Segment::Other { marker, body } => {},
    }
}

/// Segments are all read back, and the search goes on right behind them.
proof fn lemma_segments(d: Seq<u8>, i: int, segments: Seq<Segment>, h: HeaderView)
    requires
        forall|k: int| 0 <= k < segments.len() ==> segment_valid(#[trigger] segments[k]),
        stands_at(d, i, joined(segment_rows(segments))),
        h.huff_tables.len() == 4,
    ensures
        walk(d, i, h) == walk(
            d,
            i + joined(segment_rows(segments)).len(),
            with_segments(h, segments),
        ),
    decreases segments.len(),
{
    if segments.len() > 0 {
        let s = segments[0];
        let tail = segments.drop_first();
        let rows = segment_rows(segments);
        lemma_joined_first(rows);
        assert(rows.drop_first() =~= segment_rows(tail));
        lemma_stands_apart(d, i, segment_bytes(s), joined(segment_rows(tail)));
        assert(segment_valid(s));
        lemma_segment(d, i, s, h);
        assert forall|k: int| 0 <= k < tail.len() implies segment_valid(#[trigger] tail[k]) by {
            assert(tail[k] == segments[k + 1]);
        }
        lemma_segments(d, i + segment_bytes(s).len(), tail, with_segment(h, s));
    }
}

/// A scan header is read back.
proof fn lemma_scan(d: Seq<u8>, i: int, scan: Seq<ScanSpec>, selection: Seq<u8>, h: HeaderView)
    requires
        scan_valid(scan, selection),
        stands_at(d, i, scan_bytes(scan, selection)),
    ensures
        walk(d, i, h) == Parsed::Header(
            with_scan(h, scan, i + scan_bytes(scan, selection).len()),
        ),
{
    let b = scan_bytes(scan, selection);
    let n = scan.len() as int;
    lemma_stands(d, i, b);
    assert(d[i + 0] == b[0] && d[i + 1] == b[1] && d[i + 2] == b[2] && d[i + 3] == b[3] && d[i + 4]
        == b[4]);
    assert(be16_at(d, i + 2) == 6 + 2 * n);
    assert(d[i + 4] == n);
    let r = sos_applied(d, i, 6 + 2 * n, h);
    let w = with_scan(h, scan, i + b.len());
    assert forall|k: int| 0 <= k < 3 && k < n implies #[trigger] d[i + 6 + 2 * k] == 16 * scan[k].dc
        + scan[k].ac by {
        assert(d[i + (6 + 2 * k)] == b[6 + 2 * k]);
        assert(b[6 + 2 * k] == scan_rows(scan)[2 * k + 1]);
        assert(scan[k].dc < 16);
    }
    assert forall|k: int| 0 <= k < 3 implies r.dc_huff_tbl[k] == w.dc_huff_tbl[k] && r.ac_huff_tbl[k]
        == w.ac_huff_tbl[k] by {
        if k < n {
            assert(d[i + 6 + 2 * k] == 16 * scan[k].dc + scan[k].ac);
            assert(scan[k].ac < 16);
        }
    }
    assert(r.dc_huff_tbl =~= w.dc_huff_tbl);
    assert(r.ac_huff_tbl =~= w.ac_huff_tbl);
    assert(r =~= w);
}

/// An image is read back: the header that is found holds what the segments say, those behind
/// taking the place of those before, and the coded data begins right behind the scan header.
pub proof fn law_image_is_read_back(
    segments: Seq<Segment>,
    scan: Seq<ScanSpec>,
    selection: Seq<u8>,
    data: Seq<u8>,
)
    requires
        forall|k: int| 0 <= k < segments.len() ==> segment_valid(#[trigger] segments[k]),
        scan_valid(scan, selection),
    ensures
        ({
            let d = image_bytes(segments, scan, selection, data);
            &&& parsed(d) == Parsed::Header(
                with_scan(with_segments(blank_header(), segments), scan, d.len() - data.len()),
            )
            &&& d.skip(d.len() - data.len()) == data
        }),
{
    let d = image_bytes(segments, scan, selection, data);
    let all = joined(segment_rows(segments));
    let sos = scan_bytes(scan, selection);
    let n = 2 + all.len() as int;
    assert(d.subrange(2, n) =~= all);
    assert(d.subrange(n, n + sos.len()) =~= sos);
    assert(d[0] == 0xFF && d[1] == 0xD8);
    assert(walk(d, 0, blank_header()) == walk(d, 2, blank_header()));
    lemma_segments(d, 2, segments, blank_header());
    lemma_scan(d, n, scan, selection, with_segments(blank_header(), segments));
    assert(d.skip(d.len() - data.len()) =~= data);
}

/// An image with its segments in three parts: those of interest between others.
pub open spec fn in_parts(front: Seq<Segment>, mid: Seq<Segment>, back: Seq<Segment>) -> Seq<
    Segment,
> {
    front + mid + back
}

/// Segments mean the same one part after the other.
proof fn lemma_segments_in_parts(h: HeaderView, a: Seq<Segment>, b: Seq<Segment>)
    ensures
        with_segments(h, a + b) == with_segments(with_segments(h, a), b),
    decreases a.len(),
{
    if a.len() == 0 {
        assert(a + b =~= b);
    } else {
        lemma_segments_in_parts(with_segment(h, a[0]), a.drop_first(), b);
        assert((a + b).drop_first() =~= a.drop_first() + b);
        assert((a + b)[0] == a[0]);
    }
}

/// Segments with one Huffman table each.
pub open spec fn one_by_one(ts: Seq<HuffSpec>) -> Seq<Segment> {
    Seq::new(ts.len(), |k: int| Segment::Huff { tables: seq![ts[k]] })
}

/// Huffman tables mean the same in one segment or in many.
proof fn lemma_one_by_one(h: HeaderView, ts: Seq<HuffSpec>)
    ensures
        with_segments(h, one_by_one(ts)) == with_huffs(h, ts),
    decreases ts.len(),
{
    if ts.len() > 0 {
        let one = seq![ts[0]];
        assert(one.drop_first() =~= Seq::<HuffSpec>::empty());
        assert(with_huffs(with_huff(h, ts[0]), one.drop_first()) == with_huff(h, ts[0]));
        assert(one_by_one(ts)[0] == (Segment::Huff { tables: one }));
        assert(one_by_one(ts).drop_first() =~= one_by_one(ts.drop_first()));
        lemma_one_by_one(with_huff(h, ts[0]), ts.drop_first());
    }
}

/// A segment with one of the tables is no longer than one with all of them.
proof fn lemma_one_is_no_longer(ts: Seq<HuffSpec>, k: int)
    requires
        0 <= k < ts.len(),
    ensures
        huff_bytes(ts[k]).len() <= joined(huff_rows(ts)).len(),
        joined(huff_rows(seq![ts[k]])) == huff_bytes(ts[k]),
    decreases ts.len(),
{
    let rows = huff_rows(ts);
    assert(rows.drop_last() =~= huff_rows(ts.drop_last()));
    if k < ts.len() - 1 {
        lemma_one_is_no_longer(ts.drop_last(), k);
    }
    assert(huff_rows(seq![ts[k]]) =~= seq![huff_bytes(ts[k])]);
    lemma_joined_one(huff_bytes(ts[k]));
}

/// One segment with some Huffman tables leaves the same header as a segment for each of them, but
/// for where the coded data begins.
pub proof fn law_tables_in_one_segment_or_many(
    front: Seq<Segment>,
    ts: Seq<HuffSpec>,
    back: Seq<Segment>,
    scan: Seq<ScanSpec>,
    selection: Seq<u8>,
    data: Seq<u8>,
)
    requires
        forall|k: int| 0 <= k < front.len() ==> segment_valid(#[trigger] front[k]),
        forall|k: int| 0 <= k < back.len() ==> segment_valid(#[trigger] back[k]),
        segment_valid(Segment::Huff { tables: ts }),
        scan_valid(scan, selection),
    ensures
        ({
            let one = image_bytes(
                in_parts(front, seq![Segment::Huff { tables: ts }], back),
                scan,
                selection,
                data,
            );
            let many = image_bytes(in_parts(front, one_by_one(ts), back), scan, selection, data);
            &&& parsed(one) matches Parsed::Header(a)
            &&& parsed(many) matches Parsed::Header(b)
            &&& a == (HeaderView { ecs_offset: a.ecs_offset, ..b })
        }),
{
    let whole = seq![Segment::Huff { tables: ts }];
    let split = one_by_one(ts);
    let one = in_parts(front, whole, back);
    let many = in_parts(front, split, back);
    assert forall|k: int| 0 <= k < split.len() implies segment_valid(#[trigger] split[k]) by {
        lemma_one_is_no_longer(ts, k);
        assert(huff_valid(ts[k]));
    }
    law_image_is_read_back(one, scan, selection, data);
    law_image_is_read_back(many, scan, selection, data);
    let h = with_segments(blank_header(), front);
    lemma_segments_in_parts(blank_header(), front + whole, back);
    lemma_segments_in_parts(blank_header(), front, whole);
    lemma_segments_in_parts(blank_header(), front + split, back);
    lemma_segments_in_parts(blank_header(), front, split);
    lemma_one_by_one(h, ts);
    assert(whole.drop_first() =~= Seq::<Segment>::empty());
    reveal_with_fuel(with_segments, 2);
    assert(with_segments(h, whole) == with_huffs(h, ts));
}

/// Whether a slot holds a Huffman table: its counts, its values, and how many there are.
pub open spec fn holds_huff(h: HeaderView, t: HuffSpec) -> bool {
    let slot = h.huff_tables[2 * (t.dest as int % 2) + t.class as int % 2];
    &&& slot.bits == t.counts
    &&& slot.num_values == t.values.len()
    &&& forall|j: int| 0 <= j < t.values.len() ==> #[trigger] slot.values[j] == t.values[j]
    &&& slot == generated(slot)
}

/// A Huffman table stays where no later one takes its slot.
proof fn lemma_huff_stays(h: HeaderView, t: HuffSpec, ts: Seq<HuffSpec>)
    requires
        h.huff_tables.len() == 4,
        holds_huff(h, t),
        forall|k: int|
            0 <= k < ts.len() ==> (#[trigger] ts[k]).class % 2 != t.class % 2 || ts[k].dest % 2
                != t.dest % 2,
    ensures
        holds_huff(with_huffs(h, ts), t),
        with_huffs(h, ts).huff_tables.len() == 4,
    decreases ts.len(),
{
    if ts.len() > 0 {
        let tail = ts.drop_first();
        assert(ts[0].class % 2 != t.class % 2 || ts[0].dest % 2 != t.dest % 2);
        assert forall|k: int| 0 <= k < tail.len() implies (#[trigger] tail[k]).class % 2 != t.class
            % 2 || tail[k].dest % 2 != t.dest % 2 by {
            assert(tail[k] == ts[k + 1]);
        }
        lemma_huff_stays(with_huff(h, ts[0]), t, tail);
    }
}

/// A Huffman table of a segment is in its slot behind the segment, unless a later one of the
/// segment took its place.
proof fn lemma_huff_is_kept(h: HeaderView, ts: Seq<HuffSpec>, k: int)
    requires
        h.huff_tables.len() == 4,
        0 <= k < ts.len(),
        huff_valid(ts[k]),
        forall|j: int|
            k < j < ts.len() ==> (#[trigger] ts[j]).class % 2 != ts[k].class % 2 || ts[j].dest % 2
                != ts[k].dest % 2,
    ensures
        holds_huff(with_huffs(h, ts), ts[k]),
        with_huffs(h, ts).huff_tables.len() == 4,
    decreases ts.len(),
{
    let tail = ts.drop_first();
    if k == 0 {
        assert forall|j: int| 0 <= j < tail.len() implies (#[trigger] tail[j]).class % 2
            != ts[0].class % 2 || tail[j].dest % 2 != ts[0].dest % 2 by {
            assert(tail[j] == ts[j + 1]);
        }
        let g = with_huff(h, ts[0]);
        assert(g.huff_tables[slot_of(ts[0])] =~= generated(g.huff_tables[slot_of(ts[0])]));
        lemma_huff_stays(g, ts[0], tail);
    } else {
        assert forall|j: int| k - 1 < j < tail.len() implies (#[trigger] tail[j]).class % 2 != tail[k
            - 1].class % 2 || tail[j].dest % 2 != tail[k - 1].dest % 2 by {
            assert(tail[j] == ts[j + 1]);
        }
        lemma_huff_is_kept(with_huff(h, ts[0]), tail, k - 1);
    }
}

/// Whether segments hold no Huffman tables.
pub open spec fn no_huffs(segments: Seq<Segment>) -> bool {
    forall|k: int| 0 <= k < segments.len() ==> !(#[trigger] segments[k] is Huff)
}

/// Segments without Huffman tables leave those that are there alone.
proof fn lemma_no_huffs(h: HeaderView, segments: Seq<Segment>)
    requires
        no_huffs(segments),
    ensures
        with_segments(h, segments).huff_tables == h.huff_tables,
    decreases segments.len(),
{
    if segments.len() > 0 {
        let tail = segments.drop_first();
        assert(!(segments[0] is Huff));
        assert forall|k: int| 0 <= k < tail.len() implies !(#[trigger] tail[k] is Huff) by {
            assert(tail[k] == segments[k + 1]);
        }
        if let Segment::Quant { matrices } = segments[0] {
            lemma_quants_alone(h, matrices);
        }
        lemma_no_huffs(with_segment(h, segments[0]), tail);
    }
}

/// Quantisation tables change nothing but the quantisation tables.
proof fn lemma_quants_alone(h: HeaderView, ts: Seq<QuantSpec>)
    ensures
        with_quants(h, ts) == (HeaderView {
            quant_tables: with_quants(h, ts).quant_tables,
            quant_table_count: with_quants(h, ts).quant_table_count,
            ..h
        }),
    decreases ts.len(),
{
    if ts.len() > 0 {
        lemma_quants_alone(with_quant(h, ts[0]), ts.drop_first());
    }
}

/// Huffman tables change nothing but the Huffman tables.
proof fn lemma_huffs_alone(h: HeaderView, ts: Seq<HuffSpec>)
    ensures
        with_huffs(h, ts) == (HeaderView { huff_tables: with_huffs(h, ts).huff_tables, ..h }),
        h.huff_tables.len() == 4 ==> with_huffs(h, ts).huff_tables.len() == 4,
    decreases ts.len(),
{
    if ts.len() > 0 {
        lemma_huffs_alone(with_huff(h, ts[0]), ts.drop_first());
    }
}

/// There are always four slots for Huffman tables and four quantisation tables.
proof fn lemma_four_slots(h: HeaderView, segments: Seq<Segment>)
    requires
        h.huff_tables.len() == 4,
        h.quant_tables.len() == 4,
        forall|k: int| 0 <= k < segments.len() ==> segment_valid(#[trigger] segments[k]),
    ensures
        with_segments(h, segments).huff_tables.len() == 4,
        with_segments(h, segments).quant_tables.len() == 4,
    decreases segments.len(),
{
    if segments.len() > 0 {
        let tail = segments.drop_first();
        assert(segment_valid(segments[0]));
        assert forall|k: int| 0 <= k < tail.len() implies segment_valid(#[trigger] tail[k]) by {
            assert(tail[k] == segments[k + 1]);
        }
        match segments[0] {
            Segment::Huff { tables } => {
                lemma_huffs_alone(h, tables);
            },
            Segment::Quant { matrices } => {
                lemma_quants_alone(h, matrices);
                lemma_quant_slots(h, matrices);
            },
            _ => {},
        }
        lemma_four_slots(with_segment(h, segments[0]), tail);
    }
}

/// Quantisation tables keep their number.
proof fn lemma_quant_slots(h: HeaderView, ts: Seq<QuantSpec>)
    requires
        h.quant_tables.len() == 4,
        forall|k: int| 0 <= k < ts.len() ==> quant_valid(#[trigger] ts[k]),
    ensures
        with_quants(h, ts).quant_tables.len() == 4,
    decreases ts.len(),
{
    if ts.len() > 0 {
        let tail = ts.drop_first();
        assert(quant_valid(ts[0]));
        assert forall|k: int| 0 <= k < tail.len() implies quant_valid(#[trigger] tail[k]) by {
            assert(tail[k] == ts[k + 1]);
        }
        lemma_quant_slots(with_quant(h, ts[0]), ts.drop_first());
    }
}

/// Every Huffman table of a segment that no later one replaces is in the header: the slot of its
/// class and destination holds its sixteen counts and all of its values.
pub proof fn law_huffman_table_is_kept(
    front: Seq<Segment>,
    ts: Seq<HuffSpec>,
    k: int,
    back: Seq<Segment>,
    scan: Seq<ScanSpec>,
    selection: Seq<u8>,
    data: Seq<u8>,
)
    requires
        forall|j: int| 0 <= j < front.len() ==> segment_valid(#[trigger] front[j]),
        forall|j: int| 0 <= j < back.len() ==> segment_valid(#[trigger] back[j]),
        segment_valid(Segment::Huff { tables: ts }),
        scan_valid(scan, selection),
        0 <= k < ts.len(),
        forall|j: int|
            k < j < ts.len() ==> (#[trigger] ts[j]).class % 2 != ts[k].class % 2 || ts[j].dest % 2
                != ts[k].dest % 2,
        no_huffs(back),
    ensures
        parsed(
            image_bytes(
                in_parts(front, seq![Segment::Huff { tables: ts }], back),
                scan,
                selection,
                data,
            ),
        ) matches Parsed::Header(h) && holds_huff(h, ts[k]),
{
    let whole = seq![Segment::Huff { tables: ts }];
    law_image_is_read_back(in_parts(front, whole, back), scan, selection, data);
    let h = with_segments(blank_header(), front);
    lemma_segments_in_parts(blank_header(), front + whole, back);
    lemma_segments_in_parts(blank_header(), front, whole);
    assert(whole.drop_first() =~= Seq::<Segment>::empty());
    reveal_with_fuel(with_segments, 2);
    assert(with_segments(h, whole) == with_huffs(h, ts));
    lemma_four_slots(blank_header(), front);
    assert(huff_valid(ts[k]));
    lemma_huff_is_kept(h, ts, k);
    lemma_no_huffs(with_huffs(h, ts), back);
}

/// A quantisation table stays where no later one takes its destination.
proof fn lemma_quant_is_kept(h: HeaderView, ts: Seq<QuantSpec>, k: int)
    requires
        h.quant_tables.len() == 4,
        0 <= k < ts.len(),
        forall|j: int| 0 <= j < ts.len() ==> quant_valid(#[trigger] ts[j]),
        forall|j: int| k < j < ts.len() ==> (#[trigger] ts[j]).dest != ts[k].dest,
    ensures
        with_quants(h, ts).quant_tables[ts[k].dest as int] == ts[k].coefs,
        with_quants(h, ts).quant_table_count > ts[k].dest,
    decreases ts.len(),
{
    let tail = ts.drop_first();
    assert(quant_valid(ts[0]));
    assert forall|j: int| 0 <= j < tail.len() implies quant_valid(#[trigger] tail[j]) by {
        assert(tail[j] == ts[j + 1]);
    }
    if k == 0 {
        assert forall|j: int| 0 <= j < tail.len() implies (#[trigger] tail[j]).dest
            != ts[0].dest by {
            assert(tail[j] == ts[j + 1]);
        }
        lemma_quant_stays(with_quant(h, ts[0]), tail, ts[0].dest);
    } else {
        assert forall|j: int| k - 1 < j < tail.len() implies (#[trigger] tail[j]).dest != tail[k
            - 1].dest by {
            assert(tail[j] == ts[j + 1]);
        }
        lemma_quant_is_kept(with_quant(h, ts[0]), tail, k - 1);
    }
}

/// Tables for other destinations leave one alone.
proof fn lemma_quant_stays(h: HeaderView, ts: Seq<QuantSpec>, dest: u8)
    requires
        h.quant_tables.len() == 4,
        dest < 4,
        h.quant_table_count > dest,
        forall|j: int| 0 <= j < ts.len() ==> quant_valid(#[trigger] ts[j]),
        forall|j: int| 0 <= j < ts.len() ==> (#[trigger] ts[j]).dest != dest,
    ensures
        with_quants(h, ts).quant_tables[dest as int] == h.quant_tables[dest as int],
        with_quants(h, ts).quant_table_count > dest,
    decreases ts.len(),
{
    if ts.len() > 0 {
        let tail = ts.drop_first();
        assert(quant_valid(ts[0]));
        assert(ts[0].dest != dest);
        assert forall|j: int| 0 <= j < tail.len() implies quant_valid(#[trigger] tail[j]) by {
            assert(tail[j] == ts[j + 1]);
        }
        assert forall|j: int| 0 <= j < tail.len() implies (#[trigger] tail[j]).dest != dest by {
            assert(tail[j] == ts[j + 1]);
        }
        lemma_quant_stays(with_quant(h, ts[0]), tail, dest);
    }
}

/// Whether segments hold no quantisation tables.
pub open spec fn no_quants(segments: Seq<Segment>) -> bool {
    forall|k: int| 0 <= k < segments.len() ==> !(#[trigger] segments[k] is Quant)
}

/// Segments without quantisation tables leave those that are there alone.
proof fn lemma_no_quants(h: HeaderView, segments: Seq<Segment>)
    requires
        no_quants(segments),
    ensures
        with_segments(h, segments).quant_tables == h.quant_tables,
        with_segments(h, segments).quant_table_count == h.quant_table_count,
    decreases segments.len(),
{
    if segments.len() > 0 {
        let tail = segments.drop_first();
        assert(!(segments[0] is Quant));
        assert forall|k: int| 0 <= k < tail.len() implies !(#[trigger] tail[k] is Quant) by {
            assert(tail[k] == segments[k + 1]);
        }
        if let Segment::Huff { tables } = segments[0] {
            lemma_huffs_alone(h, tables);
        }
        lemma_no_quants(with_segment(h, segments[0]), tail);
    }
}

/// Every quantisation table of a segment that no later one replaces is in the header, with its
/// coefficients in the order of the data, whether they were written in one byte or in two.
pub proof fn law_quantisation_table_is_kept(
    front: Seq<Segment>,
    ts: Seq<QuantSpec>,
    k: int,
    back: Seq<Segment>,
    scan: Seq<ScanSpec>,
    selection: Seq<u8>,
    data: Seq<u8>,
)
    requires
        forall|j: int| 0 <= j < front.len() ==> segment_valid(#[trigger] front[j]),
        forall|j: int| 0 <= j < back.len() ==> segment_valid(#[trigger] back[j]),
        segment_valid(Segment::Quant { matrices: ts }),
        scan_valid(scan, selection),
        0 <= k < ts.len(),
        forall|j: int| k < j < ts.len() ==> (#[trigger] ts[j]).dest != ts[k].dest,
        no_quants(back),
    ensures
        parsed(
            image_bytes(
                in_parts(front, seq![Segment::Quant { matrices: ts }], back),
                scan,
                selection,
                data,
            ),
        ) matches Parsed::Header(h) && h.quant_tables[ts[k].dest as int] == ts[k].coefs
            && h.quant_table_count > ts[k].dest,
{
    let whole = seq![Segment::Quant { matrices: ts }];
    law_image_is_read_back(in_parts(front, whole, back), scan, selection, data);
    let h = with_segments(blank_header(), front);
    lemma_segments_in_parts(blank_header(), front + whole, back);
    lemma_segments_in_parts(blank_header(), front, whole);
    assert(whole.drop_first() =~= Seq::<Segment>::empty());
    reveal_with_fuel(with_segments, 2);
    assert(with_segments(h, whole) == with_quants(h, ts));
    lemma_four_slots(blank_header(), front);
    lemma_quant_is_kept(h, ts, k);
    lemma_no_quants(with_quants(h, ts), back);
}

/// Whether segments hold no frame.
pub open spec fn no_frames(segments: Seq<Segment>) -> bool {
    forall|k: int| 0 <= k < segments.len() ==> !(#[trigger] segments[k] is Frame)
}

/// Segments without a frame leave the frame that is there alone.
proof fn lemma_no_frames(h: HeaderView, segments: Seq<Segment>)
    requires
        no_frames(segments),
    ensures
        ({
            let g = with_segments(h, segments);
            &&& g.width == h.width && g.height == h.height
            &&& g.num_components == h.num_components && g.format == h.format
            &&& g.sampling == h.sampling && g.quant_tbl == h.quant_tbl
        }),
    decreases segments.len(),
{
    if segments.len() > 0 {
        let tail = segments.drop_first();
        assert(!(segments[0] is Frame));
        assert forall|k: int| 0 <= k < tail.len() implies !(#[trigger] tail[k] is Frame) by {
            assert(tail[k] == segments[k + 1]);
        }
        match segments[0] {
            Segment::Huff { tables } => {
                lemma_huffs_alone(h, tables);
            },
            Segment::Quant { matrices } => {
                lemma_quants_alone(h, matrices);
            },
            _ => {},
        }
        lemma_no_frames(with_segment(h, segments[0]), tail);
    }
}

/// The size of an image, its components, their sampling factors and their quantisation tables are
/// those of its frame, whatever segments stand before and behind it.
pub proof fn law_frame_is_kept(
    front: Seq<Segment>,
    frame: Segment,
    back: Seq<Segment>,
    scan: Seq<ScanSpec>,
    selection: Seq<u8>,
    data: Seq<u8>,
)
    requires
        forall|j: int| 0 <= j < front.len() ==> segment_valid(#[trigger] front[j]),
        forall|j: int| 0 <= j < back.len() ==> segment_valid(#[trigger] back[j]),
        segment_valid(frame),
        frame is Frame,
        scan_valid(scan, selection),
        no_frames(back),
    ensures
        frame matches Segment::Frame { progressive, precision, height, width, comps } && (parsed(
            image_bytes(in_parts(front, seq![frame], back), scan, selection, data),
        ) matches Parsed::Header(h) && {
            &&& h.width == width && h.height == height && h.num_components == comps.len()
            &&& comps.len() == 3 ==> h.format == colour_format(comps) && forall|c: int|
                0 <= c < 3 ==> (#[trigger] h.sampling[c]) == (comps[c].across, comps[c].down)
                    && h.quant_tbl[c] == comps[c].table
            &&& comps.len() != 3 ==> h.format == 4 && forall|c: int|
                0 <= c < 3 ==> (#[trigger] h.sampling[c]) == (1u8, 1u8)
        }),
{
    let whole = seq![frame];
    law_image_is_read_back(in_parts(front, whole, back), scan, selection, data);
    let h = with_segments(blank_header(), front);
    lemma_segments_in_parts(blank_header(), front + whole, back);
    lemma_segments_in_parts(blank_header(), front, whole);
    assert(whole.drop_first() =~= Seq::<Segment>::empty());
    reveal_with_fuel(with_segments, 2);
    assert(with_segments(h, whole) == with_segment(h, frame));
    lemma_no_frames(with_segment(h, frame), back);
}

/// A byte that begins no marker, and a fill byte, are passed over.
pub proof fn law_filler_is_passed_over(d: Seq<u8>, i: int, h: HeaderView)
    requires
        0 <= i,
        i + 1 < d.len(),
        d[i] != 0xFF || d[i + 1] == 0xFF,
    ensures
        walk(d, i, h) == walk(d, i + 1, h),
{
}

/// An image that ends before its scan, with an end marker or without, has no header.
pub proof fn law_image_without_scan_has_no_header(segments: Seq<Segment>, rest: Seq<u8>)
    requires
        forall|k: int| 0 <= k < segments.len() ==> segment_valid(#[trigger] segments[k]),
        rest.len() < 2 || (rest[0] == 0xFF && rest[1] == 0xD9),
    ensures
        parsed(seq![0xFFu8, 0xD8] + joined(segment_rows(segments)) + rest) == Parsed::Fail(
            ERR_NO_SOS,
        ),
{
    let all = joined(segment_rows(segments));
    let d = seq![0xFFu8, 0xD8] + all + rest;
    let n = 2 + all.len() as int;
    assert(d.subrange(2, n) =~= all);
    assert(d[0] == 0xFF && d[1] == 0xD8);
    assert(walk(d, 0, blank_header()) == walk(d, 2, blank_header()));
    lemma_segments(d, 2, segments, blank_header());
    if rest.len() >= 2 {
        assert(d[n] == rest[0] && d[n + 1] == rest[1]);
    }
}

/// A quantisation table for a destination beyond 3, and a Huffman table with more than 256 values
/// of which more are there, have no place.
pub proof fn law_table_without_place_is_refused(d: Seq<u8>, i: int, h: HeaderView)
    requires
        0 <= i,
        d[i] == 0xFF,
        256 * d[i + 2] + d[i + 3] > 2,
        ({
            ||| d[i + 1] == 0xDB && d[i + 4] % 16 >= 4 && i + 6 < d.len()
            ||| d[i + 1] == 0xC4 && i + 4 + 17 + 256 < d.len() && total(d.subrange(i + 5, i + 21))
                > 256
        }),
    ensures
        walk(d, i, h) is OutOfRange,
{
    if d[i + 1] == 0xC4 {
        lemma_total(d.subrange(i + 5, i + 21));
        assert(!dht_fits(d, i + 4));
    }
}

/// Codes of one length follow one another, as many as the counts say. The shortest begin with 0,
/// and the first of a length is what lies behind the last of the length before it, with a bit
/// more for each step. A length without codes has none, and values are counted through from the
/// shortest length on.
pub proof fn law_codes_are_canonical(t: HuffView, i: int)
    requires
        t.bits.len() == 16,
        0 <= i < 16,
    ensures
        ({
            let g = generated(t);
            let (lo, hi) = (g.min_codes[i] as int, g.max_codes[i] as int);
            &&& g.bits == t.bits && g.values == t.values && g.num_values == t.num_values
            &&& t.bits[i] == 0 ==> lo == 0xFFFF && hi == 0xFFFF && g.ptrs[i] == 0xFF
            &&& t.bits[i] > 0 ==> {
                &&& hi - lo + 1 == t.bits[i]
                &&& (forall|j: int| 0 <= j < i ==> #[trigger] t.bits[j] == 0) ==> lo == 0
                &&& g.ptrs[i] == total(t.bits.take(i)) % 256
            }
        }),
        forall|k: int|
            0 <= k < i && t.bits[i] > 0 && #[trigger] t.bits[k] > 0 && (forall|j: int|
                k < j < i ==> #[trigger] t.bits[j] == 0) ==> generated(t).min_codes[i] == (
            generated(t).max_codes[k] + 1) * pow2((i - k) as nat),
{
    lemma_codes_fit(t.bits, i);
    lemma_total(t.bits.take(i));
    if forall|j: int| 0 <= j < i ==> #[trigger] t.bits[j] == 0 {
        lemma_no_shorter(t.bits, i);
    }
    assert forall|k: int|
        0 <= k < i && t.bits[i] > 0 && #[trigger] t.bits[k] > 0 && (forall|j: int|
            k < j < i ==> #[trigger] t.bits[j] == 0) implies generated(t).min_codes[i] == (generated(
        t,
    ).max_codes[k] + 1) * pow2((i - k) as nat) by {
        lemma_codes_fit(t.bits, k);
        lemma_next_code(t.bits, k, i);
    }
}

/// Without shorter codes the first code is 0.
proof fn lemma_no_shorter(bits: Seq<u8>, i: int)
    requires
        0 <= i,
        forall|j: int| 0 <= j < i ==> #[trigger] bits[j] == 0,
    ensures
        first_code(bits, i) == 0,
    decreases i,
{
    if i > 0 {
        lemma_no_shorter(bits, i - 1);
        assert(bits[i - 1] == 0);
    }
}

/// The first code of a length by the last length before it that has codes.
proof fn lemma_next_code(bits: Seq<u8>, k: int, i: int)
    requires
        0 <= k < i,
        forall|j: int| k < j < i ==> #[trigger] bits[j] == 0,
    ensures
        first_code(bits, i) == (first_code(bits, k) + bits[k]) * pow2((i - k) as nat),
    decreases i,
{
    lemma2_to64();
    let c: int = first_code(bits, k) + bits[k];
    if i > k + 1 {
        lemma_next_code(bits, k, i - 1);
        lemma_pow2_unfold((i - k) as nat);
        assert(bits[i - 1] == 0);
        let p: int = pow2((i - 1 - k) as nat) as int;
        assert((i - k) as nat - 1 == (i - 1 - k) as nat);
        assert(c * (2 * p) == 2 * (c * p)) by (nonlinear_arith);
    } else {
        assert(c * 2 == 2 * c);
    }
}

/// Before anything is read there is no picture, no table has codes or coefficients, and pictures
/// count as 4:2:0.
pub proof fn law_nothing_is_known_at_first(k: int, j: int)
    requires
        0 <= k < 4,
        0 <= j,
    ensures
        ({
            let h = blank_header();
            &&& h.width == 0 && h.height == 0 && h.num_components == 0 && h.restart_interval == 0
            &&& h.format == 0 && h.ecs_offset == 0 && h.quant_table_count == 0
            &&& h.sampling == seq![(2u8, 2u8), (1u8, 1u8), (1u8, 1u8)]
            &&& k < 3 ==> h.dc_huff_tbl[k] == 0 && h.ac_huff_tbl[k] == 0 && h.quant_tbl[k] == 0
            &&& h.huff_tables[k].num_values == 0
            &&& j < 16 ==> h.huff_tables[k].bits[j] == 0 && h.huff_tables[k].min_codes[j] == 0xFFFF
                && h.huff_tables[k].max_codes[j] == 0xFFFF && h.huff_tables[k].ptrs[j] == 0xFF
            &&& j < 256 ==> h.huff_tables[k].values[j] == 0
            &&& j < 64 ==> h.quant_tables[k][j] == 0
        }),
{
}

/// A frame header that ends before its number of components is too short, and one whose three
/// components are cut off keeps the sampling that was known, but has its size.
pub proof fn law_cut_off_frames(d: Seq<u8>, i: int, h: HeaderView)
    requires
        0 <= i,
        i + 1 < d.len(),
        d[i] == 0xFF,
        d[i + 1] == 0xC0 || d[i + 1] == 0xC2,
    ensures
        d.len() <= i + 10 ==> walk(d, i, h) == Parsed::Fail(ERR_SOF_SHORT),
        i + 10 < d.len() < i + 19 && d[i + 9] == 3 ==> {
            let g = sof_applied(d, i, h);
            &&& g.sampling == h.sampling && g.quant_tbl == h.quant_tbl && g.format == h.format
            &&& g.num_components == 3 && g.height == 256 * d[i + 5] + d[i + 6]
            &&& g.width == 256 * d[i + 7] + d[i + 8]
        },
{
}

/// A table of which fewer than two bytes are there is not begun, and a table that is cut off keeps
/// the counts that it had where the data has none.
pub proof fn law_cut_off_tables(d: Seq<u8>, off: int, end: int, h: HeaderView, t: HuffView, k: int)
    requires
        0 <= off,
        0 <= k < 16,
        t.bits.len() == 16,
        h.huff_tables.len() == 4,
    ensures
        off + 2 > d.len() ==> dht_applied(d, off, end, h) == Some(h) && dqt_applied(d, off, end, h)
            == Some(h),
        off + 2 == d.len() && off < end && d[off] / 16 <= 1 ==> dht_applied(d, off, end, h) == Some(
            HeaderView {
                huff_tables: h.huff_tables.update(
                    huff_slot_of(d[off] / 16, d[off] % 16),
                    dht_loaded(d, off, h.huff_tables[huff_slot_of(d[off] / 16, d[off] % 16)]),
                ),
                ..h
            },
        ),
        d.len() <= off + 1 + k ==> dht_loaded(d, off, t).bits[k] == t.bits[k],
        d.len() > off + 1 + k ==> dht_loaded(d, off, t).bits[k] == d[off + 1 + k],
{
    reveal_with_fuel(dht_applied, 2);
}

/// More values than a table has room for are refused where so many are there; where the data ends
/// before, the table is taken as far as it goes, and ends the segment.
pub proof fn law_too_many_values(d: Seq<u8>, off: int, end: int, h: HeaderView)
    requires
        0 <= off < end,
        off + 17 <= d.len(),
        total(d.subrange(off + 1, off + 17)) > 256,
    ensures
        d.len() > off + 273 ==> dht_applied(d, off, end, h) is None,
        d.len() <= off + 273 ==> dht_applied(d, off, end, h) is Some,
{
    lemma_total(d.subrange(off + 1, off + 17));
    reveal_with_fuel(dht_applied, 2);
}

} // verus!
