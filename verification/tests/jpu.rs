use cvirtos::drivers::jpu::decoder::{
    configure_stream_regs, decode_outcome, frame_layout, gram_setup, poll_decode_done,
    start_decode, upload_huff_tables, upload_quant_tables, DecodePoll, DecodeResult, JpuDecoder,
    ERR_TIMEOUT,
};
use cvirtos::drivers::jpu::header::{
    parse_jpeg_header, try_parse_jpeg_header, HuffTable, JpegHeaderInfo, Marker, QuantTable,
};
use cvirtos::drivers::jpu::mem::{
    copy_to_phys, init_jpu_memory_with, jpu_alloc, jpu_free, JpuMemoryPool, PhysBuffer,
};
use cvirtos::drivers::jpu::regs::{hard_reset, hardware_init, wait_bbc_idle};
use cvirtos::drivers::jpu::session::{reset_count, take_reset_count, JpuSession};
use cvirtos::drivers::jpu::trace::{take_step_ticks, StepTrace};
use cvirtos::hw::HwOp;

const B: usize = 0x0B00_0000;

fn w(addr: usize, value: u32) -> HwOp {
    HwOp::Write { addr, value }
}

/// A table segment with the counts of the usual luminance DC table.
fn dht(class_and_destination: u8) -> Vec<u8> {
    let mut v = vec![0xFF, 0xC4, 0, 2 + 17 + 12, class_and_destination];
    v.extend([0, 1, 5, 1, 1, 1, 1, 1, 1, 0, 0, 0, 0, 0, 0, 0]);
    v.extend(0..12u8);
    v
}

fn dqt(destination: u8, first: u8) -> Vec<u8> {
    let mut v = vec![0xFF, 0xDB, 0, 67, destination];
    v.extend((0..64u8).map(|k| first + k));
    v
}

fn sof(w: u16, h: u16, y: u8) -> Vec<u8> {
    let mut v = vec![0xFF, 0xC0, 0, 17, 8];
    v.extend(h.to_be_bytes());
    v.extend(w.to_be_bytes());
    v.extend([3, 1, y, 0, 2, 0x11, 1, 3, 0x11, 1]);
    v
}

fn sos() -> Vec<u8> {
    vec![0xFF, 0xDA, 0, 12, 3, 1, 0x00, 2, 0x11, 3, 0x11, 0, 63, 0]
}

fn image(w: u16, h: u16, y: u8) -> Vec<u8> {
    let mut v = vec![0xFF, 0xD8];
    v.extend(dqt(0, 1));
    v.extend(dqt(1, 100));
    v.extend(sof(w, h, y));
    v.extend(dht(0x00));
    v.extend(dht(0x10));
    v.extend(dht(0x01));
    v.extend(dht(0x11));
    v.extend([0xFF, 0xDD, 0, 4, 0x01, 0x02]);
    v.extend(sos());
    v.extend([0x12, 0x34, 0xFF, 0xD9]);
    v
}

// ---- header ----

#[test]
fn markers() {
    assert!(matches!(Marker::from_byte(0xFF), Marker::Fill));
    assert!(matches!(Marker::from_byte(0x00), Marker::Stuffing));
    assert!(matches!(Marker::from_byte(0xDA), Marker::Sos));
    assert!(matches!(Marker::from_byte(0xE0), Marker::OtherWithLength));
    assert!(matches!(Marker::from_byte(0x01), Marker::Other));
}

#[test]
fn a_header_is_parsed() {
    let d = image(640, 480, 0x21);
    let h = parse_jpeg_header(&d).unwrap();
    assert_eq!((h.width, h.height, h.num_components, h.format), (640, 480, 3, 1));
    assert_eq!(h.sampling, [(2, 1), (1, 1), (1, 1)]);
    assert_eq!(h.restart_interval, 0x0102);
    assert_eq!(h.quant_tbl, [0, 1, 1]);
    assert_eq!(h.quant_table_count, 2);
    assert_eq!(h.quant_tables[1].values[63], 163);
    assert_eq!(h.dc_huff_tbl, [0, 1, 1]);
    assert_eq!(h.ac_huff_tbl, [0, 1, 1]);
    assert_eq!(h.ecs_offset, d.len() - 4);
    assert_eq!(h.huff_tables[0].num_values, 12);
    assert_eq!(h.huff_tables[3].values[11], 11);
}

#[test]
fn data_follows_the_scan_header() {
    let d = image(64, 64, 0x22);
    let h = parse_jpeg_header(&d).unwrap();
    let p = d.windows(2).position(|x| x == [0xFF, 0xDA]).unwrap();
    assert_eq!(h.ecs_offset, p + 2 + 12);
}

#[test]
fn formats_follow_the_sampling() {
    for (y, format) in [(0x22u8, 0u32), (0x21, 1), (0x12, 2), (0x11, 3)] {
        assert_eq!(parse_jpeg_header(&image(16, 16, y)).unwrap().format, format);
    }
    let mut grey = vec![0xFF, 0xD8, 0xFF, 0xC0, 0, 11, 8, 0, 16, 0, 16, 1, 1, 0x11, 0];
    grey.extend(sos());
    let h = parse_jpeg_header(&grey).unwrap();
    assert_eq!((h.format, h.num_components), (4, 1));
}

#[test]
fn unusable_headers() {
    assert_eq!(parse_jpeg_header(&[]).err(), Some("SOS not found"));
    assert_eq!(parse_jpeg_header(&[0xFF, 0xD8, 0xFF, 0xD9]).err(), Some("SOS not found"));
    assert_eq!(parse_jpeg_header(&[0xFF, 0xC0, 0, 17, 8, 0, 1]).err(), Some("SOF too short"));
}

#[test]
fn tables_out_of_range() {
    let mut d = vec![0xFF, 0xC4, 0xFF, 0xFF, 0x00];
    d.extend([255u8; 16]);
    d.extend([0u8; 600]);
    assert!(try_parse_jpeg_header(&d).is_none());
    let mut d = vec![0xFF, 0xDB, 0, 67, 0x04];
    d.extend([0u8; 64]);
    assert!(try_parse_jpeg_header(&d).is_none());
    assert!(try_parse_jpeg_header(&image(16, 16, 0x22)).is_some());
}

#[test]
fn huffman_codes_are_canonical() {
    let h = parse_jpeg_header(&image(16, 16, 0x22)).unwrap();
    let t = &h.huff_tables[0];
    assert_eq!(&t.min_codes[..10], &[0xFFFF, 0, 2, 14, 30, 62, 126, 254, 510, 0xFFFF][..]);
    assert_eq!(&t.max_codes[..10], &[0xFFFF, 0, 6, 14, 30, 62, 126, 254, 510, 0xFFFF][..]);
    assert_eq!(&t.ptrs[..10], &[255, 0, 1, 6, 7, 8, 9, 10, 11, 255][..]);
    for i in 0..16 {
        for j in i + 1..16 {
            if t.bits[i] != 0 && t.bits[j] != 0 {
                for a in t.min_codes[i]..t.max_codes[i] + 1 {
                    for b in t.min_codes[j]..t.max_codes[j] + 1 {
                        assert_ne!(b >> (j - i), a);
                    }
                }
            }
        }
    }
}

#[test]
fn empty_tables() {
    let mut t = HuffTable::new();
    t.generate();
    assert_eq!(t.min_codes, [0xFFFF; 16]);
    assert_eq!(t.ptrs, [255; 16]);
    assert_eq!(QuantTable::new().values, [0; 64]);
    assert_eq!(JpegHeaderInfo::new().width, 0);
    assert_eq!(HuffTable::sign_extend_16(0x8000), 0xFFFF);
    assert_eq!(HuffTable::sign_extend_16(0x7FFF), 0);
    assert_eq!(HuffTable::sign_extend_8(0x80), 0xFF_FFFF);
    assert_eq!(HuffTable::sign_extend_8(0x7F), 0);
}

#[test]
fn wide_quantisation_tables() {
    let mut d = vec![0xFF, 0xDB, 0, 131, 0x12];
    for k in 0..64u16 {
        d.extend((1000 + k).to_be_bytes());
    }
    d.extend(sos());
    let h = parse_jpeg_header(&d).unwrap();
    assert_eq!(h.quant_tables[2].values[5], 1005);
    assert_eq!(h.quant_table_count, 3);
}

// ---- memory ----

#[test]
fn pages_are_given_out_and_taken_back() {
    let mut p = JpuMemoryPool::new();
    assert_eq!(jpu_alloc(&mut p, 1), None);
    init_jpu_memory_with(&mut p, 0x8FF1_E000, 0xE_0000);
    let a = jpu_alloc(&mut p, 0x40000).unwrap();
    assert_eq!(a, PhysBuffer { addr: 0x8FF2_0000, size: 0x40000 });
    let b = jpu_alloc(&mut p, 1).unwrap();
    assert_eq!(b, PhysBuffer { addr: 0x8FF6_0000, size: 16384 });
    assert_eq!(jpu_alloc(&mut p, 0x40000 * 3), None);
    jpu_free(&mut p, a);
    assert_eq!(jpu_alloc(&mut p, 0x40000), Some(a));
    jpu_free(&mut p, PhysBuffer { addr: 1, size: 1 });
    jpu_free(&mut p, PhysBuffer { addr: 0, size: 0 });
    jpu_free(&mut p, a);
    assert_eq!(jpu_alloc(&mut p, 20_000), Some(PhysBuffer { addr: 0x8FF2_0000, size: 32768 }));
}

#[test]
fn a_pool_manages_a_megabyte_at_most() {
    let mut p = JpuMemoryPool::new();
    init_jpu_memory_with(&mut p, 0x4000, usize::MAX);
    assert_eq!(jpu_alloc(&mut p, 0x10_0001), None);
    assert_eq!(jpu_alloc(&mut p, 0x10_0000), Some(PhysBuffer { addr: 0x4000, size: 0x10_0000 }));
}

#[test]
fn empty_buffers_and_copies() {
    assert!(PhysBuffer { addr: 0, size: 5 }.is_empty());
    assert!(PhysBuffer { addr: 5, size: 0 }.is_empty());
    let b = PhysBuffer { addr: 16, size: 8 };
    assert!(!b.is_empty());
    assert_eq!(copy_to_phys(b, 3), Some(HwOp::CopyIn { addr: 16, len: 3 }));
    assert_eq!(copy_to_phys(b, 30), Some(HwOp::CopyIn { addr: 16, len: 8 }));
    assert_eq!(copy_to_phys(b, 0), None);
}

// ---- unit ----

#[test]
fn bring_up_and_reset() {
    let up = hardware_init();
    assert_eq!(up[1], HwOp::Modify { addr: 0x0300_3000, mask: 0x10, value: 0x10 });
    assert_eq!(up[3], HwOp::Read { addr: 0x0B03_0000 });
    let reset = hard_reset();
    assert_eq!(reset[0], HwOp::Modify { addr: 0x0300_3000, mask: 0x10, value: 0 });
    assert_eq!(reset[1], HwOp::Delay { nanos: 1_000_000 });
    assert_eq!(reset[3], HwOp::Modify { addr: 0x0300_3000, mask: 0x10, value: 0x10 });
    assert_eq!(
        wait_bbc_idle(),
        HwOp::Wait { addr: B + 0x224, mask: 1, set: false, timeout_nanos: 10_000_000 }
    );
}

#[test]
fn layouts() {
    let of = |w: u16, h: u16, y: u8| frame_layout(&parse_jpeg_header(&image(w, h, y)).unwrap());
    let (size, l) = of(640, 480, 0x21);
    assert_eq!(size, 614_400);
    assert_eq!((l.aligned_width, l.aligned_height, l.stride_y, l.stride_c), (640, 480, 640, 320));
    assert_eq!((l.luma_size, l.chroma_size), (307_200, 153_600));
    assert_eq!((l.mcu_block_num, l.comp_info, l.bus_req_num), (4, 0x955, 3));
    let (size, l) = of(17, 9, 0x22);
    assert_eq!((l.aligned_width, l.aligned_height), (32, 16));
    assert_eq!((size, l.stride_c, l.chroma_size), (768, 16, 128));
    assert_eq!((l.mcu_block_num, l.comp_info, l.bus_req_num), (6, 0xA55, 2));
    let (size, l) = of(17, 9, 0x12);
    assert_eq!((l.aligned_width, l.aligned_height, l.stride_c), (24, 16, 24));
    assert_eq!((size, l.bus_req_num), (768, 3));
    let (size, l) = of(17, 9, 0x11);
    assert_eq!((l.aligned_width, l.aligned_height), (24, 16));
    assert_eq!((size, l.comp_info, l.bus_req_num), (1152, 0x555, 4));
    let mut grey = JpegHeaderInfo::new();
    grey.width = 8;
    grey.height = 8;
    grey.format = 4;
    grey.num_components = 1;
    grey.sampling = [(1, 1); 3];
    let (size, l) = frame_layout(&grey);
    assert_eq!((size, l.stride_c, l.chroma_size, l.comp_info), (64, 0, 0, 0x500));
}

#[test]
fn stream_registers() {
    let h = parse_jpeg_header(&image(640, 480, 0x21)).unwrap();
    let (_, l) = frame_layout(&h);
    let b = PhysBuffer { addr: 0x1_8FF2_0000, size: 0x40000 };
    assert_eq!(
        configure_stream_regs(&b, 513, &h, l),
        vec![
            w(B + 0x230, 0x8FF2_0000),
            w(B + 0x208, 0x8FF2_0201),
            w(B + 0x210, 0x8FF2_0000),
            w(B + 0x20C, 0x8FF2_0201),
            w(B + 0x234, 0x8000_0003),
            w(B + 0x118, 0),
            w(B + 0x11C, 0),
            w(B + 0x8, 0),
            w(B + 0x10, (3 << 7) | (3 << 10) | 0x40),
            w(B + 0x14, (640 << 16) | 480),
            w(B + 0x1C, 0),
            w(B + 0x18, (4 << 16) | (3 << 12) | 0x955),
            w(B + 0x30, 0),
            w(B + 0xB0, 0x0102),
            w(B + 0x20, 0),
            w(B + 0x2C, 3),
        ]
    );
}

#[test]
fn tables_are_loaded() {
    let h = parse_jpeg_header(&image(640, 480, 0x21)).unwrap();
    let ops = upload_huff_tables(&h);
    assert_eq!(ops.len(), 1 + 64 + 2 + 64 + 2 + 64 + 1 + 12 + 12 + 162 + 162 + 1);
    let data = B + 0x88;
    assert_eq!(ops[0], w(B + 0x80, 0x003));
    assert_eq!(ops[1], w(data, 0xFFFF_FFFF));
    assert_eq!(ops[2], w(data, 0));
    assert_eq!(ops[65], w(B + 0x80, 0x403));
    assert_eq!(ops[66], w(B + 0x84, 0x440));
    assert_eq!(ops[131], w(B + 0x80, 0x803));
    assert_eq!(ops[132], w(B + 0x84, 0x880));
    assert_eq!(ops[133], w(data, 0xFFFF_FFFF));
    assert_eq!(ops[134], w(data, 0));
    assert_eq!(ops[197], w(B + 0x80, 0xC03));
    assert_eq!(ops[198 + 11], w(data, 11));
    assert_eq!(ops[198 + 24 + 11], w(data, 11));
    assert_eq!(ops[198 + 24 + 12], w(data, 0xFFFF_FFFF));
    assert_eq!(*ops.last().unwrap(), w(B + 0x80, 0));

    let q = upload_quant_tables(&h);
    assert_eq!(q.len(), 3 * 66);
    assert_eq!(q[0], w(B + 0x90, 0x03));
    assert_eq!(q[1], w(B + 0x98, 1));
    assert_eq!(q[65], w(B + 0x90, 0));
    assert_eq!(q[66], w(B + 0x90, 0x43));
    assert_eq!(q[67], w(B + 0x98, 100));
    assert_eq!(q[132], w(B + 0x90, 0x83));
}

#[test]
fn negative_entries_are_extended() {
    let mut h = JpegHeaderInfo::new();
    h.huff_tables[0].bits[0] = 2;
    h.huff_tables[0].num_values = 2;
    h.huff_tables[0].values[0] = 0x80;
    h.huff_tables[0].values[1] = 0x7F;
    h.huff_tables[0].min_codes[0] = 0x8001;
    let ops = upload_huff_tables(&h);
    assert_eq!(ops[1], w(B + 0x88, 0xFFFF_8001));
    assert_eq!(ops[198], w(B + 0x88, 0xFFFF_FF80));
    assert_eq!(ops[199], w(B + 0x88, 0x7F));
    assert_eq!(ops[200], w(B + 0x88, 0xFFFF_FFFF));
    h.num_components = 3;
    assert_eq!(upload_quant_tables(&h), vec![]);
}

#[test]
fn the_reader_is_positioned() {
    let mut h = JpegHeaderInfo::new();
    h.ecs_offset = 0x1A7;
    let ops = gram_setup(0x8FF2_0000, &h);
    assert_eq!(
        &ops[..6],
        &[
            w(B + 0x22C, 1),
            w(B + 0x214, 0x8FF2_0100),
            w(B + 0x218, 64),
            w(B + 0x21C, 64),
            w(B + 0x220, 0),
            wait_bbc_idle(),
        ][..]
    );
    assert_eq!(ops[6], w(B + 0x22C, 2));
    assert_eq!(ops[7], w(B + 0x214, 0x8FF2_0200));
    assert_eq!(ops[8], w(B + 0x218, 0));
    assert_eq!(
        &ops[12..],
        &[
            w(B + 0x22C, 3),
            w(B + 0x228, 1),
            w(B + 0x114, 0x28 + 64),
            w(B + 0x140, 0),
            w(B + 0x144, 127),
            w(B + 0x148, 0),
            w(B + 0x14C, 0),
            w(B + 0x100, 4),
            w(B + 0x160, 56),
        ][..]
    );
    h.ecs_offset = 0x20;
    let ops = gram_setup(0, &h);
    assert_eq!(ops[14], w(B + 0x114, 8));
    assert_eq!(ops[17], w(B + 0x148, 64));
}

#[test]
fn the_unit_is_started() {
    let h = parse_jpeg_header(&image(640, 480, 0x21)).unwrap();
    let (_, l) = frame_layout(&h);
    let ops = start_decode(0x8FE8_8000, &h, l);
    assert_eq!(ops.len(), 15);
    assert_eq!(ops[5], w(B + 0x160, 8 * (h.ecs_offset as u32 % 16)));
    assert_eq!(ops[7], w(B + 0x34, 0x8FE8_8000));
    assert_eq!(ops[8], w(B + 0x38, 0x8FE8_8000 + 307_200));
    assert_eq!(ops[9], w(B + 0x3C, 0x8FE8_8000 + 460_800));
    assert_eq!(ops[10], w(B + 0x64, 640));
    assert_eq!(ops[11], w(B + 0x68, 320));
    assert_eq!(ops[13], w(B + 4, 3));
    assert_eq!(ops[14], w(B, 1));
}

#[test]
fn the_unit_is_watched() {
    let ack = w(B + 4, 3);
    assert_eq!(poll_decode_done(3, u64::MAX), DecodePoll::Over { ack, result: Ok(()) });
    assert_eq!(
        poll_decode_done(2, 0),
        DecodePoll::Over { ack, result: Err("JPU decode error") }
    );
    assert_eq!(poll_decode_done(0, 199_999_999), DecodePoll::Again);
    assert_eq!(poll_decode_done(0, 200_000_000), DecodePoll::Expired);
    assert_eq!(decode_outcome(DecodePoll::Expired), Some(Err(ERR_TIMEOUT)));
    assert_eq!(decode_outcome(DecodePoll::Again), None);
    assert_eq!(decode_outcome(poll_decode_done(1, 0)), Some(Ok(())));
}

// ---- decoder ----

fn decoder() -> (JpuMemoryPool, JpuDecoder) {
    let mut p = JpuMemoryPool::new();
    let (ops, d) = JpuDecoder::new_with_pool(&mut p, 0x8FF1_E000, 0xE_0000, 0x8FE8_8000, 614_400);
    assert_eq!(ops, hardware_init());
    (p, d.unwrap())
}

#[test]
fn a_decoder_needs_room() {
    let mut p = JpuMemoryPool::new();
    let (ops, d) = JpuDecoder::new_with_pool(&mut p, 0x4000, 0x3FFFF, 0, 0);
    assert_eq!(d, Err("Failed to allocate stream buffer"));
    assert_eq!(ops, hardware_init());
    let (mut p, d) = decoder();
    assert_eq!(d.stream_buf, PhysBuffer { addr: 0x8FF2_0000, size: 0x40000 });
    d.release(&mut p);
    assert_eq!(jpu_alloc(&mut p, 0x40000), Some(d.stream_buf));
}

#[test]
fn a_decode_begins() {
    let (_, d) = decoder();
    let jpeg = image(640, 480, 0x21);
    let s = d.decode(&jpeg);
    assert_eq!(
        s.outcome,
        Ok(DecodeResult { width: 640, height: 480, frame_size: 614_400 })
    );
    let n = jpeg.len();
    assert_eq!(s.ops[0], HwOp::CopyIn { addr: 0x8FF2_0000, len: n });
    assert_eq!(s.ops[1], HwOp::CleanCache { start: 0x8FF2_0000, size: n });
    let h = parse_jpeg_header(&jpeg).unwrap();
    let (_, l) = frame_layout(&h);
    let mut want = s.ops[..2].to_vec();
    want.extend(configure_stream_regs(&d.stream_buf, n, &h, l));
    want.extend(upload_huff_tables(&h));
    want.extend(upload_quant_tables(&h));
    want.extend(gram_setup(0x8FF2_0000, &h));
    want.extend(start_decode(0x8FE8_8000, &h, l));
    assert_eq!(s.ops, want);
}

#[test]
fn decodes_that_do_not_begin() {
    let (_, d) = decoder();
    let s = d.decode(&[0xFF, 0xD8]);
    assert_eq!(s.outcome, Err("SOS not found"));
    assert_eq!(s.ops, vec![]);
    let big = image(1280, 720, 0x21);
    let s = d.decode(&big);
    assert_eq!(s.outcome, Err("output buffer too small"));
    assert_eq!(s.ops.len(), 2);
    let mut bad = vec![0xFF, 0xDB, 0, 67, 0x04];
    bad.extend([0u8; 64]);
    assert!(d.try_decode(&bad).is_none());
    let huge = image(65535, 65535, 0x22);
    assert!(d.try_decode(&huge).is_none());
}

#[test]
fn a_decode_ends() {
    let r = DecodeResult { width: 1, height: 2, frame_size: 3 };
    assert_eq!(JpuDecoder::finish(r, Ok(())), (vec![], Ok(r)));
    assert_eq!(
        JpuDecoder::finish(r, Err("JPU decode timeout")),
        (hard_reset(), Err("JPU decode timeout"))
    );
}

// ---- session ----

#[test]
fn a_session_creates_its_decoder_once() {
    let mut s = JpuSession::new();
    let jpeg = image(640, 480, 0x21);
    let a = s.decode_to_shared(&jpeg);
    assert_eq!(a.text, b"[JPU] decoder initialized\n".to_vec());
    assert_eq!(&a.ops[..hardware_init().len()], &hardware_init()[..]);
    let pending = a.outcome.unwrap();
    let end = s.finish(pending, Ok(()));
    assert_eq!(end.outcome, Ok((640, 480, 614_400)));
    assert!(end.ops.is_empty() && end.text.is_empty());
    let b = s.decode_to_shared(&jpeg);
    assert!(b.text.is_empty());
    assert_eq!(b.ops[0], HwOp::CopyIn { addr: 0x8FF2_0000, len: jpeg.len() });
    assert_eq!(reset_count(&s), 0);
}

#[test]
fn a_session_says_what_it_accepts() {
    let mut s = JpuSession::new();
    let jpeg = image(640, 480, 0x21);
    assert!(s.accepts(&jpeg));
    assert!(s.accepts(&[0xFF, 0xD9]));
    let mut bad = vec![0xFF, 0xDB, 0, 67, 0x04];
    bad.extend([0u8; 64]);
    assert!(!s.accepts(&bad));
    s.resets = u32::MAX;
    assert!(!s.accepts(&jpeg));
}

#[test]
fn a_session_recovers() {
    let mut s = JpuSession::new();
    let jpeg = image(640, 480, 0x21);
    let pending = s.decode_to_shared(&jpeg).outcome.unwrap();
    let end = s.finish(pending, Err("JPU decode timeout"));
    assert_eq!(end.outcome, Err("JPU decode timeout"));
    assert_eq!(end.text, b"[JPU] decode err=JPU decode timeout reset#0x1\n".to_vec());
    let mut want = hard_reset();
    want.extend(hardware_init());
    assert_eq!(end.ops, want);
    assert_eq!(reset_count(&s), 1);
    for n in 2..=17u32 {
        let r = s.decode_to_shared(&[0xFF, 0xD9]);
        assert_eq!(r.outcome.err(), Some("SOS not found"));
        assert_eq!(r.ops, hardware_init());
        if n == 16 {
            assert_eq!(r.text, b"[JPU] decode err=SOS not found reset#0x10\n".to_vec());
        } else {
            assert!(r.text.is_empty());
        }
    }
    assert!(s.decode_to_shared(&jpeg).outcome.is_ok());
    assert_eq!(take_reset_count(&mut s), 17);
    assert_eq!(reset_count(&s), 0);
}

// ---- trace ----

#[test]
fn steps_are_timed() {
    let mut t = StepTrace::new();
    t.mark_timed(3, 100);
    assert_eq!(take_step_ticks(&mut t, 3), 0);
    t.mark_timed(3, 150);
    t.mark_timed(14, 175);
    t.mark_timed(14, 180);
    t.mark_timed(99, 190);
    assert_eq!(take_step_ticks(&mut t, 3), 50);
    assert_eq!(take_step_ticks(&mut t, 3), 0);
    assert_eq!(take_step_ticks(&mut t, 14), 30);
    assert_eq!(take_step_ticks(&mut t, 99), 0);
}
