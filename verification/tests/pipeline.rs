use cvirtos::b2s;
use cvirtos::b2s::{CommTest, FirstLook, Written};
use cvirtos::drivers::ive::{csc_yuv420_to_rgb888, InputFmt};
use cvirtos::drivers::jpu::session::JpuSession;
use cvirtos::drivers::jpu::trace::{StepTrace, CLEAN_STREAM, COPY_STREAM, INV_AFTER, INV_FRAME, POLL};
use cvirtos::drivers::usb::dwc2::ch::UsbIrq;
use cvirtos::ipc;
use cvirtos::ipc::Mailbox;
use cvirtos::task::{
    pipeline_loop, report_fps, report_fps_brief, PipeAction, PipeEvent, PipePhase, Pipeline,
    PipelineStats,
};

fn run(p: &mut Pipeline, ev: PipeEvent) -> PipeAction {
    assert!(p.accepts(&ev));
    pipeline_loop(p, InputFmt::new(), ev)
}

#[test]
fn a_round_of_the_loop() {
    let mut p = Pipeline::new(1000);
    assert_eq!(p.stats, PipelineStats::new(1000));
    assert!(matches!(run(&mut p, PipeEvent::Round { paused: true }), PipeAction::Spin));
    assert!(matches!(run(&mut p, PipeEvent::Round { paused: false }), PipeAction::Capture));
    let ev = PipeEvent::Captured { len: 5000, bytes: 4000, began: 10, ended: 35 };
    assert!(matches!(run(&mut p, ev), PipeAction::Decode { len: 5000 }));
    assert_eq!((p.frames, p.stats.tick_cap, p.stats.byte_acc), (1, 25, 5000));
    let ev = PipeEvent::Decoded { result: Ok((640, 480, 614_400)), began: 40, ended: 50 };
    match run(&mut p, ev) {
        PipeAction::Convert { ops } => assert_eq!(
            ops,
            csc_yuv420_to_rgb888(
                InputFmt::new(),
                0x8FE8_8000,
                0x8FE8_8000 + 307_200,
                0x8FE8_8000 + 460_800,
                640,
                320,
                0x8FF5_E000,
                0x8FF5_E000 + 307_200,
                0x8FF5_E000 + 614_400,
                640,
                640,
                480,
            )
        ),
        _ => panic!("a decoded frame is converted"),
    }
    match run(&mut p, PipeEvent::Converted { began: u64::MAX, ended: 4 }) {
        PipeAction::Notify { ops, report } => {
            assert_eq!(ops, ipc::notify(1, 614_400, 3 | 0x8000 | ipc::encode_dims(640, 480)));
            assert!(!report);
        }
        _ => panic!("a converted frame is reported"),
    }
    assert_eq!((p.stats.tick_dec, p.stats.tick_ive), (10, 5));
    assert_eq!(p.phase, PipePhase::Idle);
}

#[test]
fn frames_that_are_reported_compressed() {
    let mut p = Pipeline::new(0);
    run(&mut p, PipeEvent::Round { paused: false });
    let ev = PipeEvent::Captured { len: 0, bytes: 7, began: 0, ended: 0 };
    match run(&mut p, ev) {
        PipeAction::Notify { ops, .. } => {
            assert_eq!(ops, ipc::notify(1, 0, 3 | ipc::encode_dims(640, 480)))
        }
        _ => panic!("an empty frame is not decoded"),
    }
    assert_eq!(p.stats.byte_acc, 7);
    run(&mut p, PipeEvent::Round { paused: false });
    run(&mut p, PipeEvent::Captured { len: 123, bytes: 0, began: 0, ended: 0 });
    let ev = PipeEvent::Decoded { result: Err("JPU decode error"), began: 0, ended: 0 };
    match run(&mut p, ev) {
        PipeAction::Notify { ops, .. } => {
            assert_eq!(ops, ipc::notify(2, 123, 3 | ipc::encode_dims(640, 480)))
        }
        _ => panic!("a frame that does not decode is reported"),
    }
    run(&mut p, PipeEvent::Round { paused: false });
    let too_long = 393_216 - 4096 + 1;
    let ev = PipeEvent::Captured { len: too_long, bytes: 0, began: 0, ended: 0 };
    assert!(matches!(run(&mut p, ev), PipeAction::Notify { .. }));
    run(&mut p, PipeEvent::Round { paused: false });
    assert!(matches!(run(&mut p, PipeEvent::CaptureFailed), PipeAction::Again));
    assert_eq!(p.frames, 3);
}

#[test]
fn no_more_bytes_are_reported_than_the_buffer_has() {
    let mut p = Pipeline::new(0);
    run(&mut p, PipeEvent::Round { paused: false });
    run(&mut p, PipeEvent::Captured { len: 1, bytes: 0, began: 0, ended: 0 });
    run(&mut p, PipeEvent::Decoded { result: Ok((8, 8, 700_000)), began: 0, ended: 0 });
    match run(&mut p, PipeEvent::Converted { began: 0, ended: 0 }) {
        PipeAction::Notify { ops, .. } => assert_eq!(
            ops,
            ipc::notify(1, 614_400, 3 | 0x8000 | ipc::encode_dims(8, 8))
        ),
        _ => panic!("a converted frame is reported"),
    }
}

#[test]
fn a_report_is_due_every_hundred_frames() {
    let mut p = Pipeline::new(0);
    p.frames = 99;
    run(&mut p, PipeEvent::Round { paused: false });
    let ev = PipeEvent::Captured { len: 0, bytes: 0, began: 0, ended: 0 };
    assert!(matches!(run(&mut p, ev), PipeAction::Notify { report: true, .. }));
    p.stats.fps_mark_frame = 1;
    run(&mut p, PipeEvent::Round { paused: false });
    p.frames = 99;
    assert!(matches!(run(&mut p, ev), PipeAction::Notify { report: false, .. }));
}

#[test]
fn events_out_of_turn_are_not_accepted() {
    let mut p = Pipeline::new(0);
    assert!(!p.accepts(&PipeEvent::CaptureFailed));
    assert!(!p.accepts(&PipeEvent::Converted { began: 0, ended: 0 }));
    run(&mut p, PipeEvent::Round { paused: false });
    assert!(!p.accepts(&PipeEvent::Round { paused: false }));
    run(&mut p, PipeEvent::Captured { len: 1, bytes: 0, began: 0, ended: 0 });
    let ev = PipeEvent::Decoded { result: Ok((65536, 65536, 1)), began: 0, ended: 0 };
    assert!(!p.accepts(&ev));
    p.stats.tick_dec = 1;
    let ev = PipeEvent::Decoded { result: Err("x"), began: 0, ended: u64::MAX };
    assert!(!p.accepts(&ev));
}

#[test]
fn a_report() {
    let mut st = PipelineStats::new(1_000);
    st.tick_cap = 250_000;
    st.tick_dec = 125_000;
    st.tick_ive = 2_500;
    st.byte_acc = 1_024_000;
    let mut trace = StepTrace::new();
    trace.ticks[INV_FRAME as usize] = 25_000;
    trace.ticks[POLL as usize] = 50_000;
    trace.ticks[INV_AFTER as usize] = 7_500;
    trace.ticks[COPY_STREAM as usize] = 10_000;
    trace.ticks[CLEAN_STREAM as usize] = 2_500;
    trace.ticks[0] = 9;
    let mut irq = UsbIrq { count: 12, control_done: true, video_done: false };
    let mut session = JpuSession::new();
    session.resets = 3;
    let now = 1_000 + 4 * 25_000_000;
    let line = report_fps(&mut st, 100, now, 5_000, &mut trace, &mut irq, &session);
    assert_eq!(
        String::from_utf8(line).unwrap(),
        "[FPS] frames=100 fps=25.00 bytes/frame=10240 KB/s=250 us{cap=100 dec=50 ive=1 wyuv=2} \
         jpu{inv1=10 poll=20 inv2=3 cpy=4 cln=1} usbisr=12 jpu_err=3\n"
    );
    let mut fresh = PipelineStats::new(now);
    fresh.fps_mark_frame = 100;
    assert_eq!(st, fresh);
    assert_eq!(irq, UsbIrq { count: 0, control_done: true, video_done: false });
    assert_eq!(trace.ticks[POLL as usize], 0);
    assert_eq!(trace.ticks[0], 9);
    assert_eq!(session.resets, 3);
}

#[test]
fn a_report_of_no_time_and_no_frames() {
    let mut st = PipelineStats::new(5);
    st.byte_acc = 77;
    let mut trace = StepTrace::new();
    let mut irq = UsbIrq { count: 0, control_done: false, video_done: false };
    let session = JpuSession::new();
    let line = report_fps(&mut st, 0, 5, 0, &mut trace, &mut irq, &session);
    assert_eq!(
        String::from_utf8(line).unwrap(),
        "[FPS] frames=0 fps=0.00 bytes/frame=77 KB/s=0 us{cap=0 dec=0 ive=0 wyuv=0} \
         jpu{inv1=0 poll=0 inv2=0 cpy=0 cln=0} usbisr=0 jpu_err=0\n"
    );
}

#[test]
fn a_brief_report() {
    let mut st = PipelineStats::new(0);
    st.fps_mark_frame = 4_294_967_200;
    let mut session = JpuSession::new();
    session.resets = 2;
    let line = report_fps_brief(&mut st, 4, 33_000_000, &mut session, 0x8FE0_1234);
    assert_eq!(
        String::from_utf8(line).unwrap(),
        "[FPS] frames=4 fps=75.75 jpu_err=2 pc=0x8fe01234\n"
    );
    assert_eq!(session.resets, 0);
    assert_eq!((st.fps_mark_frame, st.fps_mark_time), (4, 33_000_000));
    let line = report_fps_brief(&mut st, 5, 33_000_000 + 50_000_000, &mut session, 0x42);
    assert_eq!(
        String::from_utf8(line).unwrap(),
        "[FPS] frames=5 fps=0.50 jpu_err=0 pc=0x00000042\n"
    );
}

// ---- the other core's test ----

fn mail(count: u32, size: u32, flags: u32) -> Mailbox {
    Mailbox {
        magic: 0xC906_C906,
        frame_count: count,
        yuv_size: size,
        flags,
        reply_magic: 0,
        reply_data: 0,
        reply_seq: 0,
        _pad: 0,
    }
}

#[test]
fn a_mailbox_is_read_back() {
    let words: [u32; 8] = [0xC906_C906, 2, 614_400, 0x2801_E003, 0x5250_4C59, 0xA5A5_0001, 9, 55];
    let mut bytes = [0u8; 32];
    for (k, word) in words.iter().enumerate() {
        bytes[4 * k..4 * k + 4].copy_from_slice(&word.to_le_bytes());
    }
    let m = b2s::read_mailbox(&bytes);
    assert_eq!(m.magic, words[0]);
    assert_eq!(m.frame_count, words[1]);
    assert_eq!(m.yuv_size, words[2]);
    assert_eq!(m.flags, words[3]);
    assert_eq!(m.reply_magic, words[4]);
    assert_eq!(m.reply_data, words[5]);
    assert_eq!(m.reply_seq, words[6]);
    assert_eq!(m._pad, 0);
}

#[test]
fn the_first_frame() {
    assert_eq!(b2s::first_look(&mail(1, 0, 0)), FirstLook::Begin);
    assert_eq!(b2s::first_look(&mail(0, 0, 0)), FirstLook::Wait);
    let mut m = mail(1, 0, 0);
    m.magic = 0xFFFF_FFFF;
    assert_eq!(b2s::first_look(&m), FirstLook::Panicked);
    m.magic = 0;
    assert_eq!(b2s::first_look(&m), FirstLook::NotRunning);
}

#[test]
fn ends_of_a_frame() {
    let mut buf = vec![0u8; b2s::YUV_SLOT_SIZE];
    buf[0] = 1;
    buf[7] = 2;
    let last = buf.len() - 1;
    buf[last] = 3;
    assert_eq!(b2s::peek_yuv(&buf, 8), (1, 0x0200_0000));
    assert_eq!(b2s::peek_yuv(&buf, 2), (1, 1));
    assert_eq!(b2s::peek_yuv(&buf, u32::MAX), (1, 0x0300_0000));
}

#[test]
fn frames_are_observed() {
    let flags = ipc::encode_dims(640, 480) | 3;
    let ready = flags | ipc::FLAG_YUV_READY;
    let mut t = CommTest::new(&mail(10, 1, flags));
    assert_eq!((t.width, t.height, t.last_count), (640, 480, 10));
    let mut buf = vec![0u8; b2s::YUV_SLOT_SIZE];
    t.observe(&mail(12, 614_400, ready), Some(&buf));
    assert_eq!((t.frames, t.errors, t.changes), (2, 0, 1));
    t.observe(&mail(13, 614_400, ready), Some(&buf));
    assert_eq!((t.frames, t.errors, t.changes), (3, 0, 1));
    buf[0] = 9;
    t.observe(&mail(14, 614_400, ready), Some(&buf));
    assert_eq!(t.changes, 2);
    t.observe(&mail(15, 614_400, ready), None);
    t.observe(&mail(15, 614_400, ready), Some(&buf));
    assert_eq!((t.frames, t.errors, t.changes), (5, 0, 2));
    t.observe(&mail(14, 614_400, ready), None);
    assert_eq!(t.errors, 1);
    t.observe(&mail(16, 0, ready), None);
    t.observe(&mail(17, 614_401, ready), None);
    t.observe(&mail(18, 1, ipc::encode_dims(320, 480)), None);
    assert_eq!((t.frames, t.errors), (8, 4));
    let mut other = mail(99, 1, flags);
    other.magic = 1;
    let before = t;
    t.observe(&other, None);
    assert_eq!(t, before);
    assert_eq!(t.frames, t.last_count - 10);
}

#[test]
fn messages_are_due() {
    let mut t = CommTest::new(&mail(1, 1, 0));
    assert_eq!(t.next_message(0, 2), None);
    assert_eq!(t.next_message(1, 2), None);
    assert_eq!(t.next_message(2, 2), Some(0xA5A5_0000));
    t.message_written(Written::Whole);
    assert_eq!(t.sent, 1);
    assert_eq!(t.next_message(2, 2), None);
    assert_eq!(t.next_message(4, 2), Some(0xA5A5_0001));
    t.message_written(Written::Not);
    assert_eq!((t.sent, t.failures), (1, 1));
}

#[test]
fn round_trips() {
    let mut t = CommTest::new(&mail(1, 1, 0));
    t.message_written(Written::Whole);
    let mut m = mail(1, 1, 0);
    m.reply_data = 0xA5A5_0000;
    assert!(!t.check_reply(0xA5A5_0000, &m));
    m.reply_seq = 1;
    assert!(t.check_reply(0xA5A5_0000, &m));
    assert!(!t.check_reply(0xA5A5_0001, &m));
    assert_eq!((t.round_trips, t.failures), (1, 2));
}

#[test]
fn the_verdict() {
    let mut t = CommTest::new(&mail(1, 1, 0));
    t.frames = 1;
    t.round_trips = 1;
    assert!(t.passed(false));
    assert!(!t.passed(true));
    t.changes = 1;
    assert!(t.passed(true));
    t.errors = 1;
    assert!(!t.passed(true));
    t.errors = 0;
    t.failures = 1;
    assert!(!t.passed(true));
    t.failures = 0;
    t.frames = 0;
    assert!(!t.passed(true));
    t.frames = 1;
    t.round_trips = 0;
    assert!(!t.passed(true));
}
