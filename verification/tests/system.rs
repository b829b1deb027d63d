use cvirtos::arch::cache::{dcache_clean_range, dcache_invalidate_range};
use cvirtos::arch::plic;
use cvirtos::arch::plic::PlicOp;
use cvirtos::arch::time;
use cvirtos::arch::trap::{external_source, rust_trap_handler, ExternalSource, TrapAction};
use cvirtos::drivers::gpio::{Pin, GPIO};
use cvirtos::drivers::ive;
use cvirtos::drivers::ive::InputFmt;
use cvirtos::drivers::mailbox;
use cvirtos::drivers::pinmux;
use cvirtos::drivers::wdt;
use cvirtos::fault;
use cvirtos::hw::{modified, poll_until, wait_step, HwOp, WaitStep};
use cvirtos::ipc;
use cvirtos::ipc::{Control, Mailbox};
use cvirtos::logger;
use cvirtos::logger::{LineLock, LockPhase, LockWait, LogFilter, LogLevel};
use cvirtos::platform;
use cvirtos::stats;
use cvirtos::text;
use cvirtos::yuv_buf;

fn w(addr: usize, value: u32) -> HwOp {
    HwOp::Write { addr, value }
}

fn apply(words: &mut [(usize, u32)], ops: &[HwOp]) {
    for op in ops {
        if let HwOp::Write { addr, value } = op {
            for word in words.iter_mut() {
                if word.0 == *addr {
                    word.1 = *value;
                }
            }
        }
    }
}

// ---- waiting ----

#[test]
fn wait_rounds() {
    assert_eq!(wait_step(4, 4, true, 0, 10), WaitStep::Done);
    assert_eq!(wait_step(0, 4, false, 0, 10), WaitStep::Done);
    assert_eq!(wait_step(0, 4, true, 9, 10), WaitStep::Again);
    assert_eq!(wait_step(4, 4, true, 10, 10), WaitStep::Expired);
    assert_eq!(poll_until(4, 4, true, 1), WaitStep::Done);
    assert_eq!(poll_until(0, 4, true, 1), WaitStep::Again);
    assert_eq!(poll_until(4, 4, true, 0), WaitStep::Expired);
    assert_eq!(modified(0xFF, 0x0F, 0x05), 0xF5);
}

// ---- architecture ----

#[test]
fn cache_lines() {
    assert_eq!(dcache_clean_range(0x1000, 0), Vec::<usize>::new());
    assert_eq!(dcache_clean_range(0x1001, 64), vec![0x1000, 0x1040]);
    assert_eq!(dcache_invalidate_range(0x1040, 64), vec![0x1040]);
    assert_eq!(dcache_invalidate_range(0x103F, 2), vec![0x1000, 0x1040]);
}

#[test]
fn plic_bring_up_and_claims() {
    assert_eq!(
        plic::init(),
        vec![
            PlicOp::SetThreshold { ctx: 0, value: 0 },
            PlicOp::SetPriority { src: 61, value: 1 },
            PlicOp::Enable { src: 61, ctx: 0 },
        ]
    );
    assert_eq!(plic::claim(None), 0);
    assert_eq!(plic::claim(Some(61)), 61);
    assert_eq!(plic::complete(0), None);
    assert_eq!(plic::complete(30), Some(PlicOp::Complete { src: 30, ctx: 0 }));
}

#[test]
fn ticks_and_delays() {
    assert_eq!(time::duration_to_ticks(1_000), 25);
    assert_eq!(time::duration_to_ticks(39), 0);
    assert_eq!(time::duration_to_ticks(40), 1);
    assert_eq!(time::delay(100, 1_000), 125);
    assert_eq!(time::delay(u64::MAX, 1_000), 24);
    assert!(!time::delay_over(124, 125));
    assert!(time::delay_over(125, 125));
    assert!(!time::delay_over(u64::MAX, 24));
    assert!(time::delay_over(24, 24));
    assert_eq!(time::elapsed_since(125, 100), 1_000);
    assert_eq!(time::elapsed_since(4, u64::MAX), 200);
    assert_eq!(time::elapsed_since(u64::MAX, 0), u64::MAX);
}

#[test]
fn heartbeat() {
    let beat = 0x1_0000_0000u64 - 250_000 + 5;
    assert_eq!(time::rearm(beat), vec![w(0x7400_4000, 5), w(0x7400_4004, 1)]);
    assert_eq!(
        time::init_heartbeat(0),
        vec![w(0x0190_041C, 0), w(0x0190_040C, 0), w(0x7400_4000, 250_000), w(0x7400_4004, 0)]
    );
    assert_eq!(
        time::heartbeat_tick(0x1_8000_0042, 0),
        vec![
            w(0x0301_000c, 0x76),
            HwOp::Increment { addr: 0x0190_041C },
            w(0x0190_040C, 0x8000_0042),
            w(0x7400_4000, 250_000),
            w(0x7400_4004, 0),
        ]
    );
}

#[test]
fn watchdog() {
    assert_eq!(
        wdt::start(),
        vec![w(0x0301_0004, 15), w(0x0301_0000, 1), w(0x0301_000c, 0x76)]
    );
    assert_eq!(wdt::kick(), vec![w(0x0301_000c, 0x76)]);
}

#[test]
fn trap_causes() {
    assert_eq!(rust_trap_handler(0x8000_0000_0000_000b), TrapAction::External);
    assert_eq!(rust_trap_handler(0x8000_0000_0000_0007), TrapAction::Heartbeat);
    assert_eq!(rust_trap_handler(5), TrapAction::Fault);
    assert_eq!(rust_trap_handler(7), TrapAction::Fault);
    assert_eq!(rust_trap_handler(2), TrapAction::Ignore);
    assert_eq!(rust_trap_handler(11), TrapAction::Ignore);
    assert_eq!(rust_trap_handler(0x8000_0000_0000_0003), TrapAction::Ignore);
    assert_eq!(rust_trap_handler(0x8000_0000_0000_0005), TrapAction::Ignore);
    assert_eq!(rust_trap_handler(0x8000_0000_0000_0002), TrapAction::Ignore);
    assert_eq!(rust_trap_handler(1234), TrapAction::Ignore);
    assert_eq!(external_source(61), ExternalSource::Mailbox);
    assert_eq!(external_source(30), ExternalSource::Usb);
    assert_eq!(external_source(0), ExternalSource::Unknown);
}

// ---- board ----

#[test]
fn board_bring_up() {
    assert_eq!(
        platform::platform_init(0xFFFF_F7F0),
        vec![
            HwOp::Modify { addr: 0x0300_2004, mask: 0xF000_0000, value: 0xF000_0000 },
            HwOp::Modify { addr: 0x0300_2008, mask: 1, value: 1 },
            HwOp::Modify { addr: 0x0300_2030, mask: 0x6_0000, value: 0 },
            w(0x0300_3000, 0xFFFF_F7F0),
            HwOp::Delay { nanos: 50_000 },
            w(0x0300_3000, 0xFFFF_FFF0),
            HwOp::Delay { nanos: 50_000 },
        ]
    );
    assert_eq!(
        platform::platform_init_port(0x1080),
        vec![
            w(0x0300_0048, 0x10C1),
            HwOp::Delay { nanos: 1_000_000 },
            w(0x0300_0048, 0x1041),
            HwOp::Delay { nanos: 1_000_000 },
            HwOp::Modify { addr: 0x0300_00B4, mask: 0x80, value: 0x80 },
            w(0x0300_10fc, 3),
            HwOp::Modify { addr: 0x0300_1820, mask: 0xE0, value: 0xE0 },
            HwOp::Modify { addr: 0x0302_1004, mask: 0xFFFF_FFFF, value: 0x40 },
            HwOp::Modify { addr: 0x0302_1000, mask: 0xFFFF_FFFF, value: 0x40 },
            HwOp::Delay { nanos: 200_000_000 },
        ]
    );
}

#[test]
fn pins() {
    let pin = GPIO::new(0x100).pin(31);
    assert_eq!(pin, Pin { base: 0x100, num: 31 });
    assert_eq!(
        pin.set_output_direction(),
        HwOp::Modify { addr: 0x104, mask: 0xFFFF_FFFF, value: 0x8000_0000 }
    );
    assert_eq!(
        pin.set(true),
        HwOp::Modify { addr: 0x100, mask: 0xFFFF_FFFF, value: 0x8000_0000 }
    );
    assert_eq!(pin.set(false), HwOp::Modify { addr: 0x100, mask: 0xFFFF_FFFF, value: 0 });
    assert_eq!(pinmux::vbus_pin_to_gpio(), w(0x0300_10fc, 3));
}

// ---- image engine ----

#[test]
fn input_format_is_four_bits_or_the_default() {
    let mut f = InputFmt::new();
    assert_eq!(ive::input_fmt(f), 0);
    ive::set_input_fmt(&mut f, 0x15);
    assert_eq!(ive::input_fmt(f), 5);
    ive::set_input_fmt(&mut f, u32::MAX);
    assert_eq!(ive::input_fmt(f), 0);
}

#[test]
fn conversion_script() {
    let mut f = InputFmt::new();
    ive::set_input_fmt(&mut f, 6);
    let ops = ive::csc_yuv420_to_rgb888(
        f,
        0x8FE8_8000,
        0x8FED_3000,
        0x8FEF_8800,
        640,
        320,
        0x1_8FF5_E000,
        0x8FFA_9000,
        0x8FFF_4000,
        640,
        640,
        480,
    );
    let b = 0x0A0A_0000usize;
    let size = 639 | (479 << 16);
    let mut want = vec![
        w(b + 4, 1),
        HwOp::Delay { nanos: 10_000 },
        w(b + 4, 0),
        w(b + 8, size),
        w(b + 0x2010, 1),
        w(b + 0x2014, 0),
    ];
    let coefs = [1024, 0, 1404, 179188, 1024, 344, 715, 136040, 1024, 1774, 0, 226505];
    for (k, c) in coefs.iter().enumerate() {
        want.push(w(b + 0x2198 + 4 * k, *c));
    }
    want.push(w(b + 0x2194, 0x1_0000));
    want.push(w(b + 0x21c8, 0x10));
    want.push(w(b + 0x468, 0x4_0000));
    want.push(HwOp::Delay { nanos: 10_000 });
    want.push(w(b + 0x468, 0));
    want.push(w(b + 0x40c, 640));
    want.push(w(b + 0x410, 320));
    want.push(w(b + 0x408, size));
    want.push(w(b + 0x400, 0x1_0862));
    want.push(w(b + 0x424, 0x8FE8_8000));
    want.push(w(b + 0x428, 0));
    want.push(w(b + 0x42c, 0x8FED_3000));
    want.push(w(b + 0x430, 0));
    want.push(w(b + 0x434, 0x8FEF_8800));
    want.push(w(b + 0x438, 0));
    want.push(w(b + 0x414, 4));
    want.push(w(b + 0x10, 0x8009));
    want.push(w(b + 0x213c, 640));
    want.push(w(b + 0x2140, 640));
    want.push(w(b + 0x2148, 639));
    want.push(w(b + 0x214c, 479 << 16));
    want.push(w(b + 0x2124, 0x8FF5_E000));
    want.push(w(b + 0x2128, 1));
    want.push(w(b + 0x212c, 0x8FFA_9000));
    want.push(w(b + 0x2130, 0));
    want.push(w(b + 0x2134, 0x8FFF_4000));
    want.push(w(b + 0x2138, 0));
    want.push(w(b + 0x2120, 0x1201));
    want.push(w(b + 0x98, 0));
    want.push(w(b + 0x94, 0));
    want.push(w(b + 4, 0x10));
    assert_eq!(ops, want);
}

#[test]
fn conversion_of_nothing_has_no_negative_size() {
    let ops = ive::csc_yuv420_to_rgb888(InputFmt::new(), 0, 0, 0, 0, 0, 0, 0, 0, 0, 0, 0);
    assert_eq!(ops[3], w(0x0A0A_0008, 0));
}

#[test]
fn conversion_is_watched() {
    assert_eq!(ive::csc_poll(1, u64::MAX), Some(Ok(())));
    assert_eq!(ive::csc_poll(0, 999_999_999), None);
    assert_eq!(ive::csc_poll(0, 1_000_000_000), Some(Err("IVE CSC timeout")));
}

// ---- mailbox controller ----

#[test]
fn doorbell_and_claim() {
    let b = 0x0190_0000usize;
    let bell = mailbox::doorbell_big(7, 0xC906_C906);
    assert_eq!(
        bell,
        vec![
            w(b + 0x400, 7),
            w(b + 0x404, 0xC906_C906),
            w(b + 0x20, 1),
            w(b + 0x24, 0),
            w(b + 4, 1),
            w(b + 0x60, 1),
        ]
    );
    assert_eq!(mailbox::claim_b2s(1, 9), None);
    let (msg, ops) = mailbox::claim_b2s(3, 9).unwrap();
    assert_eq!(msg, 9);
    assert_eq!(ops, vec![w(b + 0x408, 0), w(b + 0x30, 2), w(b + 8, 0)]);
    for x in bell.iter() {
        for y in ops.iter() {
            if let (HwOp::Write { addr: p, .. }, HwOp::Write { addr: q, .. }) = (x, y) {
                assert_ne!(p, q);
            }
        }
    }
    assert!(mailbox::b2s_pending(2));
    assert!(!mailbox::b2s_pending(5));
}

// ---- mailbox in memory ----

#[test]
fn dims_round_trip() {
    assert_eq!(ipc::encode_dims(640, 480), 0x2801_E000);
    assert_eq!(ipc::decode_dims(0x2801_E000), (640, 480));
    assert_eq!(ipc::decode_dims(ipc::encode_dims(4097, 4098)), (1, 2));
    assert_eq!(ipc::decode_dims(ipc::encode_dims(4095, 4095)), (4095, 4095));
}

#[test]
fn slot_round_trip() {
    assert_eq!(ipc::encode_slot(0), 0);
    assert_eq!(ipc::encode_slot(1), 4);
    assert_eq!(ipc::encode_slot(3), 4);
    let flags = ipc::FLAG_SOI | ipc::FLAG_EOI | ipc::encode_slot(1) | ipc::encode_dims(640, 480);
    assert_eq!(ipc::decode_slot(flags), 1);
    assert_eq!(ipc::decode_dims(flags), (640, 480));
    assert_eq!(ipc::FLAG_SLOT, ipc::encode_slot(1));
}

#[test]
fn ready_mark_lies_in_the_height() {
    let ready = ipc::FLAG_SOI | ipc::FLAG_EOI | ipc::FLAG_YUV_READY;
    assert_eq!(ipc::decode_dims(ready | ipc::encode_dims(640, 480)), (640, 480));
    assert_eq!(ipc::decode_dims(ready | ipc::encode_dims(320, 256)), (320, 256 + 128));
}

#[test]
fn mailbox_scripts() {
    let p = 0x9004_0000usize;
    let flush = HwOp::CleanCache { start: p, size: 32 };
    assert_eq!(
        ipc::write(1, 2, 3),
        vec![
            w(p, 0xC906_C906),
            w(p + 4, 1),
            w(p + 8, 2),
            w(p + 12, 3),
            w(p + 16, 0),
            w(p + 20, 0),
            w(p + 24, 0),
            flush,
        ]
    );
    let news = ipc::notify(5, 6, 7);
    assert_eq!(
        &news[..5],
        &[w(p + 4, 5), w(p + 8, 6), w(p + 12, 7), w(p, 0xC906_C906), flush][..]
    );
    assert_eq!(&news[5..], &mailbox::doorbell_big(5, 0xC906_C906)[..]);
    assert_eq!(
        ipc::write_reply(u32::MAX, 0x1234),
        vec![w(p + 20, 0x1234), w(p + 24, 0), w(p + 16, 0x5250_4C59), flush]
    );
}

#[test]
fn news_and_replies_do_not_overwrite_each_other() {
    let p = 0x9004_0000usize;
    let mut words: Vec<(usize, u32)> = (0..7).map(|k| (p + 4 * k, 100 + k as u32)).collect();
    apply(&mut words, &ipc::notify(5, 6, 7));
    let values: Vec<u32> = words.iter().map(|x| x.1).collect();
    assert_eq!(values, vec![0xC906_C906, 5, 6, 7, 104, 105, 106]);
    apply(&mut words, &ipc::write_reply(106, 0xABCD));
    let values: Vec<u32> = words.iter().map(|x| x.1).collect();
    assert_eq!(values, vec![0xC906_C906, 5, 6, 7, 0x5250_4C59, 0xABCD, 107]);
}

#[test]
fn mark_of_news_comes_last() {
    let p = 0x9004_0000usize;
    let ops = ipc::notify(5, 6, 7);
    for n in 0..ops.len() + 1 {
        let mut words: Vec<(usize, u32)> = (0..4).map(|k| (p + 4 * k, 0)).collect();
        apply(&mut words, &ops[..n]);
        if words[0].1 == 0xC906_C906 {
            assert_eq!((words[1].1, words[2].1, words[3].1), (5, 6, 7));
        }
    }
}

#[test]
fn switches() {
    let mut c = Control::new();
    assert!(!ipc::paused(&c) && !ipc::muted(&c));
    ipc::set_paused(&mut c, true);
    assert!(ipc::paused(&c) && !ipc::muted(&c));
    ipc::set_muted(&mut c, true);
    ipc::set_paused(&mut c, false);
    assert!(!ipc::paused(&c) && ipc::muted(&c));
}

#[test]
fn control_messages_turn_switches() {
    let mut c = Control::new();
    let mut f = InputFmt::new();
    let a = ipc::handle_mailbox_irq(&mut c, &mut f, 0xF049_5001, 3);
    assert!(c.paused && a.echo.is_none());
    assert_eq!(a.reply, ipc::write_reply(3, 0xF049_5001));
    ipc::handle_mailbox_irq(&mut c, &mut f, 0xF049_5000, 4);
    assert!(!c.paused);
    ipc::handle_mailbox_irq(&mut c, &mut f, 0xF049_5602, 5);
    assert_eq!(ive::input_fmt(f), 2);
    ipc::handle_mailbox_irq(&mut c, &mut f, 0xF049_57FF, 6);
    assert!(c.muted);
    let before = c;
    let a = ipc::handle_mailbox_irq(&mut c, &mut f, 0xF049_9901, 7);
    assert_eq!(c, before);
    assert!(a.echo.is_none());
    assert_eq!(a.reply, ipc::write_reply(7, 0xF049_9901));
}

#[test]
fn other_messages_are_shown_unless_mute() {
    let mut c = Control::new();
    let mut f = InputFmt::new();
    let a = ipc::handle_mailbox_irq(&mut c, &mut f, 0xA5A5_0000, 0);
    assert_eq!(a.echo, Some(b"[MB-RX] big->small msg=0xa5a50000\n".to_vec()));
    ipc::set_muted(&mut c, true);
    let a = ipc::handle_mailbox_irq(&mut c, &mut f, 0xA5A5_0000, 0);
    assert_eq!(a.echo, None);
    assert_eq!(a.reply, ipc::write_reply(0, 0xA5A5_0000));
}

#[test]
fn mailbox_type_is_plain() {
    let m = Mailbox {
        magic: 1,
        frame_count: 2,
        yuv_size: 3,
        flags: 4,
        reply_magic: 5,
        reply_data: 6,
        reply_seq: 7,
        _pad: 8,
    };
    assert_eq!(m, m.clone());
}

// ---- stops ----

#[test]
fn panic_leaves_its_place() {
    let mut want = vec![w(0x0190_0420, 17), w(0x0190_0424, 0x2F63_7273)];
    want.extend(ipc::write(0xFFFF_FFFF, 0, 0));
    assert_eq!(fault::panic_script(Some((b"src/main.rs", 17))), want);
    let mut short = vec![w(0x0190_0420, 1), w(0x0190_0424, 0x61)];
    short.extend(ipc::write(0xFFFF_FFFF, 0, 0));
    assert_eq!(fault::panic_script(Some((b"a", 1))), short);
    assert_eq!(fault::panic_script(None), ipc::write(0xFFFF_FFFF, 0, 0));
}

#[test]
fn fault_is_reported() {
    assert_eq!(
        fault::fault_line(5, 0x8FE0_0010, 0),
        b"\n!!! C906L FAULT: mcause=0x5 mepc=0x8fe00010 mtval=0x0 !!!\n".to_vec()
    );
}

// ---- text and console ----

#[test]
fn numbers_as_text() {
    for n in [0u64, 9, 10, 99, 100, 1234567890, u64::MAX] {
        let mut dec = Vec::new();
        text::push_dec(&mut dec, n);
        assert_eq!(dec, format!("{}", n).into_bytes());
        let mut hex = Vec::new();
        text::push_hex(&mut hex, n);
        assert_eq!(hex, format!("{:#x}", n).into_bytes());
        let mut wide = Vec::new();
        text::push_wide_hex(&mut wide, n);
        assert_eq!(wide, format!("{:#010x}", n).into_bytes());
    }
    let mut two = b"x".to_vec();
    text::push_two(&mut two, 7);
    text::push_two(&mut two, 42);
    text::push_str(&mut two, "\u{e9}");
    assert_eq!(two, "x0742\u{e9}".as_bytes().to_vec());
}

#[test]
fn feeds_get_returns() {
    assert_eq!(logger::print_nolock(b"a\nb\n\n"), b"a\r\nb\r\n\r\n".to_vec());
    assert_eq!(logger::print(false, b"x\n"), Some(b"x\r\n".to_vec()));
    assert_eq!(logger::print(true, b"x\n"), None);
    let out = logger::print_nolock(b"\n\r\n");
    for k in 0..out.len() {
        if out[k] == b'\n' {
            assert!(k > 0 && out[k - 1] == b'\r');
        }
    }
}

#[test]
fn serial_line() {
    assert!(logger::uart_ready(0x20));
    assert!(!logger::uart_ready(0xDF));
    assert_eq!(logger::uart_putc(b'A'), w(0x0414_0000, 0x41));
}

#[test]
fn log_levels() {
    let mut started = false;
    assert_eq!(logger::init(&mut started), Some(LogFilter::Off));
    assert!(started);
    assert_eq!(logger::init(&mut started), None);
    assert_eq!(
        logger::log_line(LogLevel::Warn, "hot"),
        Some(b"[WARN] hot\n".to_vec())
    );
    assert_eq!(
        logger::log_line(LogLevel::Error, ""),
        Some(b"[ERROR] \n".to_vec())
    );
    assert_eq!(logger::log_line(LogLevel::Info, "x"), Some(b"[INFO] x\n".to_vec()));
    assert_eq!(logger::log_line(LogLevel::Debug, "x"), None);
    assert_eq!(logger::log_line(LogLevel::Trace, "x"), None);
    assert_eq!(LogLevel::Debug.as_str(), "DEBUG");
    assert_eq!(LogLevel::Trace.as_str(), "TRACE");
    assert_ne!(LogFilter::Off, LogFilter::Upto(LogLevel::Info));
}

#[test]
fn one_attempt_at_the_lock() {
    let flag = 0x0190_0410usize;
    let mut l = LineLock::new();
    assert_eq!(l.line_lock_try(), Some(vec![w(flag, 1), HwOp::Fence]));
    assert_eq!(l.line_lock_tried(1), (false, vec![w(flag, 0)]));
    assert!(!l.held);
    assert_eq!(l.line_lock_tried(0), (true, vec![]));
    assert!(l.held);
    assert_eq!(l.line_lock_try(), None);
    assert_eq!(
        l.line_unlock(),
        vec![HwOp::Fence, w(0x0190_0418, 0), w(flag, 0), HwOp::Fence]
    );
    assert!(!l.held);
}

#[test]
fn waiting_for_the_lock() {
    let flag = 0x0190_0410usize;
    let mut l = LineLock::new();
    let (wait, ops) = logger::line_lock_wait();
    assert_eq!(ops, vec![w(flag, 1), HwOp::Fence]);
    let (next, ops) = wait.step(&mut l, 0);
    assert!(next.is_none() && ops.is_empty() && l.held);

    let mut l = LineLock::new();
    let (wait, _) = logger::line_lock_wait();
    let (wait, ops) = wait.step(&mut l, 1);
    let wait = wait.unwrap();
    assert_eq!(wait, LockWait { phase: LockPhase::Turn, spins: 0 });
    assert!(ops.is_empty());
    let (wait, ops) = wait.step(&mut l, 0);
    let wait = wait.unwrap();
    assert_eq!(wait.phase, LockPhase::Yield);
    assert_eq!(ops, vec![w(flag, 0), HwOp::Fence]);
    let (wait, ops) = wait.step(&mut l, 0);
    let wait = wait.unwrap();
    assert_eq!(wait, LockWait { phase: LockPhase::Yield, spins: 1 });
    assert!(ops.is_empty());
    let (wait, ops) = wait.step(&mut l, 1);
    assert_eq!(wait, Some(LockWait { phase: LockPhase::Contend, spins: 2 }));
    assert_eq!(ops, vec![w(flag, 1), HwOp::Fence]);
    assert!(!l.held);
}

#[test]
fn waiting_for_the_lock_ends() {
    let mut l = LineLock::new();
    let (mut wait, _) = logger::line_lock_wait();
    let mut steps = 0u64;
    loop {
        let word = if wait.phase == LockPhase::Contend { 1 } else { 0 };
        steps += 1;
        match wait.step(&mut l, word).0 {
            Some(next) => wait = next,
            None => break,
        }
    }
    assert!(l.held);
    assert!(steps <= 3 * 2_000_000 + 3);

    let mut l = LineLock::new();
    let mut wait = LockWait { phase: LockPhase::Turn, spins: 2_000_000 };
    let (next, _) = wait.step(&mut l, 1);
    assert!(next.is_none() && l.held);
    wait.spins = 1_999_999;
    assert!(wait.step(&mut l, 1).0.is_some());
}

// ---- counters ----

#[test]
fn counters() {
    let p = 0x8FFF_E040usize;
    let flush = HwOp::CleanCache { start: p, size: 48 };
    let ops = stats::init();
    assert_eq!(ops.len(), 13);
    assert_eq!(ops[0], w(p + 4, 0));
    assert_eq!(ops[10], w(p + 44, 0));
    assert_eq!(ops[11], w(p, 0x5354_4154));
    assert_eq!(ops[12], flush);
    let inc = |k: usize| vec![HwOp::Increment { addr: p + 4 * k }, flush];
    assert_eq!(stats::inc_loop(), inc(1));
    assert_eq!(stats::inc_cap_ok(), inc(2));
    assert_eq!(stats::inc_cap_err(), inc(3));
    assert_eq!(stats::inc_jpu_ok(), inc(4));
    assert_eq!(stats::inc_jpu_err(), inc(5));
    assert_eq!(stats::inc_jpu_reset(), inc(6));
    assert_eq!(stats::set_stage(stats::STAGE_DECODE), vec![w(p + 28, 3), flush]);
    assert_eq!(stats::set_time_lo(0x5_0000_0007), vec![w(p + 36, 7), flush]);
    assert_eq!(stats::TRACE_PA, p + 32);
}

// ---- planes ----

#[test]
fn planes() {
    assert_eq!(
        yuv_buf::yuv_planes(0x8FE8_8000, 640, 480),
        (0x8FE8_8000, 0x8FE8_8000 + 307_200, 0x8FE8_8000 + 460_800)
    );
    assert_eq!(
        yuv_buf::rgb_planes(0x8FF5_E000, 640, 480),
        (0x8FF5_E000, 0x8FF5_E000 + 307_200, 0x8FF5_E000 + 614_400)
    );
    assert_eq!(yuv_buf::yuv_planes(10, 3, 2), (10, 16, 18));
    let (y, u, v) = yuv_buf::yuv_planes(0, 640, 480);
    assert_eq!((u - y, v - u), (307_200, 153_600));
    assert_eq!(v + 153_600, platform::YUV_BUF_SIZE);
}
