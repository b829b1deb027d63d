//! The main loop: capture a frame, decode it, convert it, tell the big core.

use crate::arch::time::{ticks_between, TIMEBASE_HZ};
use crate::drivers::ive::{
    convert_setup_script, csc_yuv420_to_rgb888, fmt_in_force, input_script, output_script, InputFmt,
};
use crate::drivers::jpu::decoder::{
    aligned_h, aligned_w, begin_outcome, decodable, law_chroma_within_luma,
};
use crate::drivers::jpu::header::{parsed, Parsed};
use crate::drivers::jpu::session::{reset_count, take_reset_count, the_decoder, JpuSession};
use crate::drivers::jpu::trace::{
    take_step_ticks, StepTrace, CLEAN_STREAM, COPY_STREAM, INV_AFTER, INV_FRAME, POLL,
};
use crate::drivers::usb::dwc2::ch::{take_usb_isr_count, UsbIrq};
use crate::drivers::usb::dwc2::dma::{readable, DMA_BUF_TOTAL};
use crate::drivers::usb::uvc::capture::UVC_ASSEMBLED_JPEG_DMA_OFF;
use crate::hw::HwOp;
use crate::ipc::{
    dims_word, encode_dims, notify, notify_script, FLAG_EOI, FLAG_SOI, FLAG_YUV_READY,
};
use crate::platform::{RGB_BUF_PA, YUV_BUF_PA, YUV_BUF_SIZE};
use crate::registers::low32;
use crate::text::{
    bytes_of, dec_digits, push_dec, push_str, push_two, push_wide_hex, two_digits, wide_hex,
};
use crate::yuv_buf::{full_plane, half_plane, law_yuv_planes_fit, rgb_planes, yuv_planes};
use vstd::prelude::*;

verus! {

/// Frames between two reports.
pub const FPS_REPORT_EVERY: u32 = 100;

/// The frame size that a compressed frame is reported with.
pub const NEGOTIATED_WIDTH: u32 = 640;

pub const NEGOTIATED_HEIGHT: u32 = 480;

// ---------------------------------------------------------------------------
// Counters
// ---------------------------------------------------------------------------
/// What is counted between two reports.
#[derive(Clone, Copy, Debug, PartialEq, Eq, Structural)]
pub struct PipelineStats {
    pub tick_cap: u64,
    pub tick_dec: u64,
    pub tick_ive: u64,
    pub byte_acc: u64,
    /// Frames at the last report.
    pub fps_mark_frame: u32,
    /// The clock at the last report.
    pub fps_mark_time: u64,
}

impl PipelineStats {
    /// Nothing was counted up to tick `now`.
    pub fn new(now: u64) -> (s: PipelineStats)
        ensures
            s == (PipelineStats {
                tick_cap: 0,
                tick_dec: 0,
                tick_ive: 0,
                byte_acc: 0,
                fps_mark_frame: 0,
                fps_mark_time: now,
            }),
    {
        PipelineStats {
            tick_cap: 0,
            tick_dec: 0,
            tick_ive: 0,
            byte_acc: 0,
            fps_mark_frame: 0,
            fps_mark_time: now,
        }
    }
}

// ---------------------------------------------------------------------------
// The loop
// ---------------------------------------------------------------------------
/// What the loop waits for.
#[derive(Clone, Copy, Debug, PartialEq, Eq, Structural)]
pub enum PipePhase {
    /// The next round.
    Idle,
    /// A frame.
    Capturing,
    /// The decoding of a frame of `len` compressed bytes.
    Decoding { len: usize },
    /// The conversion of a frame of `len` bytes.
    Converting { width: u32, height: u32, len: usize },
}

/// The main loop.
#[derive(Clone, Copy, Debug, PartialEq, Eq, Structural)]
pub struct Pipeline {
    pub frames: u32,
    pub stats: PipelineStats,
    pub phase: PipePhase,
}

/// What came of the last action. Ticks are those of its beginning and end.
#[derive(Clone, Copy, Debug)]
pub enum PipeEvent {
    /// A round begins.
    Round { paused: bool },
    /// A frame of `len` bytes was captured out of `bytes` received ones.
    Captured { len: usize, bytes: u32, began: u64, ended: u64 },
    /// No frame was captured.
    CaptureFailed,
    /// A frame was decoded: width, height and bytes.
    Decoded { result: Result<(u32, u32, usize), &'static str>, began: u64, ended: u64 },
    /// A frame was converted, or was not.
    Converted { began: u64, ended: u64 },
}

/// What is done next.
#[derive(Debug)]
pub enum PipeAction {
    /// Spin once and begin the next round.
    Spin,
    /// Capture a frame.
    Capture,
    /// Begin the next round.
    Again,
    /// Decode the frame of this length in the window.
    Decode { len: usize },
    /// Convert the frame; whether it succeeds makes no difference.
    Convert { ops: Vec<HwOp> },
    /// Tell the big core, print a report where one is due, and begin the next round.
    Notify { ops: Vec<HwOp>, report: bool },
}

/// Whether a frame of this size can be laid out in the shared buffers.
pub open spec fn planes_fit(w: u32, h: u32) -> bool {
    &&& w * h <= u32::MAX
    &&& YUV_BUF_PA + full_plane(w, h) + half_plane(w, h) <= usize::MAX
    &&& RGB_BUF_PA + 2 * full_plane(w, h) <= usize::MAX
}

/// Bytes that a captured frame counts for.
pub open spec fn counted_bytes(len: usize, bytes: u32) -> int {
    let n = len as int % 0x1_0000_0000;
    if bytes > n {
        bytes as int
    } else {
        n
    }
}

/// Whether an event is one that the loop waits for, with counts that can be added up and sizes
/// that can be laid out.
pub open spec fn event_fits(p: Pipeline, ev: PipeEvent) -> bool {
    match ev {
        PipeEvent::Round { paused } => p.phase is Idle,
        PipeEvent::Captured { len, bytes, began, ended } => {
            &&& p.phase is Capturing
            &&& p.stats.tick_cap + ticks_between(ended, began) <= u64::MAX
            &&& p.stats.byte_acc + counted_bytes(len, bytes) <= u64::MAX
        },
        PipeEvent::CaptureFailed => p.phase is Capturing,
        PipeEvent::Decoded { result, began, ended } => {
            &&& p.phase is Decoding
            &&& p.stats.tick_dec + ticks_between(ended, began) <= u64::MAX
            &&& result matches Ok(r) ==> planes_fit(r.0, r.1)
        },
        PipeEvent::Converted { began, ended } => {
            &&& p.phase is Converting
            &&& p.stats.tick_ive + ticks_between(ended, began) <= u64::MAX
        },
    }
}

/// Whether a report is due.
pub open spec fn report_due(p: Pipeline) -> bool {
    (p.frames - p.stats.fps_mark_frame) % 0x1_0000_0000 >= FPS_REPORT_EVERY
}

/// The loop after an event.
pub open spec fn pipe_after(p: Pipeline, ev: PipeEvent) -> Pipeline {
    match ev {
        PipeEvent::Round { paused } => if paused {
            p
        } else {
            Pipeline { phase: PipePhase::Capturing, ..p }
        },
        PipeEvent::Captured { len, bytes, began, ended } => Pipeline {
            frames: ((p.frames + 1) % 0x1_0000_0000) as u32,
            stats: PipelineStats {
                tick_cap: (p.stats.tick_cap + ticks_between(ended, began)) as u64,
                byte_acc: (p.stats.byte_acc + counted_bytes(len, bytes)) as u64,
                ..p.stats
            },
            phase: if readable(UVC_ASSEMBLED_JPEG_DMA_OFF as int, len as int) {
                PipePhase::Decoding { len }
            } else {
                PipePhase::Idle
            },
        },
        PipeEvent::CaptureFailed => Pipeline { phase: PipePhase::Idle, ..p },
        PipeEvent::Decoded { result, began, ended } => Pipeline {
            stats: PipelineStats {
                tick_dec: (p.stats.tick_dec + ticks_between(ended, began)) as u64,
                ..p.stats
            },
            phase: match result {
                Ok(r) => PipePhase::Converting { width: r.0, height: r.1, len: r.2 },
                Err(_) => PipePhase::Idle,
            },
            ..p
        },
        PipeEvent::Converted { began, ended } => Pipeline {
            stats: PipelineStats {
                tick_ive: (p.stats.tick_ive + ticks_between(ended, began)) as u64,
                ..p.stats
            },
            phase: PipePhase::Idle,
            ..p
        },
    }
}

/// Telling the big core of a frame that is there in compressed form only.
pub open spec fn mjpeg_only_script(frames: u32, len: usize) -> Seq<HwOp> {
    notify_script(
        frames,
        (len as int % 0x1_0000_0000) as u32,
        FLAG_SOI | FLAG_EOI | dims_word(NEGOTIATED_WIDTH, NEGOTIATED_HEIGHT),
    )
}

/// Telling the big core of a decoded frame; no more bytes are reported than the buffer has.
pub open spec fn decoded_script(frames: u32, w: u32, h: u32, len: usize) -> Seq<HwOp> {
    notify_script(
        frames,
        (if len < YUV_BUF_SIZE {
            len
        } else {
            YUV_BUF_SIZE
        }) as u32,
        FLAG_SOI | FLAG_EOI | FLAG_YUV_READY | dims_word(w, h),
    )
}

/// Converting the shared frame.
pub open spec fn shared_convert_script(fmt: u32, w: u32, h: u32) -> Seq<HwOp> {
    convert_setup_script(w, h) + input_script(
        fmt,
        YUV_BUF_PA,
        (YUV_BUF_PA + full_plane(w, h)) as usize,
        (YUV_BUF_PA + full_plane(w, h) + half_plane(w, h)) as usize,
        w,
        w / 2,
        w,
        h,
    ) + output_script(
        RGB_BUF_PA,
        (RGB_BUF_PA + full_plane(w, h)) as usize,
        (RGB_BUF_PA + 2 * full_plane(w, h)) as usize,
        w,
        w,
        h,
    )
}

/// Whether `a` is what is done about an event.
pub open spec fn action_follows(p: Pipeline, fmt: InputFmt, ev: PipeEvent, a: PipeAction) -> bool {
    let next = pipe_after(p, ev);
    match ev {
        PipeEvent::Round { paused } => if paused {
            a is Spin
        } else {
            a is Capture
        },
        PipeEvent::Captured { len, .. } => if readable(
            UVC_ASSEMBLED_JPEG_DMA_OFF as int,
            len as int,
        ) {
            a matches PipeAction::Decode { len: n } && n == len
        } else {
            a matches PipeAction::Notify { ops, report } && ops@ == mjpeg_only_script(
                next.frames,
                len,
            ) && report == report_due(next)
        },
        PipeEvent::CaptureFailed => a is Again,
        PipeEvent::Decoded { result, .. } => match result {
            Ok(r) => a matches PipeAction::Convert { ops } && ops@ == shared_convert_script(
                fmt_in_force(fmt),
                r.0,
                r.1,
            ),
            Err(_) => a matches PipeAction::Notify { ops, report } && ops@ == mjpeg_only_script(
                p.frames,
                p.phase->Decoding_len,
            ) && report == report_due(next),
        },
        PipeEvent::Converted { .. } => a matches PipeAction::Notify { ops, report } && ops@
            == decoded_script(
            p.frames,
            p.phase->Converting_width,
            p.phase->Converting_height,
            p.phase->Converting_len,
        ) && report == report_due(next),
    }
}

/// Tells the big core of a frame that is there in compressed form only, in the size that was
/// negotiated.
fn notify_mjpeg_only(frames: u32, len: usize) -> (ops: Vec<HwOp>)
    ensures
        ops@ == mjpeg_only_script(frames, len),
{
    let flags: u32 = FLAG_SOI | FLAG_EOI | encode_dims(NEGOTIATED_WIDTH, NEGOTIATED_HEIGHT);
    notify(frames, low32(len as u64), flags)
}

impl Pipeline {
    /// The loop before its first round.
    pub fn new(now: u64) -> (p: Pipeline)
        ensures
            p.frames == 0,
            p.phase is Idle,
            p.stats.fps_mark_frame == 0,
            p.stats.fps_mark_time == now,
            p.stats.tick_cap == 0 && p.stats.tick_dec == 0 && p.stats.tick_ive == 0,
            p.stats.byte_acc == 0,
    {
        Pipeline { frames: 0, stats: PipelineStats::new(now), phase: PipePhase::Idle }
    }

    /// Whether a report is due.
    fn due(&self) -> (r: bool)
        ensures
            r == report_due(*self),
    {
        self.frames.wrapping_sub(self.stats.fps_mark_frame) >= FPS_REPORT_EVERY
    }

    /// Whether an event can be taken.
    pub fn accepts(&self, ev: &PipeEvent) -> (r: bool)
        ensures
            r == event_fits(*self, *ev),
    {
        match ev {
            PipeEvent::Round { .. } => matches!(self.phase, PipePhase::Idle),
            PipeEvent::Captured { len, bytes, began, ended } => {
                let n: u32 = low32(*len as u64);
                let counted: u32 = if *bytes > n {
                    *bytes
                } else {
                    n
                };
                matches!(self.phase, PipePhase::Capturing) && self.stats.tick_cap <= u64::MAX
                    - ended.wrapping_sub(*began) && self.stats.byte_acc <= u64::MAX
                    - counted as u64
            },
            PipeEvent::CaptureFailed => matches!(self.phase, PipePhase::Capturing),
            PipeEvent::Decoded { result, began, ended } => {
                let fits: bool = match result {
                    Ok(r) => check_planes(r.0, r.1),
                    Err(_) => true,
                };
                matches!(self.phase, PipePhase::Decoding { .. }) && self.stats.tick_dec
                    <= u64::MAX - ended.wrapping_sub(*began) && fits
            },
            PipeEvent::Converted { began, ended } => matches!(
                self.phase,
                PipePhase::Converting { .. }
            ) && self.stats.tick_ive <= u64::MAX - ended.wrapping_sub(*began),
        }
    }
}

/// Whether a frame of this size can be laid out in the shared buffers.
fn check_planes(w: u32, h: u32) -> (r: bool)
    ensures
        r == planes_fit(w, h),
{
    proof {
        let (a, b) = (w as int, h as int);
        assert(0 <= a * b <= 0xFFFF_FFFF * 0xFFFF_FFFF) by (nonlinear_arith)
            requires
                0 <= a <= 0xFFFF_FFFF,
                0 <= b <= 0xFFFF_FFFF,
        ;
        law_yuv_planes_fit(w, h);
        let c = (w / 2) as int;
        assert(0 <= c * b) by (nonlinear_arith)
            requires
                0 <= c,
                0 <= b,
        ;
    }
    let full: u64 = w as u64 * h as u64;
    if full > u32::MAX as u64 {
        return false;
    }
    let half: u64 = (w / 2) as u64 * h as u64;
    YUV_BUF_PA as u64 + full + half <= usize::MAX as u64 && RGB_BUF_PA as u64 + 2 * full
        <= usize::MAX as u64
}

/// One step of the main loop. A frame that leads out of the window, and one that does not decode,
/// is reported in compressed form; a decoded frame is converted and reported whether or not the
/// conversion succeeds.
pub fn pipeline_loop(p: &mut Pipeline, fmt: InputFmt, ev: PipeEvent) -> (a: PipeAction)
    requires
        event_fits(*old(p), ev),
    ensures
        *final(p) == pipe_after(*old(p), ev),
        action_follows(*old(p), fmt, ev, a),
{
    match ev {
        PipeEvent::Round { paused } => {
            if paused {
                return PipeAction::Spin;
            }
            p.phase = PipePhase::Capturing;
            PipeAction::Capture
        },
        PipeEvent::Captured { len, bytes, began, ended } => {
            p.frames = p.frames.wrapping_add(1);
            p.stats.tick_cap = p.stats.tick_cap + ended.wrapping_sub(began);
            let n: u32 = low32(len as u64);
            let counted: u32 = if bytes > n {
                bytes
            } else {
                n
            };
            p.stats.byte_acc = p.stats.byte_acc + counted as u64;
            if len > 0 && len <= DMA_BUF_TOTAL - UVC_ASSEMBLED_JPEG_DMA_OFF {
                p.phase = PipePhase::Decoding { len };
                return PipeAction::Decode { len };
            }
            p.phase = PipePhase::Idle;
            let ops: Vec<HwOp> = notify_mjpeg_only(p.frames, len);
            PipeAction::Notify { ops, report: p.due() }
        },
        PipeEvent::CaptureFailed => {
            p.phase = PipePhase::Idle;
            PipeAction::Again
        },
        PipeEvent::Decoded { result, began, ended } => {
            let len: usize = match p.phase {
                PipePhase::Decoding { len } => len,
                _ => 0,
            };
            p.stats.tick_dec = p.stats.tick_dec + ended.wrapping_sub(began);
            match result {
                Ok(r) => {
                    let (w, h, bytes) = r;
                    p.phase = PipePhase::Converting { width: w, height: h, len: bytes };
                    let (y, u, v) = yuv_planes(YUV_BUF_PA, w, h);
                    let (red, green, blue) = rgb_planes(RGB_BUF_PA, w, h);
                    let ops: Vec<HwOp> = csc_yuv420_to_rgb888(
                        fmt,
                        y,
                        u,
                        v,
                        w,
                        w / 2,
                        red,
                        green,
                        blue,
                        w,
                        w,
                        h,
                    );
                    PipeAction::Convert { ops }
                },
                Err(_) => {
                    p.phase = PipePhase::Idle;
                    let ops: Vec<HwOp> = notify_mjpeg_only(p.frames, len);
                    PipeAction::Notify { ops, report: p.due() }
                },
            }
        },
        PipeEvent::Converted { began, ended } => {
            let (w, h, len): (u32, u32, usize) = match p.phase {
                PipePhase::Converting { width, height, len } => (width, height, len),
                _ => (0, 0, 0),
            };
            p.stats.tick_ive = p.stats.tick_ive + ended.wrapping_sub(began);
            p.phase = PipePhase::Idle;
            let reported: usize = if len < YUV_BUF_SIZE {
                len
            } else {
                YUV_BUF_SIZE
            };
            let flags: u32 = FLAG_SOI | FLAG_EOI | FLAG_YUV_READY | encode_dims(w, h);
            let ops: Vec<HwOp> = notify(p.frames, reported as u32, flags);
            PipeAction::Notify { ops, report: p.due() }
        },
    }
}

/// A frame that the decoder of the firmware takes on can be laid out in the shared buffers, so
/// the main loop can always go on with it.
pub proof fn law_decoded_frames_can_be_laid_out(d: Seq<u8>)
    requires
        decodable(the_decoder(), d),
        begin_outcome(the_decoder(), d) is Ok,
    ensures
        begin_outcome(the_decoder(), d) matches Ok(r) && planes_fit(r.width, r.height)
            && r.frame_size <= YUV_BUF_SIZE,
{
    if let Parsed::Header(h) = parsed(d) {
        law_chroma_within_luma(h);
        let (a, b, c, e) = (h.width as int, h.height as int, aligned_w(h), aligned_h(h));
        assert(a <= c && b <= e);
        assert(a * b <= c * e) by (nonlinear_arith)
            requires
                0 <= a <= c,
                0 <= b <= e,
        ;
        law_yuv_planes_fit(h.width, h.height);
    }
}

/// Whatever the events, every captured frame is counted once, and reported to the big core before
/// the next one is captured: the count changes only with a capture, and the loop begins a new
/// round only out of a notification, a failed capture or a pause.
pub proof fn law_every_frame_is_reported(p: Pipeline, fmt: InputFmt, ev: PipeEvent, a: PipeAction)
    requires
        event_fits(p, ev),
        action_follows(p, fmt, ev, a),
    ensures
        pipe_after(p, ev).frames != p.frames ==> ev is Captured,
        ev is Captured ==> pipe_after(p, ev).frames == (p.frames + 1) % 0x1_0000_0000,
        pipe_after(p, ev).phase is Idle && p.phase !is Idle ==> a is Notify || ev is CaptureFailed,
        a is Notify ==> pipe_after(p, ev).phase is Idle,
{
}

// ---------------------------------------------------------------------------
// Reports
// ---------------------------------------------------------------------------
/// Frames since the last report.
pub open spec fn frames_since(st: PipelineStats, frames: u32) -> int {
    (frames - st.fps_mark_frame) % 0x1_0000_0000
}

/// Frames since the last report, but at least one.
pub open spec fn share(st: PipelineStats, frames: u32) -> int {
    if frames_since(st, frames) == 0 {
        1
    } else {
        frames_since(st, frames)
    }
}

/// Hundredths of frames in a second, or none where no time has passed.
pub open spec fn fps_hundredths(n: int, dt: int) -> int {
    if dt > 0 {
        n * TIMEBASE_HZ * 100 / dt
    } else {
        0
    }
}

/// Kilobytes in a second, or none where no time has passed.
pub open spec fn kilobytes_per_second(bytes: int, dt: int) -> int {
    if dt > 0 {
        bytes * TIMEBASE_HZ / dt / 1024
    } else {
        0
    }
}

/// Microseconds that each of `n` frames took.
pub open spec fn micros_each(ticks: int, n: int) -> nat {
    (ticks / 25 / n) as nat
}

/// Ticks of a step.
pub open spec fn step_ticks(t: StepTrace, step: u32) -> int {
    t.ticks@[step as int] as int
}

/// A label and a number.
pub open spec fn item(label: &str, n: nat) -> Seq<u8> {
    bytes_of(label) + dec_digits(n)
}

/// The beginning of a report: frames, and frames in a second.
pub open spec fn report_head(st: PipelineStats, frames: u32, now: u64) -> Seq<u8> {
    let fps = fps_hundredths(frames_since(st, frames), ticks_between(now, st.fps_mark_time));
    item("[FPS] frames=", frames as nat) + item(" fps=", (fps / 100) as nat) + bytes_of(".")
        + two_digits((fps % 100) as nat)
}

/// What a report says of bytes and of the time that each part of the work took.
pub open spec fn report_load(
    st: PipelineStats,
    frames: u32,
    now: u64,
    write_ticks: u64,
) -> Seq<u8> {
    let n = share(st, frames);
    let dt = ticks_between(now, st.fps_mark_time);
    item(" bytes/frame=", (st.byte_acc as int / n) as nat) + item(
        " KB/s=",
        kilobytes_per_second(st.byte_acc as int, dt) as nat,
    ) + item(" us{cap=", micros_each(st.tick_cap as int, n)) + item(
        " dec=",
        micros_each(st.tick_dec as int, n),
    ) + item(" ive=", micros_each(st.tick_ive as int, n)) + item(
        " wyuv=",
        micros_each(write_ticks as int, n),
    )
}

/// What a report says of the steps of a decode.
pub open spec fn report_steps(n: int, t: StepTrace) -> Seq<u8> {
    item("} jpu{inv1=", micros_each(step_ticks(t, INV_FRAME), n)) + item(
        " poll=",
        micros_each(step_ticks(t, POLL), n),
    ) + item(" inv2=", micros_each(step_ticks(t, INV_AFTER), n)) + item(
        " cpy=",
        micros_each(step_ticks(t, COPY_STREAM), n),
    ) + item(" cln=", micros_each(step_ticks(t, CLEAN_STREAM), n)) + bytes_of("}")
}

/// The end of a report: interrupts and resets.
pub open spec fn report_tail(interrupts: u32, resets: u32) -> Seq<u8> {
    item(" usbisr=", interrupts as nat) + item(" jpu_err=", resets as nat) + bytes_of("\n")
}

/// The counters after a report.
pub open spec fn stats_restarted(frames: u32, now: u64) -> PipelineStats {
    PipelineStats {
        tick_cap: 0,
        tick_dec: 0,
        tick_ive: 0,
        byte_acc: 0,
        fps_mark_frame: frames,
        fps_mark_time: now,
    }
}

/// Whether the numbers of a report can be computed.
pub open spec fn report_fits(st: PipelineStats) -> bool {
    st.byte_acc * TIMEBASE_HZ <= u64::MAX
}

/// Computes hundredths of frames in a second.
fn fps_x100(n: u64, dt: u64) -> (r: u64)
    requires
        n <= u32::MAX,
    ensures
        r == fps_hundredths(n as int, dt as int),
{
    if dt > 0 {
        n * TIMEBASE_HZ * 100 / dt
    } else {
        0
    }
}

/// Appends a label and a number.
fn push_item(out: &mut Vec<u8>, label: &str, n: u64)
    ensures
        final(out)@ == old(out)@ + item(label, n as nat),
{
    let ghost start = out@;
    push_str(out, label);
    push_dec(out, n);
    assert(out@ =~= start + item(label, n as nat));
}

/// A text of one label and a number.
fn first_item(label: &str, n: u64) -> (out: Vec<u8>)
    ensures
        out@ == item(label, n as nat),
{
    let mut out: Vec<u8> = Vec::new();
    push_item(&mut out, label, n);
    assert(out@ =~= item(label, n as nat));
    out
}

/// The beginning of a report.
fn head_text(st: &PipelineStats, frames: u32, now: u64) -> (out: Vec<u8>)
    ensures
        out@ == report_head(*st, frames, now),
{
    let dt: u64 = now.wrapping_sub(st.fps_mark_time);
    let n: u64 = frames.wrapping_sub(st.fps_mark_frame) as u64;
    let fps: u64 = fps_x100(n, dt);
    let mut out: Vec<u8> = first_item("[FPS] frames=", frames as u64);
    push_item(&mut out, " fps=", fps / 100);
    push_str(&mut out, ".");
    push_two(&mut out, fps % 100);
    out
}

/// Frames since the last report, but at least one.
fn shared_among(st: &PipelineStats, frames: u32) -> (n: u64)
    ensures
        n == share(*st, frames),
        n > 0,
{
    let since: u64 = frames.wrapping_sub(st.fps_mark_frame) as u64;
    if since == 0 {
        1
    } else {
        since
    }
}

/// Kilobytes in a second.
fn kbps(bytes: u64, dt: u64) -> (r: u64)
    requires
        bytes * TIMEBASE_HZ <= u64::MAX,
    ensures
        r == kilobytes_per_second(bytes as int, dt as int),
{
    if dt > 0 {
        bytes * TIMEBASE_HZ / dt / 1024
    } else {
        0
    }
}

/// What a report says of bytes and times.
fn load_text(st: &PipelineStats, frames: u32, now: u64, write_ticks: u64) -> (out: Vec<u8>)
    requires
        report_fits(*st),
    ensures
        out@ == report_load(*st, frames, now, write_ticks),
{
    let dt: u64 = now.wrapping_sub(st.fps_mark_time);
    let n: u64 = shared_among(st, frames);
    let mut out: Vec<u8> = first_item(" bytes/frame=", st.byte_acc / n);
    push_item(&mut out, " KB/s=", kbps(st.byte_acc, dt));
    push_item(&mut out, " us{cap=", st.tick_cap / 25 / n);
    push_item(&mut out, " dec=", st.tick_dec / 25 / n);
    push_item(&mut out, " ive=", st.tick_ive / 25 / n);
    push_item(&mut out, " wyuv=", write_ticks / 25 / n);
    out
}

/// Microseconds that each of `n` frames spent in a decode step; its ticks are forgotten.
fn take_micros(t: &mut StepTrace, step: u32, n: u64) -> (r: u64)
    requires
        step < 17,
        n > 0,
    ensures
        r == micros_each(step_ticks(*old(t), step), n as int),
        final(t).ticks@ == old(t).ticks@.update(step as int, 0),
        final(t).last == old(t).last,
{
    let ticks: u32 = take_step_ticks(t, step);
    ticks as u64 / 25 / n
}

/// What a report says of the steps of a decode, whose ticks are forgotten.
fn steps_text(t: &mut StepTrace, n: u64) -> (out: Vec<u8>)
    requires
        n > 0,
    ensures
        out@ == report_steps(n as int, *old(t)),
        final(t).last == old(t).last,
        final(t).ticks@ == old(t).ticks@.update(INV_FRAME as int, 0).update(POLL as int, 0).update(
            INV_AFTER as int,
            0,
        ).update(COPY_STREAM as int, 0).update(CLEAN_STREAM as int, 0),
{
    let inv1: u64 = take_micros(t, INV_FRAME, n);
    let poll: u64 = take_micros(t, POLL, n);
    let inv2: u64 = take_micros(t, INV_AFTER, n);
    let copy: u64 = take_micros(t, COPY_STREAM, n);
    let clean: u64 = take_micros(t, CLEAN_STREAM, n);
    let mut out: Vec<u8> = first_item("} jpu{inv1=", inv1);
    push_item(&mut out, " poll=", poll);
    push_item(&mut out, " inv2=", inv2);
    push_item(&mut out, " cpy=", copy);
    push_item(&mut out, " cln=", clean);
    push_str(&mut out, "}");
    out
}

/// The end of a report.
fn tail_text(interrupts: u32, resets: u32) -> (out: Vec<u8>)
    ensures
        out@ == report_tail(interrupts, resets),
{
    let mut out: Vec<u8> = first_item(" usbisr=", interrupts as u64);
    push_item(&mut out, " jpu_err=", resets as u64);
    push_str(&mut out, "\n");
    out
}

/// Reports frame rate, load, times and errors since the last report, and restarts the counters.
/// The ticks of the decode steps and the count of interrupts are taken out; resets keep counting.
pub fn report_fps(
    st: &mut PipelineStats,
    frames: u32,
    now: u64,
    write_ticks: u64,
    trace: &mut StepTrace,
    irq: &mut UsbIrq,
    session: &JpuSession,
) -> (line: Vec<u8>)
    requires
        report_fits(*old(st)),
    ensures
        line@ == report_head(*old(st), frames, now) + report_load(
            *old(st),
            frames,
            now,
            write_ticks,
        ) + report_steps(share(*old(st), frames), *old(trace)) + report_tail(
            old(irq).count,
            session.resets,
        ),
        *final(st) == stats_restarted(frames, now),
        final(trace).last == old(trace).last,
        final(trace).ticks@ == old(trace).ticks@.update(INV_FRAME as int, 0).update(
            POLL as int,
            0,
        ).update(INV_AFTER as int, 0).update(COPY_STREAM as int, 0).update(CLEAN_STREAM as int, 0),
        *final(irq) == (UsbIrq { count: 0, ..*old(irq) }),
{
    let n: u64 = shared_among(st, frames);
    let mut line: Vec<u8> = head_text(st, frames, now);
    let mut load: Vec<u8> = load_text(st, frames, now, write_ticks);
    let mut steps: Vec<u8> = steps_text(trace, n);
    let mut tail: Vec<u8> = tail_text(take_usb_isr_count(irq), reset_count(session));
    line.append(&mut load);
    line.append(&mut steps);
    line.append(&mut tail);
    *st = PipelineStats {
        tick_cap: 0,
        tick_dec: 0,
        tick_ive: 0,
        byte_acc: 0,
        fps_mark_frame: frames,
        fps_mark_time: now,
    };
    line
}

/// Reports frame rate, resets and the last program counter that the heartbeat saw, and restarts
/// the counters. The count of resets is taken out.
pub fn report_fps_brief(
    st: &mut PipelineStats,
    frames: u32,
    now: u64,
    session: &mut JpuSession,
    last_pc: u32,
) -> (line: Vec<u8>)
    ensures
        line@ == report_head(*old(st), frames, now) + item(
            " jpu_err=",
            old(session).resets as nat,
        ) + bytes_of(" pc=") + wide_hex(last_pc as nat) + bytes_of("\n"),
        *final(st) == stats_restarted(frames, now),
        final(session).resets == 0,
        final(session).decoder == old(session).decoder,
        final(session).pool == old(session).pool,
{
    let mut line: Vec<u8> = head_text(st, frames, now);
    push_item(&mut line, " jpu_err=", take_reset_count(session) as u64);
    push_str(&mut line, " pc=");
    push_wide_hex(&mut line, last_pc as u64);
    push_str(&mut line, "\n");
    *st = PipelineStats {
        tick_cap: 0,
        tick_dec: 0,
        tick_ive: 0,
        byte_acc: 0,
        fps_mark_frame: frames,
        fps_mark_time: now,
    };
    line
}

// ---------------------------------------------------------------------------
// What a frame goes through
// ---------------------------------------------------------------------------
/// A captured frame is decoded, converted and reported, in this order and under one number: the
/// big core is told of the decoded bytes and of the size of the picture.
pub proof fn law_frame_goes_through_these(
    p: Pipeline,
    fmt: InputFmt,
    len: usize,
    bytes: u32,
    w: u32,
    h: u32,
    n: usize,
    a1: PipeAction,
    a2: PipeAction,
    a3: PipeAction,
)
    requires
        p.phase is Capturing,
        0 < len <= 389120,
        p.frames < u32::MAX,
        ({
            let e1 = PipeEvent::Captured { len, bytes, began: 0, ended: 0 };
            let e2 = PipeEvent::Decoded { result: Ok((w, h, n)), began: 0, ended: 0 };
            let e3 = PipeEvent::Converted { began: 0, ended: 0 };
            let q = pipe_after(p, e1);
            let r = pipe_after(q, e2);
            &&& action_follows(p, fmt, e1, a1)
            &&& action_follows(q, fmt, e2, a2)
            &&& action_follows(r, fmt, e3, a3)
        }),
    ensures
        a1 matches PipeAction::Decode { len: l } && l == len,
        a2 is Convert,
        a3 matches PipeAction::Notify { ops, report } && ops@ == notify_script(
            (p.frames + 1) as u32,
            (if n < 0x96000 {
                n as int
            } else {
                0x96000
            }) as u32,
            1u32 | 2u32 | 0x8000u32 | dims_word(w, h),
        ),
{
}

/// A frame that cannot be decoded is reported all the same, by its compressed bytes and as a
/// picture of 640 by 480 without the mark of a decoded one.
pub proof fn law_undecoded_frame_is_reported(
    p: Pipeline,
    fmt: InputFmt,
    e: &'static str,
    began: u64,
    ended: u64,
    a: PipeAction,
)
    requires
        p.phase is Decoding,
        action_follows(p, fmt, PipeEvent::Decoded { result: Err(e), began, ended }, a),
    ensures
        a matches PipeAction::Notify { ops, report } && ops@ == notify_script(
            p.frames,
            (p.phase->Decoding_len as int % 0x1_0000_0000) as u32,
            0x2801_E003,
        ),
{
    assert(1u32 | 2u32 | 0x2801_E000u32 == 0x2801_E003) by (bit_vector);
}

/// The shared frame is converted where it lies: brightness first, then each colour plane of half
/// its columns right behind; red, green and blue go one behind the other into their own buffer.
pub proof fn law_shared_frame_is_converted(fmt: u32, w: u32, h: u32)
    requires
        planes_fit(w, h),
    ensures
        ({
            let (y, r) = (YUV_BUF_PA, RGB_BUF_PA);
            shared_convert_script(fmt, w, h) == convert_setup_script(w, h) + input_script(
                fmt,
                y,
                (y + w * h) as usize,
                (y + w * h + (w / 2) * h) as usize,
                w,
                w / 2,
                w,
                h,
            ) + output_script(r, (r + w * h) as usize, (r + w * h + w * h) as usize, w, w, h)
        }),
{
}

/// A report is due as soon as a hundred frames have come since the last, also where the count
/// wraps around.
pub proof fn law_report_is_due_every_hundred_frames(p: Pipeline, since: int)
    requires
        0 <= since < 0x1_0000_0000,
        p.frames == (p.stats.fps_mark_frame + since) % 0x1_0000_0000,
    ensures
        report_due(p) <==> since >= 100,
        frames_since(p.stats, p.frames) == since,
{
}

/// Rates are counted by a clock of 25 ticks in a microsecond: `n` frames in `dt` ticks are as many
/// hundredths of frames in a second as fit, `ticks` for `n` frames are as many microseconds each.
pub proof fn law_rates(n: int, dt: int, ticks: int, frames: int)
    requires
        0 <= n,
        0 < dt,
        0 <= ticks,
        0 < frames,
    ensures
        fps_hundredths(n, dt) * dt <= 2_500_000_000 * n < (fps_hundredths(n, dt) + 1) * dt,
        micros_each(ticks, frames) * frames * 25 <= ticks < (micros_each(ticks, frames) + 1) * frames
            * 25,
{
    let a = n * TIMEBASE_HZ * 100;
    assert(a == 2_500_000_000 * n);
    vstd::arithmetic::div_mod::lemma_fundamental_div_mod(a, dt);
    vstd::arithmetic::div_mod::lemma_mod_bound(a, dt);
    let q = a / dt;
    assert(dt * q == q * dt && (q + 1) * dt == q * dt + dt) by (nonlinear_arith);
    let m = ticks / 25;
    vstd::arithmetic::div_mod::lemma_fundamental_div_mod(m, frames);
    vstd::arithmetic::div_mod::lemma_mod_bound(m, frames);
    let r = m / frames;
    assert(0 <= r) by {
        vstd::arithmetic::div_mod::lemma_div_pos_is_pos(m, frames);
    }
    assert(frames * r == r * frames && (r + 1) * frames == r * frames + frames)
        by (nonlinear_arith);
}

/// The time that a part of the work took is added to its own counter and to no other, and a
/// captured frame counts for the bytes that were received for it, but no fewer than it has.
pub proof fn law_time_is_counted_where_it_went(
    p: Pipeline,
    len: usize,
    bytes: u32,
    began: u64,
    ended: u64,
    result: Result<(u32, u32, usize), &'static str>,
)
    requires
        began <= ended,
        p.stats.tick_cap + (ended - began) <= u64::MAX,
        p.stats.tick_dec + (ended - began) <= u64::MAX,
        p.stats.tick_ive + (ended - began) <= u64::MAX,
        p.stats.byte_acc + len + bytes <= u64::MAX,
    ensures
        ({
            let st = p.stats;
            let cap = pipe_after(p, PipeEvent::Captured { len, bytes, began, ended }).stats;
            let dec = pipe_after(p, PipeEvent::Decoded { result, began, ended }).stats;
            let ive = pipe_after(p, PipeEvent::Converted { began, ended }).stats;
            &&& cap.tick_cap - st.tick_cap == ended - began
            &&& cap.byte_acc - st.byte_acc == (if bytes > len as int % 0x1_0000_0000 {
                bytes as int
            } else {
                len as int % 0x1_0000_0000
            })
            &&& cap == (PipelineStats { tick_cap: cap.tick_cap, byte_acc: cap.byte_acc, ..st })
            &&& dec.tick_dec - st.tick_dec == ended - began
            &&& dec == (PipelineStats { tick_dec: dec.tick_dec, ..st })
            &&& ive.tick_ive - st.tick_ive == ended - began
            &&& ive == (PipelineStats { tick_ive: ive.tick_ive, ..st })
        }),
{
}

/// A paused round spins, any other captures; a frame that cannot be looked at is reported at once,
/// and a failed capture begins the next round.
pub proof fn law_rounds(p: Pipeline, fmt: InputFmt, paused: bool, a: PipeAction, b: PipeAction)
    requires
        action_follows(p, fmt, PipeEvent::Round { paused }, a),
        action_follows(p, fmt, PipeEvent::CaptureFailed, b),
    ensures
        paused ==> a is Spin && pipe_after(p, PipeEvent::Round { paused }) == p,
        !paused ==> a is Capture && pipe_after(p, PipeEvent::Round { paused }).phase is Capturing,
        b is Again && pipe_after(p, PipeEvent::CaptureFailed).phase is Idle,
        pipe_after(p, PipeEvent::CaptureFailed).frames == p.frames,
{
}

/// A report gives the rate with two decimals, and behind it everything is counted anew.
pub proof fn law_reports(st: PipelineStats, frames: u32, now: u64, n: int, dt: int)
    requires
        n == frames_since(st, frames),
        dt == ticks_between(now, st.fps_mark_time),
        0 < n,
        0 < dt,
    ensures
        ({
            let fps = 2_500_000_000 * n / dt;
            report_head(st, frames, now) == bytes_of("[FPS] frames=") + dec_digits(frames as nat) + (
            bytes_of(" fps=") + dec_digits((fps / 100) as nat)) + bytes_of(".") + two_digits(
                (fps % 100) as nat,
            )
        }),
        share(st, frames) == n,
        stats_restarted(frames, now).fps_mark_frame == frames,
        stats_restarted(frames, now).fps_mark_time == now,
        stats_restarted(frames, now).tick_cap == 0 && stats_restarted(frames, now).tick_dec == 0,
        stats_restarted(frames, now).tick_ive == 0 && stats_restarted(frames, now).byte_acc == 0,
        kilobytes_per_second(1024 * dt, dt) == 25_000_000,
{
    assert(n * TIMEBASE_HZ * 100 == 2_500_000_000 * n);
    let b = 1024 * dt * TIMEBASE_HZ;
    assert(b == 25_600_000_000 * dt);
    assert(b / dt == 25_600_000_000) by {
        vstd::arithmetic::div_mod::lemma_div_by_multiple(25_600_000_000, dt);
    }
}

} // verus!
