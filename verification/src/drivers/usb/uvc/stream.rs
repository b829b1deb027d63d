//! Negotiating and starting a stream: probe, read back, commit, select the setting.

use crate::drivers::usb::dwc2::isoch::{law_packet_size_bits, mps_of, wmax_payload_per_uframe};
use crate::drivers::usb::setup::{hi8, lo8, ControlRequest, RequestView, StdRequest};
use crate::drivers::usb::uvc::descriptor::{
    law_best_fit, law_widest, reselected, to_uvc_ticks, uvc_ticks, SelectionView,
    UvcStreamSelection,
};
use crate::drivers::usb::uvc::setup::{uvc_packet, uvc_setup, UvcRequest};
use crate::error::{UsbError, UsbResult};
use vstd::prelude::*;

verus! {

pub const VS_PROBE_CONTROL: u8 = 0x01;

pub const VS_COMMIT_CONTROL: u8 = 0x02;

/// Length of the negotiation structure.
pub const UVC_PROBE_COMMIT_LEN: usize = 34;

/// Byte `k` of a word, counted from the lowest.
pub open spec fn byte_of(v: u32, k: int) -> u8 {
    (if k == 0 {
        v % 256
    } else if k == 1 {
        v / 256 % 256
    } else if k == 2 {
        v / 65536 % 256
    } else {
        v / 16777216
    }) as u8
}

/// The word at `off`, low byte first.
pub open spec fn word_at(b: Seq<u8>, off: int) -> u32 {
    (b[off] + 0x100 * b[off + 1] + 0x1_0000 * b[off + 2] + 0x100_0000 * b[off + 3]) as u32
}

/// `b` with word `v` at `off`.
pub open spec fn with_word(b: Seq<u8>, off: int, v: u32) -> Seq<u8> {
    b.update(off, byte_of(v, 0)).update(off + 1, byte_of(v, 1)).update(
        off + 2,
        byte_of(v, 2),
    ).update(off + 3, byte_of(v, 3))
}

/// A word that was written is read back.
pub proof fn law_word_round_trip(b: Seq<u8>, off: int, v: u32)
    requires
        0 <= off,
        off + 4 <= b.len(),
    ensures
        word_at(with_word(b, off, v), off) == v,
{
}

/// Writes a word.
fn put_word(b: &mut [u8; 34], off: usize, v: u32)
    requires
        off + 4 <= 34,
    ensures
        final(b)@ == with_word(old(b)@, off as int, v),
{
    b[off] = (v % 256) as u8;
    b[off + 1] = (v / 256 % 256) as u8;
    b[off + 2] = (v / 65536 % 256) as u8;
    b[off + 3] = (v / 16777216) as u8;
    assert(b@ =~= with_word(old(b)@, off as int, v));
}

/// Reads a word.
fn get_word(b: &[u8; 34], off: usize) -> (v: u32)
    requires
        off + 4 <= 34,
    ensures
        v == word_at(b@, off as int),
{
    b[off] as u32 + 0x100 * b[off + 1] as u32 + 0x1_0000 * b[off + 2] as u32 + 0x100_0000 * b[off
        + 3] as u32
}

/// The greater of two numbers.
pub open spec fn max_of(a: int, b: int) -> int {
    if a >= b {
        a
    } else {
        b
    }
}

/// Greatest size of a frame that is asked for: a byte for each pixel of an MJPEG frame, two of
/// any other, and no less than for 640 by 480; at most what a word can hold.
pub open spec fn frame_estimate(s: SelectionView) -> u32 {
    let pixels = max_of(s.frame_w as int, 640) * max_of(s.frame_h as int, 480);
    let bytes = if s.is_mjpeg {
        pixels
    } else {
        2 * pixels
    };
    if bytes <= u32::MAX {
        bytes as u32
    } else {
        u32::MAX
    }
}

/// What is proposed to the camera: the frame interval is fixed, the rest is up to it.
pub open spec fn proposal(s: SelectionView) -> Seq<u8> {
    let b = Seq::new(34, |i: int| 0u8).update(0, 1u8).update(2, s.format_index).update(
        3,
        s.frame_index,
    );
    with_word(
        with_word(with_word(b, 4, uvc_ticks(s.frame_interval)), 18, frame_estimate(s)),
        22,
        mps_of(s.mps_raw),
    )
}

/// Builds what is proposed to the camera.
pub fn build_probe_commit_payload(sel: &UvcStreamSelection) -> (r: [u8; 34])
    ensures
        r@ == proposal(sel@),
{
    let mut b: [u8; 34] = [0u8; 34];
    assert(b@ =~= Seq::new(34, |i: int| 0u8));
    b[0] = 0x01;
    b[2] = sel.format_index;
    b[3] = sel.frame_index;
    put_word(&mut b, 4, to_uvc_ticks(sel.frame_interval));
    let w: u32 = if sel.frame_w >= 640 {
        sel.frame_w as u32
    } else {
        640
    };
    let h: u32 = if sel.frame_h >= 480 {
        sel.frame_h as u32
    } else {
        480
    };
    proof {
        assert(0 <= w * h <= 65535 * 65535) by (nonlinear_arith)
            requires
                0 <= w <= 65535,
                0 <= h <= 65535,
        ;
    }
    let pixels: u32 = w * h;
    let est: u32 = if sel.is_mjpeg {
        pixels
    } else if pixels <= 0x7FFF_FFFF {
        2 * pixels
    } else {
        u32::MAX
    };
    put_word(&mut b, 18, est);
    put_word(&mut b, 22, wmax_payload_per_uframe(sel.mps_raw));
    b
}

/// What follows the answer of the camera: the payload it asks for decides the setting, and where
/// the setting carries less, the payload is cut down to it, in the selection and in what is
/// committed.
pub open spec fn negotiated(s: SelectionView, probe: Seq<u8>) -> (SelectionView, Seq<u8>) {
    let t = reselected(SelectionView { negotiated_payload_size: word_at(probe, 22), ..s });
    let carried = mps_of(t.mps_raw);
    if 0 < carried < t.negotiated_payload_size {
        (
            SelectionView { negotiated_payload_size: carried, ..t },
            with_word(probe, 22, carried),
        )
    } else {
        (t, probe)
    }
}

/// The payload that is committed is the one that the selection holds, and the setting carries it
/// where it carries anything; nothing else of the camera's answer is changed.
pub proof fn law_committed_payload(s: SelectionView, probe: Seq<u8>)
    requires
        probe.len() == 34,
    ensures
        ({
            let (t, commit) = negotiated(s, probe);
            &&& word_at(commit, 22) == t.negotiated_payload_size
            &&& 0 < mps_of(t.mps_raw) ==> t.negotiated_payload_size <= mps_of(t.mps_raw)
            &&& commit.len() == 34
            &&& forall|k: int|
                0 <= k < 34 && !(22 <= k < 26) ==> #[trigger] commit[k] == probe[k]
        }),
{
    let t = reselected(SelectionView { negotiated_payload_size: word_at(probe, 22), ..s });
    law_word_round_trip(probe, 22, mps_of(t.mps_raw));
}

/// How far the start of a stream is.
#[derive(Clone, Copy, Debug, PartialEq, Eq, Structural)]
pub enum StreamPhase {
    Quiet,
    Propose,
    Maximum,
    Answer,
    Commit,
    Select,
    Over,
}

/// The start of a stream.
pub struct StreamStart {
    sel: UvcStreamSelection,
    phase: StreamPhase,
}

/// Contents of a [`StreamStart`].
#[verifier::ext_equal]
pub struct StartView {
    pub sel: SelectionView,
    pub phase: StreamPhase,
}

impl View for StreamStart {
    type V = StartView;

    closed spec fn view(&self) -> StartView {
        StartView { sel: self.sel@, phase: self.phase }
    }
}

/// How a transfer went; the bytes where it was a read.
#[derive(Clone, Copy, Debug, PartialEq, Eq)]
pub enum StreamEvent {
    Done(UsbResult<()>),
    Read(UsbResult<[u8; 34]>),
}

/// What is asked for next.
#[derive(Debug)]
pub enum StreamAction {
    Request { request: ControlRequest },
    Finish { result: UsbResult<()> },
}

/// Contents of a [`StreamAction`].
#[verifier::ext_equal]
pub enum StreamActionView {
    Request { request: RequestView },
    Finish { result: UsbResult<()> },
}

impl View for StreamAction {
    type V = StreamActionView;

    open spec fn view(&self) -> StreamActionView {
        match *self {
            StreamAction::Request { request } => StreamActionView::Request { request: request@ },
            StreamAction::Finish { result } => StreamActionView::Finish { result },
        }
    }
}

/// Selecting an alternate setting.
pub open spec fn select_action(interface: u8, alt: u8) -> StreamActionView {
    StreamActionView::Request {
        request: RequestView::NoData { setup: seq![1u8, 0x0B, alt, 0, interface, 0, 0, 0] },
    }
}

/// Writing a negotiation structure.
pub open spec fn write_action(interface: u8, selector: u8, data: Seq<u8>) -> StreamActionView {
    StreamActionView::Request {
        request: RequestView::Out {
            setup: uvc_packet(
                UvcRequest::SetCurStreaming { interface, selector, w_length: 34 },
            ),
            data,
        },
    }
}

/// Reading the greatest negotiation structure.
pub open spec fn read_max_action(interface: u8) -> StreamActionView {
    StreamActionView::Request {
        request: RequestView::In {
            setup: uvc_packet(
                UvcRequest::GetMaxStreaming { interface, selector: VS_PROBE_CONTROL, w_length: 34 },
            ),
            len: 34,
        },
    }
}

/// Reading the camera's answer.
pub open spec fn read_cur_action(interface: u8) -> StreamActionView {
    StreamActionView::Request {
        request: RequestView::In {
            setup: uvc_packet(
                UvcRequest::GetCurStreaming { interface, selector: VS_PROBE_CONTROL, w_length: 34 },
            ),
            len: 34,
        },
    }
}

/// The end of the start.
pub open spec fn start_over(v: StartView, result: UsbResult<()>) -> (StartView, StreamActionView) {
    (StartView { phase: StreamPhase::Over, ..v }, StreamActionView::Finish { result })
}

/// Whether an event is an answer to what was asked for.
pub open spec fn start_expects(phase: StreamPhase, ev: StreamEvent) -> bool {
    match phase {
        StreamPhase::Quiet | StreamPhase::Propose | StreamPhase::Commit | StreamPhase::Select =>
            ev is Done,
        StreamPhase::Maximum | StreamPhase::Answer => ev is Read,
        StreamPhase::Over => false,
    }
}

/// What follows an event. Silencing the stream and reading the maximum may fail; every other
/// failure ends the start.
pub open spec fn start_next(v: StartView, ev: StreamEvent) -> (StartView, StreamActionView) {
    let interface = v.sel.vs_interface;
    match (v.phase, ev) {
        (StreamPhase::Quiet, StreamEvent::Done(_)) => (
            StartView { phase: StreamPhase::Propose, ..v },
            write_action(interface, VS_PROBE_CONTROL, proposal(v.sel)),
        ),
        (StreamPhase::Propose, StreamEvent::Done(r)) => match r {
            Err(e) => start_over(v, Err(e)),
            Ok(_) => (
                StartView { phase: StreamPhase::Maximum, ..v },
                read_max_action(interface),
            ),
        },
        (StreamPhase::Maximum, StreamEvent::Read(_)) => (
            StartView { phase: StreamPhase::Answer, ..v },
            read_cur_action(interface),
        ),
        (StreamPhase::Answer, StreamEvent::Read(r)) => match r {
            Err(e) => start_over(v, Err(e)),
            Ok(probe) => {
                let (sel, commit) = negotiated(v.sel, probe@);
                (
                    StartView { sel, phase: StreamPhase::Commit },
                    write_action(interface, VS_COMMIT_CONTROL, commit),
                )
            },
        },
        (StreamPhase::Commit, StreamEvent::Done(r)) => match r {
            Err(e) => start_over(v, Err(e)),
            Ok(_) => (
                StartView { phase: StreamPhase::Select, ..v },
                select_action(interface, v.sel.alt_setting),
            ),
        },
        (StreamPhase::Select, StreamEvent::Done(r)) => start_over(v, r),
        _ => start_over(v, Ok(())),
    }
}

impl StreamStart {
    /// Whether the selection is in order.
    pub closed spec fn wf(&self) -> bool {
        self.sel.wf()
    }

    /// A start that has just begun.
    pub open spec fn begun(sel: SelectionView) -> StartView {
        StartView { sel, phase: StreamPhase::Quiet }
    }

    /// What is asked for first: the setting without bandwidth.
    pub open spec fn first_action(sel: SelectionView) -> StreamActionView {
        select_action(sel.vs_interface, 0)
    }

    /// Begins to start the stream of a selection.
    pub fn new(sel: UvcStreamSelection) -> (r: (StreamStart, StreamAction))
        requires
            sel.wf(),
        ensures
            r.0.wf(),
            r.0@ == StreamStart::begun(sel@),
            r.1@ == StreamStart::first_action(sel@),
    {
        let request = ControlRequest::no_data(StdRequest::set_interface(0, sel.vs_interface));
        (StreamStart { sel, phase: StreamPhase::Quiet }, StreamAction::Request { request })
    }

    /// The selection, with the negotiated payload once the camera has answered.
    pub fn selection(&self) -> (r: UvcStreamSelection)
        requires
            self.wf(),
        ensures
            r.wf(),
            r@ == self@.sel,
    {
        self.sel
    }

    fn finish(&mut self, result: UsbResult<()>) -> (a: StreamAction)
        requires
            old(self).wf(),
        ensures
            final(self).wf(),
            (final(self)@, a@) == start_over(old(self)@, result),
    {
        self.phase = StreamPhase::Over;
        StreamAction::Finish { result }
    }

    fn negotiate(&mut self, probe: [u8; 34]) -> (commit: Vec<u8>)
        requires
            old(self).wf(),
        ensures
            final(self).wf(),
            final(self)@.phase == old(self)@.phase,
            (final(self)@.sel, commit@) == negotiated(old(self)@.sel, probe@),
    {
        let mut p: [u8; 34] = probe;
        self.sel.negotiated_payload_size = get_word(&p, 22);
        self.sel.reselect_isoch_alt_for_payload();
        let carried: u32 = wmax_payload_per_uframe(self.sel.mps_raw);
        if carried > 0 && carried < self.sel.negotiated_payload_size {
            self.sel.negotiated_payload_size = carried;
            put_word(&mut p, 22, carried);
        }
        vec_of(&p)
    }
}

/// Takes the answer to what was asked for, and asks for the next transfer.
pub fn uvc_start_video_stream(s: &mut StreamStart, ev: StreamEvent) -> (a: StreamAction)
    requires
        old(s).wf(),
        start_expects(old(s)@.phase, ev),
    ensures
        final(s).wf(),
        (final(s)@, a@) == start_next(old(s)@, ev),
{
    let interface: u8 = s.sel.vs_interface;
    match (s.phase, ev) {
        (StreamPhase::Quiet, StreamEvent::Done(_)) => {
            let payload = build_probe_commit_payload(&s.sel);
            s.phase = StreamPhase::Propose;
            StreamAction::Request {
                request: ControlRequest::data_out(
                    uvc_setup(
                        UvcRequest::SetCurStreaming {
                            interface,
                            selector: VS_PROBE_CONTROL,
                            w_length: 34,
                        },
                    ),
                    vec_of(&payload),
                ),
            }
        },
        (StreamPhase::Propose, StreamEvent::Done(r)) => match r {
            Err(e) => s.finish(Err(e)),
            Ok(_) => {
                s.phase = StreamPhase::Maximum;
                StreamAction::Request {
                    request: ControlRequest::data_in(
                        uvc_setup(
                            UvcRequest::GetMaxStreaming {
                                interface,
                                selector: VS_PROBE_CONTROL,
                                w_length: 34,
                            },
                        ),
                        UVC_PROBE_COMMIT_LEN,
                    ),
                }
            },
        },
        (StreamPhase::Maximum, StreamEvent::Read(_)) => {
            s.phase = StreamPhase::Answer;
            StreamAction::Request {
                request: ControlRequest::data_in(
                    uvc_setup(
                        UvcRequest::GetCurStreaming {
                            interface,
                            selector: VS_PROBE_CONTROL,
                            w_length: 34,
                        },
                    ),
                    UVC_PROBE_COMMIT_LEN,
                ),
            }
        },
        (StreamPhase::Answer, StreamEvent::Read(r)) => match r {
            Err(e) => s.finish(Err(e)),
            Ok(probe) => {
                let commit: Vec<u8> = s.negotiate(probe);
                s.phase = StreamPhase::Commit;
                StreamAction::Request {
                    request: ControlRequest::data_out(
                        uvc_setup(
                            UvcRequest::SetCurStreaming {
                                interface,
                                selector: VS_COMMIT_CONTROL,
                                w_length: 34,
                            },
                        ),
                        commit,
                    ),
                }
            },
        },
        (StreamPhase::Commit, StreamEvent::Done(r)) => match r {
            Err(e) => s.finish(Err(e)),
            Ok(_) => {
                s.phase = StreamPhase::Select;
                StreamAction::Request {
                    request: ControlRequest::no_data(
                        StdRequest::set_interface(s.sel.alt_setting, interface),
                    ),
                }
            },
        },
        (StreamPhase::Select, StreamEvent::Done(r)) => s.finish(r),
        _ => s.finish(Ok(())),
    }
}

/// The bytes of a negotiation structure.
fn vec_of(b: &[u8; 34]) -> (v: Vec<u8>)
    ensures
        v@ == b@,
{
    let mut v: Vec<u8> = Vec::new();
    let mut i: usize = 0;
    while i < UVC_PROBE_COMMIT_LEN
        invariant
            i <= 34,
            v@ == b@.take(i as int),
        decreases 34 - i,
    {
        v.push(b[i]);
        i = i + 1;
        assert(v@ =~= b@.take(i as int));
    }
    assert(b@.take(34) =~= b@);
    v
}

// ---------------------------------------------------------------------------
// What the camera sees of a start
// ---------------------------------------------------------------------------
/// The bytes of a word, low byte first, where it was written and nowhere else.
proof fn lemma_word_bytes(b: Seq<u8>, off: int, v: u32)
    requires
        0 <= off,
        off + 4 <= b.len(),
    ensures
        ({
            let w = with_word(b, off, v);
            &&& w.len() == b.len()
            &&& w[off] + 0x100 * w[off + 1] + 0x1_0000 * w[off + 2] + 0x100_0000 * w[off + 3] == v
            &&& forall|k: int| 0 <= k < b.len() && !(off <= k < off + 4) ==> #[trigger] w[k] == b[k]
        }),
{
    assert(v == v % 256 + 0x100 * (v / 256 % 256) + 0x1_0000 * (v / 65536 % 256) + 0x100_0000 * (v
        / 16777216));
}

/// What is proposed: the frame interval alone is fixed. Format and frame are in bytes 2 and 3, the
/// interval in ticks of 100 ns in 4 to 7, the greatest frame in 18 to 21 and the payload of a
/// microframe in 22 to 25, each low byte first; every other byte is 0.
pub proof fn law_proposal(s: SelectionView, k: int)
    requires
        0 <= k < 34,
        0 <= s.frame_interval < 0x1_0000_0000 * 100,
    ensures
        ({
            let p = proposal(s);
            let ticks = p[4] + 0x100 * p[5] + 0x1_0000 * p[6] + 0x100_0000 * p[7];
            &&& p.len() == 34
            &&& p[0] == 1 && p[2] == s.format_index && p[3] == s.frame_index
            &&& 100 * ticks <= s.frame_interval < 100 * ticks + 100
            &&& p[18] + 0x100 * p[19] + 0x1_0000 * p[20] + 0x100_0000 * p[21] == frame_estimate(s)
            &&& p[22] + 0x100 * p[23] + 0x1_0000 * p[24] + 0x100_0000 * p[25] == s.mps_raw % 2048
            &&& k == 1 || 8 <= k < 18 || 26 <= k ==> p[k] == 0
        }),
{
    let b = Seq::new(34, |i: int| 0u8).update(0, 1u8).update(2, s.format_index).update(
        3,
        s.frame_index,
    );
    let t = uvc_ticks(s.frame_interval);
    let c = with_word(b, 4, t);
    let d = with_word(c, 18, frame_estimate(s));
    lemma_word_bytes(b, 4, t);
    lemma_word_bytes(c, 18, frame_estimate(s));
    lemma_word_bytes(d, 22, mps_of(s.mps_raw));
    let p = proposal(s);
    assert(p == with_word(d, 22, mps_of(s.mps_raw)));
    assert(p[18] == d[18] && p[19] == d[19] && p[20] == d[20] && p[21] == d[21]);
    assert(p[4] == d[4] && p[5] == d[5] && p[6] == d[6] && p[7] == d[7]);
    assert(d[4] == c[4] && d[5] == c[5] && d[6] == c[6] && d[7] == c[7]);
    assert(t == s.frame_interval / 100);
    assert(p[0] == d[0] && d[0] == c[0] && c[0] == b[0]);
    assert(p[2] == d[2] && d[2] == c[2] && c[2] == b[2]);
    assert(p[3] == d[3] && d[3] == c[3] && c[3] == b[3]);
    if k == 1 || 8 <= k < 18 || 26 <= k {
        assert(p[k] == d[k] && d[k] == c[k] && c[k] == b[k]);
    }
}

/// Room is asked for a byte for each pixel of an MJPEG frame and two of another; a small frame
/// counts as one of 640 by 480.
pub proof fn law_frame_estimate(s: SelectionView)
    ensures
        s.frame_w >= 640 && s.frame_h >= 480 && s.is_mjpeg ==> frame_estimate(s) == s.frame_w
            * s.frame_h,
        s.frame_w >= 640 && s.frame_h >= 480 && !s.is_mjpeg && 2 * (s.frame_w * s.frame_h)
            <= u32::MAX ==> frame_estimate(s) == 2 * (s.frame_w * s.frame_h),
        s.frame_w <= 640 && s.frame_h <= 480 ==> frame_estimate(s) == (if s.is_mjpeg {
            307200
        } else {
            614400u32
        }),
        frame_estimate(s) >= 307200,
{
    let (w, h) = (max_of(s.frame_w as int, 640), max_of(s.frame_h as int, 480));
    assert(307200 <= w * h <= 65535 * 65535) by (nonlinear_arith)
        requires
            640 <= w <= 65535,
            480 <= h <= 65535,
    ;
    if s.frame_w <= 640 && s.frame_h <= 480 {
        assert(w == 640 && h == 480 && 640 * 480 == 307200);
    }
}

/// The setting for a negotiated payload: where a setting with one transaction carries it, the
/// smallest of them; else the greatest with one transaction. Nothing else is changed.
pub proof fn law_setting_for_the_payload(s: SelectionView, k: int)
    requires
        s.negotiated_payload_size > 0,
        0 <= k < s.alts.len(),
        s.alts[k].1 & 0x1800 == 0,
    ensures
        ({
            let t = reselected(s);
            let (need, size) = (s.negotiated_payload_size, s.alts[k].1 % 2048);
            &&& s.alts.contains((t.alt_setting, t.mps_raw))
            &&& t.mps_raw & 0x1800 == 0
            &&& size >= need ==> need <= t.mps_raw % 2048 <= size
            &&& t.mps_raw % 2048 < need ==> t.mps_raw % 2048 >= size
            &&& t == (SelectionView { alt_setting: t.alt_setting, mps_raw: t.mps_raw, ..s })
        }),
{
    let need = s.negotiated_payload_size;
    law_best_fit(s.alts, need);
    law_widest(s.alts);
    law_packet_size_bits(s.alts[k].1);
    law_packet_size_bits(reselected(s).mps_raw);
}

/// The start of a stream whose transfers all succeed asks for these in turn: the setting without
/// bandwidth, the proposal, the camera's maximum and its answer, then commits the answer with the
/// payload that the setting carries, and selects that setting.
pub proof fn law_start_asks_in_turn(sel: SelectionView, maximum: [u8; 34], answer: [u8; 34])
    ensures
        ({
            let i = sel.vs_interface;
            let (v1, a1) = start_next(StreamStart::begun(sel), StreamEvent::Done(Ok(())));
            let (v2, a2) = start_next(v1, StreamEvent::Done(Ok(())));
            let (v3, a3) = start_next(v2, StreamEvent::Read(Ok(maximum)));
            let (v4, a4) = start_next(v3, StreamEvent::Read(Ok(answer)));
            let (v5, a5) = start_next(v4, StreamEvent::Done(Ok(())));
            let (v6, a6) = start_next(v5, StreamEvent::Done(Ok(())));
            let (t, commit) = negotiated(sel, answer@);
            &&& StreamStart::first_action(sel) == (StreamActionView::Request {
                request: RequestView::NoData { setup: seq![1u8, 11, 0, 0, i, 0, 0, 0] },
            })
            &&& a1 == (StreamActionView::Request {
                request: RequestView::Out {
                    setup: seq![0x21u8, 0x01, 0, 1, i, 0, 34, 0],
                    data: proposal(sel),
                },
            })
            &&& a2 == (StreamActionView::Request {
                request: RequestView::In { setup: seq![0xA1u8, 0x83, 0, 1, i, 0, 34, 0], len: 34 },
            })
            &&& a3 == (StreamActionView::Request {
                request: RequestView::In { setup: seq![0xA1u8, 0x81, 0, 1, i, 0, 34, 0], len: 34 },
            })
            &&& a4 == (StreamActionView::Request {
                request: RequestView::Out {
                    setup: seq![0x21u8, 0x01, 0, 2, i, 0, 34, 0],
                    data: commit,
                },
            })
            &&& a5 == (StreamActionView::Request {
                request: RequestView::NoData {
                    setup: seq![1u8, 11, t.alt_setting, 0, i, 0, 0, 0],
                },
            })
            &&& a6 == (StreamActionView::Finish { result: Ok(()) })
            &&& v6.sel == t
        }),
{
    assert(lo8(34) == 34 && hi8(34) == 0);
    let t = reselected(
        SelectionView { negotiated_payload_size: word_at(answer@, 22), ..sel },
    );
    assert(t.vs_interface == sel.vs_interface);
}

/// The payload that the camera asks for is in bytes 22 to 25 of its answer, low byte first, and
/// it is what the setting is chosen for.
pub proof fn law_payload_is_the_cameras(s: SelectionView, probe: Seq<u8>)
    requires
        probe.len() == 34,
    ensures
        ({
            let (t, commit) = negotiated(s, probe);
            let asked = probe[22] + 0x100 * probe[23] + 0x1_0000 * probe[24] + 0x100_0000
                * probe[25];
            let chosen = reselected(SelectionView { negotiated_payload_size: asked as u32, ..s });
            &&& t.mps_raw == chosen.mps_raw && t.alt_setting == chosen.alt_setting
            &&& t.negotiated_payload_size == (if 0 < chosen.mps_raw % 2048 < asked {
                (chosen.mps_raw % 2048) as int
            } else {
                asked
            })
        }),
{
}

/// A failure to propose, to read the answer, to commit or to select ends the start with its
/// error; one to silence the stream or to read the maximum does not.
pub proof fn law_start_failures(v: StartView, e: UsbError)
    ensures
        v.phase == StreamPhase::Quiet ==> start_next(v, StreamEvent::Done(Err(e))) == start_next(
            v,
            StreamEvent::Done(Ok(())),
        ),
        v.phase == StreamPhase::Maximum ==> start_next(v, StreamEvent::Read(Err(e))).1 is Request,
        v.phase == StreamPhase::Propose || v.phase == StreamPhase::Commit || v.phase
            == StreamPhase::Select ==> start_next(v, StreamEvent::Done(Err(e))).1 == (
        StreamActionView::Finish { result: Err(e) }),
        v.phase == StreamPhase::Answer ==> start_next(v, StreamEvent::Read(Err(e))).1 == (
        StreamActionView::Finish { result: Err(e) }),
{
}

/// Of settings with packets of the same size the one that was listed first is taken: another one
/// behind them changes nothing.
pub proof fn law_earlier_setting_is_kept(s: SelectionView, e: (u8, u16), k: int)
    requires
        s.negotiated_payload_size > 0,
        0 <= k < s.alts.len(),
        s.alts[k].1 & 0x1800 == 0,
        e.1 % 2048 == reselected(s).mps_raw % 2048,
    ensures
        ({
            let t = reselected(SelectionView { alts: s.alts.push(e), ..s });
            t.alt_setting == reselected(s).alt_setting && t.mps_raw == reselected(s).mps_raw
        }),
{
    law_best_fit(s.alts, s.negotiated_payload_size);
    law_widest(s.alts);
    law_packet_size_bits(s.alts[k].1);
    law_packet_size_bits(e.1);
    law_packet_size_bits(reselected(s).mps_raw);
    assert(s.alts.push(e).drop_last() =~= s.alts);
    assert(s.alts.push(e).last() == e);
}

} // verus!
