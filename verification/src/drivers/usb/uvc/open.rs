//! Opening a camera, from its configuration descriptor to a running stream.
//!
//! The configuration is read and searched, the controls are put in order, the stream is started,
//! and the first frame is dropped. Only reading, searching and starting can fail.

use crate::drivers::usb::device::UsbDevice;
use crate::drivers::usb::dwc2::control::{
    body_request, configuration_bytes, law_configuration_is_asked_for_whole,
    CONFIGURATION_HEAD_LEN,
};
use crate::drivers::usb::setup::{ControlData, ControlRequest, RequestView};
use crate::drivers::usb::uvc::control::{control_plan, CtrlTask};
use crate::drivers::usb::uvc::descriptor::{
    SelectionView, StreamOutcome, UvcPrefs, UvcStreamSelection,
};
use crate::drivers::usb::uvc::session::{
    camera_stream, camera_with, try_open, CameraView, UvcCamera, CAMERA_CONFIGURATION,
};
use crate::drivers::usb::uvc::stream::{StartView, StreamAction, StreamActionView, StreamStart};
use crate::error::{UsbError, UsbResult};
use vstd::prelude::*;

verus! {

/// How far the opening is.
#[derive(Clone, Copy, Debug)]
pub enum OpenPhase {
    /// The head of the configuration is read.
    Head,
    /// All `len` bytes of the configuration are read.
    Body { len: usize },
    /// The controls are put in order.
    Controls { camera: UvcCamera },
    /// The stream is started.
    Start { camera: UvcCamera },
    /// The first frame is captured.
    WarmUp { camera: UvcCamera },
    /// The opening is over.
    Over,
}

/// Contents of an [`OpenPhase`].
#[verifier::ext_equal]
pub enum OpenPhaseView {
    Head,
    Body { len: int },
    Controls { camera: CameraView },
    Start { camera: CameraView },
    WarmUp { camera: CameraView },
    Over,
}

impl View for OpenPhase {
    type V = OpenPhaseView;

    open spec fn view(&self) -> OpenPhaseView {
        match *self {
            OpenPhase::Head => OpenPhaseView::Head,
            OpenPhase::Body { len } => OpenPhaseView::Body { len: len as int },
            OpenPhase::Controls { camera } => OpenPhaseView::Controls { camera: camera@ },
            OpenPhase::Start { camera } => OpenPhaseView::Start { camera: camera@ },
            OpenPhase::WarmUp { camera } => OpenPhaseView::WarmUp { camera: camera@ },
            OpenPhase::Over => OpenPhaseView::Over,
        }
    }
}

/// A camera that is being opened.
pub struct OpenCamera {
    pub dev: UsbDevice,
    pub prefs: UvcPrefs,
    pub phase: OpenPhase,
}

/// Contents of an [`OpenCamera`].
#[verifier::ext_equal]
pub struct OpenView {
    pub dev: UsbDevice,
    pub prefs: UvcPrefs,
    pub phase: OpenPhaseView,
}

impl View for OpenCamera {
    type V = OpenView;

    open spec fn view(&self) -> OpenView {
        OpenView { dev: self.dev, prefs: self.prefs, phase: self.phase@ }
    }
}

/// How what was asked for went.
pub enum OpenEvent {
    /// The bytes that were read.
    Read { result: UsbResult<Vec<u8>> },
    /// The controls were gone through.
    Controls { result: UsbResult<()> },
    /// The start of the stream is over, with this selection.
    Started { sel: UvcStreamSelection, result: UsbResult<()> },
    /// The capture is over, with the length of the frame.
    Captured { result: UsbResult<usize> },
}

/// What is asked for next.
pub enum OpenAction {
    /// Read from the camera.
    Read { request: ControlRequest },
    /// Carry these tasks out.
    SetControls { camera: UvcCamera, tasks: Vec<CtrlTask> },
    /// Start the stream.
    StartStream { camera: UvcCamera, start: StreamStart, first: StreamAction },
    /// Capture a frame and drop it.
    Capture { camera: UvcCamera },
    /// The opening is over.
    Finish { result: UsbResult<UvcCamera> },
}

/// Contents of an [`OpenAction`].
#[verifier::ext_equal]
pub enum OpenActionView {
    Read { request: RequestView },
    SetControls { camera: CameraView, tasks: Seq<CtrlTask> },
    StartStream { camera: CameraView, start: StartView, first: StreamActionView },
    Capture { camera: CameraView },
    Finish { result: UsbResult<CameraView> },
}

impl View for OpenAction {
    type V = OpenActionView;

    open spec fn view(&self) -> OpenActionView {
        match *self {
            OpenAction::Read { request } => OpenActionView::Read { request: request@ },
            OpenAction::SetControls { camera, tasks } => OpenActionView::SetControls {
                camera: camera@,
                tasks: tasks@,
            },
            OpenAction::StartStream { camera, start, first } => OpenActionView::StartStream {
                camera: camera@,
                start: start@,
                first: first@,
            },
            OpenAction::Capture { camera } => OpenActionView::Capture { camera: camera@ },
            OpenAction::Finish { result } => OpenActionView::Finish {
                result: match result {
                    Ok(c) => Ok(c@),
                    Err(e) => Err(e),
                },
            },
        }
    }
}

/// The opening ends.
pub open spec fn open_over(v: OpenView, result: UsbResult<CameraView>) -> (OpenView, OpenActionView) {
    (OpenView { phase: OpenPhaseView::Over, ..v }, OpenActionView::Finish { result })
}

/// An opening that has just begun.
pub open spec fn open_start(dev: UsbDevice, prefs: UvcPrefs) -> OpenView {
    OpenView { dev, prefs, phase: OpenPhaseView::Head }
}

/// What is asked for first: the head of the configuration.
pub open spec fn open_first() -> OpenActionView {
    OpenActionView::Read {
        request: RequestView::In {
            setup: seq![0x80u8, 6, CAMERA_CONFIGURATION, 2, 0, 0, 9, 0],
            len: 9,
        },
    }
}

/// What follows the head of the configuration.
pub open spec fn head_read(v: OpenView, head: Seq<u8>) -> (OpenView, OpenActionView) {
    match body_request(CAMERA_CONFIGURATION, head) {
        Ok(request) => (
            OpenView { phase: OpenPhaseView::Body { len: request->In_len }, ..v },
            OpenActionView::Read { request },
        ),
        Err(e) => open_over(v, Err(e)),
    }
}

/// What follows the configuration: the controls of the camera, where it has a stream.
pub open spec fn body_read(v: OpenView, body: Seq<u8>) -> (OpenView, OpenActionView) {
    let b = configuration_bytes(body);
    match camera_stream(b, v.prefs) {
        StreamOutcome::Selected(sel) => {
            let camera = camera_with(v.dev, sel, b);
            (
                OpenView { phase: OpenPhaseView::Controls { camera }, ..v },
                OpenActionView::SetControls { camera, tasks: control_plan(camera.entities) },
            )
        },
        StreamOutcome::Fail(e) => open_over(v, Err(e)),
        StreamOutcome::BadRange => open_over(v, Err(UsbError::NotImplemented)),
    }
}

/// What follows an event: the reads and the start end the opening where they fail; the controls
/// and the first frame do not matter.
pub open spec fn open_next(v: OpenView, ev: OpenEvent) -> (OpenView, OpenActionView) {
    match (v.phase, ev) {
        (OpenPhaseView::Head, OpenEvent::Read { result }) => match result {
            Ok(b) => head_read(v, b@),
            Err(e) => open_over(v, Err(e)),
        },
        (OpenPhaseView::Body { len }, OpenEvent::Read { result }) => match result {
            Ok(b) => body_read(v, b@),
            Err(e) => open_over(v, Err(e)),
        },
        (OpenPhaseView::Controls { camera }, OpenEvent::Controls { result }) => (
            OpenView { phase: OpenPhaseView::Start { camera }, ..v },
            OpenActionView::StartStream {
                camera,
                start: StreamStart::begun(camera.sel),
                first: StreamStart::first_action(camera.sel),
            },
        ),
        (OpenPhaseView::Start { camera }, OpenEvent::Started { sel, result }) => match result {
            Ok(_) => {
                let running = CameraView { sel: sel@, ..camera };
                (
                    OpenView { phase: OpenPhaseView::WarmUp { camera: running }, ..v },
                    OpenActionView::Capture { camera: running },
                )
            },
            Err(e) => open_over(v, Err(e)),
        },
        (OpenPhaseView::WarmUp { camera }, OpenEvent::Captured { result }) => open_over(
            v,
            Ok(camera),
        ),
        _ => open_over(v, Err(UsbError::NotImplemented)),
    }
}

/// Whether an event answers what was asked for: reads bring as many bytes as were wanted, and no
/// frame descriptor among them offers a range that is upside down.
pub open spec fn open_event_fits(o: OpenCamera, ev: OpenEvent) -> bool {
    o.wf() && match (o.phase, ev) {
        (OpenPhase::Head, OpenEvent::Read { result }) => {
            result matches Ok(b) ==> b@.len() == CONFIGURATION_HEAD_LEN
        },
        (OpenPhase::Body { len }, OpenEvent::Read { result }) => {
            result matches Ok(b) ==> b@.len() == len && !(camera_stream(
                configuration_bytes(b@),
                o.prefs,
            ) is BadRange)
        },
        (OpenPhase::Controls { camera }, OpenEvent::Controls { result }) => true,
        (OpenPhase::Start { camera }, OpenEvent::Started { sel, result }) => sel.wf(),
        (OpenPhase::WarmUp { camera }, OpenEvent::Captured { result }) => true,
        _ => false,
    }
}

impl OpenCamera {
    /// Whether the opening is in order.
    pub open spec fn wf(&self) -> bool {
        match self.phase {
            OpenPhase::Body { len } => len <= 4096,
            OpenPhase::Controls { camera } => camera.sel.wf(),
            OpenPhase::Start { camera } => camera.sel.wf(),
            OpenPhase::WarmUp { camera } => camera.sel.wf(),
            _ => true,
        }
    }

    /// Begins to open a camera.
    pub fn new(dev: UsbDevice, prefs: UvcPrefs) -> (r: (OpenCamera, OpenAction))
        ensures
            r.0.wf(),
            r.0@ == open_start(dev, prefs),
            r.1@ == open_first(),
    {
        let request = dev.control_ep.get_configuration_descriptor(CAMERA_CONFIGURATION);
        (OpenCamera { dev, prefs, phase: OpenPhase::Head }, OpenAction::Read { request })
    }

    /// Whether an event answers what was asked for.
    pub fn accepts(&self, ev: &OpenEvent) -> (r: bool)
        requires
            self.wf(),
        ensures
            r == open_event_fits(*self, *ev),
    {
        match (&self.phase, ev) {
            (OpenPhase::Head, OpenEvent::Read { result }) => match result {
                Ok(b) => b.len() == CONFIGURATION_HEAD_LEN,
                Err(_) => true,
            },
            (OpenPhase::Body { len }, OpenEvent::Read { result }) => match result {
                Ok(b) => b.len() == *len && try_open(
                    self.dev,
                    &self.prefs,
                    &self.dev.control_ep.configuration_buffer(b.as_slice()),
                ).is_some(),
                Err(_) => true,
            },
            (OpenPhase::Controls { camera }, OpenEvent::Controls { result }) => true,
            (OpenPhase::Start { camera }, OpenEvent::Started { sel, result }) => {
                sel.isoch_alts_count <= 8
            },
            (OpenPhase::WarmUp { camera }, OpenEvent::Captured { result }) => true,
            _ => false,
        }
    }

    /// Ends the opening.
    fn finish(&mut self, result: UsbResult<UvcCamera>) -> (a: OpenAction)
        ensures
            final(self).wf(),
            (final(self)@, a@) == open_over(
                old(self)@,
                match result {
                    Ok(c) => Ok(c@),
                    Err(e) => Err(e),
                },
            ),
    {
        self.phase = OpenPhase::Over;
        OpenAction::Finish { result }
    }

    /// Goes on behind the head of the configuration.
    fn take_head(&mut self, b: &Vec<u8>) -> (a: OpenAction)
        requires
            b@.len() == CONFIGURATION_HEAD_LEN,
        ensures
            final(self).wf(),
            (final(self)@, a@) == head_read(old(self)@, b@),
    {
        let head: [u8; 9] = [b[0], b[1], b[2], b[3], b[4], b[5], b[6], b[7], b[8]];
        assert(head@ =~= b@);
        match self.dev.control_ep.get_configuration_body(CAMERA_CONFIGURATION, &head) {
            Err(e) => self.finish(Err(e)),
            Ok(request) => {
                let len: usize = match &request.data {
                    ControlData::In { len } => *len,
                    _ => 0,
                };
                self.phase = OpenPhase::Body { len };
                OpenAction::Read { request }
            },
        }
    }

    /// Goes on behind the configuration.
    fn take_body(&mut self, b: &Vec<u8>) -> (a: OpenAction)
        requires
            b@.len() <= 4096,
            !(camera_stream(configuration_bytes(b@), old(self).prefs) is BadRange),
        ensures
            final(self).wf(),
            (final(self)@, a@) == body_read(old(self)@, b@),
    {
        let cfg: [u8; 4096] = self.dev.control_ep.configuration_buffer(b.as_slice());
        match try_open(self.dev, &self.prefs, &cfg) {
            Some(Ok(camera)) => {
                let tasks: Vec<CtrlTask> = camera.init_controls();
                self.phase = OpenPhase::Controls { camera };
                OpenAction::SetControls { camera, tasks }
            },
            Some(Err(e)) => self.finish(Err(e)),
            None => self.finish(Err(UsbError::NotImplemented)),
        }
    }

    /// Goes on with how what was asked for went.
    pub fn step(&mut self, ev: OpenEvent) -> (a: OpenAction)
        requires
            open_event_fits(*old(self), ev),
        ensures
            final(self).wf(),
            (final(self)@, a@) == open_next(old(self)@, ev),
    {
        match (self.phase, ev) {
            (OpenPhase::Head, OpenEvent::Read { result }) => match result {
                Ok(b) => self.take_head(&b),
                Err(e) => self.finish(Err(e)),
            },
            (OpenPhase::Body { len }, OpenEvent::Read { result }) => match result {
                Ok(b) => self.take_body(&b),
                Err(e) => self.finish(Err(e)),
            },
            (OpenPhase::Controls { camera }, OpenEvent::Controls { result }) => {
                let (start, first) = camera.start_stream();
                self.phase = OpenPhase::Start { camera };
                OpenAction::StartStream { camera, start, first }
            },
            (OpenPhase::Start { camera }, OpenEvent::Started { sel, result }) => match result {
                Ok(_) => {
                    let mut running: UvcCamera = camera;
                    running.stream_started(sel);
                    self.phase = OpenPhase::WarmUp { camera: running };
                    OpenAction::Capture { camera: running }
                },
                Err(e) => self.finish(Err(e)),
            },
            (OpenPhase::WarmUp { camera }, OpenEvent::Captured { result }) => self.finish(
                Ok(camera),
            ),
            _ => self.finish(Err(UsbError::NotImplemented)),
        }
    }
}

/// An error of either read, of the search for a stream or of the start ends the opening with
/// that error.
pub proof fn law_opening_fails_with_the_error(v: OpenView, ev: OpenEvent, e: UsbError)
    requires
        match (v.phase, ev) {
            (OpenPhaseView::Head, OpenEvent::Read { result }) => match result {
                Err(f) => f == e,
                Ok(b) => body_request(CAMERA_CONFIGURATION, b@) == Err::<RequestView, UsbError>(e),
            },
            (OpenPhaseView::Body { len }, OpenEvent::Read { result }) => match result {
                Err(f) => f == e,
                Ok(b) => camera_stream(configuration_bytes(b@), v.prefs) == StreamOutcome::Fail(e),
            },
            (OpenPhaseView::Start { camera }, OpenEvent::Started { sel, result }) => result == Err::<
                (),
                UsbError,
            >(e),
            _ => false,
        },
    ensures
        open_next(v, ev).1 == (OpenActionView::Finish { result: Err(e) }),
        open_next(v, ev).0.phase is Over,
{
}

/// How the controls and the first frame went makes no difference.
pub proof fn law_opening_ignores_controls_and_warm_up(
    v: OpenView,
    c1: UsbResult<()>,
    c2: UsbResult<()>,
    f1: UsbResult<usize>,
    f2: UsbResult<usize>,
)
    ensures
        open_next(v, OpenEvent::Controls { result: c1 }) == open_next(
            v,
            OpenEvent::Controls { result: c2 },
        ),
        open_next(v, OpenEvent::Captured { result: f1 }) == open_next(
            v,
            OpenEvent::Captured { result: f2 },
        ),
        v.phase matches OpenPhaseView::Controls { camera } ==> open_next(
            v,
            OpenEvent::Controls { result: c1 },
        ).1 is StartStream,
        v.phase matches OpenPhaseView::WarmUp { camera } ==> open_next(
            v,
            OpenEvent::Captured { result: f1 },
        ).1 == (OpenActionView::Finish { result: Ok(camera) }),
{
}

/// Place of a phase in the order of phases.
pub open spec fn open_rank(p: OpenPhaseView) -> int {
    match p {
        OpenPhaseView::Head => 0,
        OpenPhaseView::Body { len } => 1,
        OpenPhaseView::Controls { camera } => 2,
        OpenPhaseView::Start { camera } => 3,
        OpenPhaseView::WarmUp { camera } => 4,
        OpenPhaseView::Over => 5,
    }
}

/// The first frame is asked for exactly where the stream was started, and since no phase comes
/// back, only once; success comes right behind it and nowhere else.
pub proof fn law_warm_up_comes_once(v: OpenView, ev: OpenEvent)
    requires
        !(v.phase is Over),
    ensures
        ({
            let (w, a) = open_next(v, ev);
            &&& open_rank(w.phase) > open_rank(v.phase)
            &&& a is Capture <==> v.phase is Start && (ev matches OpenEvent::Started {
                sel,
                result,
            } && result is Ok)
            &&& a is Capture <==> w.phase is WarmUp
            &&& (a matches OpenActionView::Finish { result } && result is Ok) <==> v.phase is WarmUp
                && ev is Captured
        }),
{
}

/// The opening after events, and what the last of them led to; nothing follows its end.
pub open spec fn open_run(v: OpenView, first: OpenActionView, evs: Seq<OpenEvent>) -> (
    OpenView,
    OpenActionView,
)
    decreases evs.len(),
{
    if evs.len() == 0 {
        (v, first)
    } else {
        let before = open_run(v, first, evs.drop_last());
        if before.1 is Finish {
            before
        } else {
            open_next(before.0, evs.last())
        }
    }
}

/// An opening succeeds if and only if both reads, the search for a stream and the start of the
/// stream do. The camera then has the selection that the stream was started with.
pub proof fn law_opening_succeeds(
    dev: UsbDevice,
    prefs: UvcPrefs,
    head: UsbResult<Vec<u8>>,
    body: UsbResult<Vec<u8>>,
    controls: UsbResult<()>,
    sel: UvcStreamSelection,
    started: UsbResult<()>,
    captured: UsbResult<usize>,
)
    ensures
        ({
            let evs = seq![
                OpenEvent::Read { result: head },
                OpenEvent::Read { result: body },
                OpenEvent::Controls { result: controls },
                OpenEvent::Started { sel, result: started },
                OpenEvent::Captured { result: captured },
            ];
            let a = open_run(open_start(dev, prefs), open_first(), evs).1;
            &&& a is Finish
            &&& (a matches OpenActionView::Finish { result } && result is Ok) <==> {
                &&& head matches Ok(h)
                &&& body_request(CAMERA_CONFIGURATION, h@) is Ok
                &&& body matches Ok(b)
                &&& camera_stream(configuration_bytes(b@), prefs) is Selected
                &&& started is Ok
            }
            &&& a matches OpenActionView::Finish { result: Ok(c) } ==> c.control_ep
                == dev.control_ep && c.sel == sel@
        }),
{
    let e0 = OpenEvent::Read { result: head };
    let e1 = OpenEvent::Read { result: body };
    let e2 = OpenEvent::Controls { result: controls };
    let e3 = OpenEvent::Started { sel, result: started };
    let e4 = OpenEvent::Captured { result: captured };
    let v = open_start(dev, prefs);
    let f = open_first();
    let evs = seq![e0, e1, e2, e3, e4];
    assert(evs.drop_last() =~= seq![e0, e1, e2, e3]);
    assert(seq![e0, e1, e2, e3].drop_last() =~= seq![e0, e1, e2]);
    assert(seq![e0, e1, e2].drop_last() =~= seq![e0, e1]);
    assert(seq![e0, e1].drop_last() =~= seq![e0]);
    assert(seq![e0].drop_last() =~= Seq::<OpenEvent>::empty());
    let r0 = open_run(v, f, Seq::<OpenEvent>::empty());
    let r1 = open_run(v, f, seq![e0]);
    let r2 = open_run(v, f, seq![e0, e1]);
    let r3 = open_run(v, f, seq![e0, e1, e2]);
    let r4 = open_run(v, f, seq![e0, e1, e2, e3]);
    assert(r0 == (v, f));
    assert(r1 == open_next(v, e0));
    assert(r2 == (if r1.1 is Finish {
        r1
    } else {
        open_next(r1.0, e1)
    }));
    assert(r3 == (if r2.1 is Finish {
        r2
    } else {
        open_next(r2.0, e2)
    }));
    assert(r4 == (if r3.1 is Finish {
        r3
    } else {
        open_next(r3.0, e3)
    }));
}

/// The buffer of a configuration holds what was read, from its first byte on, and zeros behind it.
pub proof fn law_configuration_buffer(body: Seq<u8>, k: int)
    requires
        body.len() <= 4096,
        body.len() <= k < 4096,
    ensures
        configuration_bytes(body).len() == 4096,
        configuration_bytes(body).take(body.len() as int) =~= body,
        configuration_bytes(body)[k] == 0,
{
}

/// An opening whose transfers all succeed asks for these in turn: nine bytes of the configuration,
/// all of it, the controls of the camera, its stream, and one frame, whatever becomes of it.
pub proof fn law_opening_asks_in_turn(
    dev: UsbDevice,
    prefs: UvcPrefs,
    head: Vec<u8>,
    body: Vec<u8>,
    controls: UsbResult<()>,
    sel: UvcStreamSelection,
    captured: UsbResult<usize>,
    found: SelectionView,
)
    requires
        head@.len() == 9,
        head@[1] == 2,
        head@[2] + 256 * head@[3] <= 4096,
        camera_stream(configuration_bytes(body@), prefs) == StreamOutcome::Selected(found),
    ensures
        ({
            let camera = camera_with(dev, found, configuration_bytes(body@));
            let running = CameraView { sel: sel@, ..camera };
            let (v1, a1) = open_next(
                open_start(dev, prefs),
                OpenEvent::Read { result: Ok(head) },
            );
            let (v2, a2) = open_next(v1, OpenEvent::Read { result: Ok(body) });
            let (v3, a3) = open_next(v2, OpenEvent::Controls { result: controls });
            let (v4, a4) = open_next(v3, OpenEvent::Started { sel, result: Ok(()) });
            let (v5, a5) = open_next(v4, OpenEvent::Captured { result: captured });
            &&& open_first() == (OpenActionView::Read {
                request: RequestView::In { setup: seq![0x80u8, 6, 1, 2, 0, 0, 9, 0], len: 9 },
            })
            &&& a1 == (OpenActionView::Read {
                request: RequestView::In {
                    setup: seq![0x80u8, 6, 1, 2, 0, 0, head@[2], head@[3]],
                    len: head@[2] + 256 * head@[3],
                },
            })
            &&& a2 == (OpenActionView::SetControls { camera, tasks: control_plan(camera.entities) })
            &&& a3 == (OpenActionView::StartStream {
                camera,
                start: StreamStart::begun(found),
                first: StreamStart::first_action(found),
            })
            &&& a4 == (OpenActionView::Capture { camera: running })
            &&& a5 == (OpenActionView::Finish { result: Ok(running) })
        }),
{
    law_configuration_is_asked_for_whole(1, head@, (head@[2] + 256 * head@[3]) as u16);
}

} // verus!
