//! Open cameras.

use crate::drivers::usb::device::{is_descriptor, UsbDevice};
use crate::drivers::usb::dwc2::control::ControlEp;
use crate::drivers::usb::uvc::camera::{
    configuration, entities_all, law_every_descriptor_is_looked_at, scan_all,
};
use crate::drivers::usb::uvc::descriptor::{
    entities_of, entity_start, no_entities, parse_uvc_control_entities, scan_end, scan_start,
    selected, stream_outcome,
    try_parse_uvc_video_stream, SelectionView, StreamOutcome, UvcControlEntities, UvcPrefs, UvcStreamSelection,
};
use crate::drivers::usb::uvc::stream::{StreamAction, StreamStart};
use crate::error::{UsbError, UsbResult};
use crate::pieces::joined;
use vstd::prelude::*;

verus! {

/// The configuration that is read for its streams.
pub const CAMERA_CONFIGURATION: u8 = 1;

/// The interval of about 30 frames in a second, in nanoseconds.
pub const DEFAULT_INTERVAL_NANOS: u128 = 33_333_300;

/// A camera: its control endpoint, the stream in use, and what can be controlled.
#[derive(Clone, Copy, Debug)]
pub struct UvcCamera {
    pub control_ep: ControlEp,
    pub sel: UvcStreamSelection,
    pub entities: UvcControlEntities,
}

/// Contents of a [`UvcCamera`].
#[verifier::ext_equal]
pub struct CameraView {
    pub control_ep: ControlEp,
    pub sel: SelectionView,
    pub entities: UvcControlEntities,
}

impl View for UvcCamera {
    type V = CameraView;

    open spec fn view(&self) -> CameraView {
        CameraView { control_ep: self.control_ep, sel: self.sel@, entities: self.entities }
    }
}

/// Announced length of a configuration descriptor.
pub open spec fn announced_len(b: Seq<u8>) -> int {
    b[2] + 256 * b[3]
}

/// The part of a buffer that a configuration descriptor fills.
pub open spec fn filled(b: Seq<u8>) -> Seq<u8> {
    b.subrange(0, scan_end(b, announced_len(b)))
}

/// The search for a stream in a buffer with a configuration descriptor.
pub open spec fn camera_stream(b: Seq<u8>, prefs: UvcPrefs) -> StreamOutcome {
    stream_outcome(filled(b), announced_len(b), prefs)
}

/// The camera of a device with this configuration and this stream; where nothing can be
/// controlled, it has no entities.
pub open spec fn camera_with(dev: UsbDevice, sel: SelectionView, b: Seq<u8>) -> CameraView {
    CameraView {
        control_ep: dev.control_ep,
        sel,
        entities: match entities_of(filled(b), announced_len(b)) {
            Some(e) => e,
            None => no_entities(),
        },
    }
}

/// Whether `r` is what opening a device with this configuration returns.
pub open spec fn open_returns(
    r: UsbResult<UvcCamera>,
    dev: UsbDevice,
    b: Seq<u8>,
    prefs: UvcPrefs,
) -> bool {
    match camera_stream(b, prefs) {
        StreamOutcome::Selected(v) => {
            &&& r matches Ok(c)
            &&& c.sel.wf()
            &&& c@ == camera_with(dev, v, b)
        },
        StreamOutcome::Fail(e) => r == Err::<UvcCamera, UsbError>(e),
        StreamOutcome::BadRange => false,
    }
}

/// Opens a camera by its configuration descriptor: the stream that serves the preferences best,
/// and the entities that can be controlled. `None` where a frame descriptor offers a range that
/// is upside down.
pub fn try_open(dev: UsbDevice, prefs: &UvcPrefs, cfg: &[u8; 4096]) -> (r: Option<
    UsbResult<UvcCamera>,
>)
    ensures
        r is None <==> camera_stream(cfg@, *prefs) is BadRange,
        r matches Some(res) ==> open_returns(res, dev, cfg@, *prefs),
{
    let cfg_total: usize = cfg[2] as usize + 256 * cfg[3] as usize;
    let end: usize = if cfg_total < 4096 {
        cfg_total
    } else {
        4096
    };
    let all: &[u8] = cfg;
    let part: &[u8] = vstd::slice::slice_subrange(all, 0, end);
    let sel: UvcStreamSelection = match try_parse_uvc_video_stream(part, cfg_total, prefs) {
        None => {
            return None;
        },
        Some(Err(e)) => {
            return Some(Err(e));
        },
        Some(Ok(s)) => s,
    };
    let entities: UvcControlEntities = match parse_uvc_control_entities(part, cfg_total) {
        Some(e) => e,
        None => UvcControlEntities::default(),
    };
    Some(Ok(UvcCamera { control_ep: dev.control_ep, sel, entities }))
}

/// Opens a camera by its configuration descriptor.
pub fn open(dev: UsbDevice, prefs: &UvcPrefs, cfg: &[u8; 4096]) -> (r: UsbResult<UvcCamera>)
    requires
        !(camera_stream(cfg@, *prefs) is BadRange),
    ensures
        open_returns(r, dev, cfg@, *prefs),
{
    match try_open(dev, prefs, cfg) {
        Some(r) => r,
        None => Err(UsbError::NotImplemented),
    }
}

impl UvcCamera {
    /// Begins to start the stream.
    pub fn start_stream(&self) -> (r: (StreamStart, StreamAction))
        requires
            self.sel.wf(),
        ensures
            r.0.wf(),
            r.0@ == StreamStart::begun(self.sel@),
            r.1@ == StreamStart::first_action(self.sel@),
    {
        StreamStart::new(self.sel)
    }

    /// The stream was started with this selection.
    pub fn stream_started(&mut self, sel: UvcStreamSelection)
        ensures
            *final(self) == (UvcCamera { sel, ..*old(self) }),
    {
        self.sel = sel;
    }
}

/// What the driver of cameras keeps: the preferences, and the camera it opened.
pub struct UvcSlots {
    pub prefs: UvcPrefs,
    pub camera: Option<UvcCamera>,
}

impl UvcSlots {
    /// No camera yet; 640 by 480 at about 30 frames in a second is preferred.
    pub fn new() -> (s: UvcSlots)
        ensures
            s.prefs == (UvcPrefs {
                frame_w: 640,
                frame_h: 480,
                frame_interval: DEFAULT_INTERVAL_NANOS,
            }),
            s.camera is None,
    {
        UvcSlots {
            prefs: UvcPrefs {
                frame_w: 640,
                frame_h: 480,
                frame_interval: DEFAULT_INTERVAL_NANOS,
            },
            camera: None,
        }
    }

    /// Keeps an opened camera; a failure is handed on.
    pub fn probe(&mut self, opened: UsbResult<UvcCamera>) -> (r: UsbResult<()>)
        ensures
            final(self).prefs == old(self).prefs,
            match opened {
                Ok(c) => r is Ok && final(self).camera == Some(c),
                Err(e) => r == Err::<(), UsbError>(e) && final(self).camera == old(self).camera,
            },
    {
        match opened {
            Ok(c) => {
                self.camera = Some(c);
                Ok(())
            },
            Err(e) => Err(e),
        }
    }
}

/// Sets the preferences; this comes before the walk over the bus.
pub fn set_prefs(s: &mut UvcSlots, prefs: UvcPrefs)
    ensures
        final(s).prefs == prefs,
        final(s).camera == old(s).camera,
{
    s.prefs = prefs;
}

/// Takes the camera that was opened.
pub fn take_camera(s: &mut UvcSlots) -> (r: Option<UvcCamera>)
    ensures
        r == old(s).camera,
        final(s).camera is None,
        final(s).prefs == old(s).prefs,
{
    let c = s.camera;
    s.camera = None;
    c
}

/// A camera is found by the whole of its configuration and nothing behind it: the length is in
/// bytes 2 and 3 of the head, low byte first, and the stream and the entities are those that the
/// descriptors give, one after the other, however long each of them is.
pub proof fn law_camera_of_a_configuration(
    dev: UsbDevice,
    prefs: UvcPrefs,
    sel: SelectionView,
    head: Seq<u8>,
    ds: Seq<Seq<u8>>,
    rest: Seq<u8>,
)
    requires
        is_descriptor(head),
        head.len() >= 9,
        ds.len() > 0,
        forall|k: int| 0 <= k < ds.len() ==> is_descriptor(#[trigger] ds[k]),
        (head + joined(ds)).len() >= 12,
        head[2] + 256 * head[3] == (head + joined(ds)).len(),
    ensures
        ({
            let b = configuration(head, ds, rest);
            let e = entities_all(ds, entity_start());
            &&& camera_stream(b, prefs) == (match scan_all(ds, scan_start(), prefs) {
                None => StreamOutcome::BadRange,
                Some(s) => selected(s),
            })
            &&& camera_with(dev, sel, b) == (CameraView {
                control_ep: dev.control_ep,
                sel,
                entities: if e.found_vc {
                    e.out
                } else {
                    no_entities()
                },
            })
        }),
{
    let b = configuration(head, ds, rest);
    law_every_descriptor_is_looked_at(head, ds, Seq::empty(), prefs);
    assert(b[2] == head[2] && b[3] == head[3]);
    assert(filled(b) =~= configuration(head, ds, Seq::empty()));
}

} // verus!
