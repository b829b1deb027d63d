use cvirtos::drivers::usb::device::UsbDevice;
use cvirtos::drivers::usb::dwc2::control::ControlEp;
use cvirtos::drivers::usb::dwc2::dma::DMA_BUF_TOTAL;
use cvirtos::drivers::usb::hub::PortSpeed;
use cvirtos::drivers::usb::setup::ControlData;
use cvirtos::drivers::usb::uvc::capture::{
    CaptureStep, FrameSearch, FrameStep, UvcPacket, NO_FID, UVC_ASSEMBLED_JPEG_DMA_OFF,
};
use cvirtos::drivers::usb::uvc::control::{ControlsRun, CtrlOp, CtrlReply, CtrlTask, TaskStage};
use cvirtos::drivers::usb::uvc::descriptor::{
    choose_frame_interval, fps_x100, frame_rank, from_uvc_ticks, parse_uvc_control_entities,
    parse_uvc_video_stream, parse_vs_frame, to_uvc_ticks, try_parse_uvc_video_stream, Desc,
    FramePick, UvcControlEntities, UvcPrefs, UvcStreamSelection,
};
use cvirtos::drivers::usb::uvc::open::{OpenAction, OpenCamera, OpenEvent};
use cvirtos::drivers::usb::uvc::prefs::{
    set_preferred_frame_interval, set_preferred_frame_size, set_preferred_max_pixels, Preferred,
};
use cvirtos::drivers::usb::uvc::session::{
    open, set_prefs, take_camera, try_open, UvcCamera, UvcSlots,
};
use cvirtos::drivers::usb::uvc::setup::{uvc_setup, UvcRequest};
use cvirtos::drivers::usb::uvc::stream::{
    build_probe_commit_payload, uvc_start_video_stream, StreamAction, StreamEvent,
};
use cvirtos::error::UsbError;

const PREFS: UvcPrefs = UvcPrefs { frame_w: 640, frame_h: 480, frame_interval: 33_333_300 };

fn interface(num: u8, alt: u8, sub: u8) -> Vec<u8> {
    vec![9, 4, num, alt, 1, 0x0E, sub, 0, 0]
}

fn frame(sub: u8, index: u8, w: u16, h: u16, dflt: u32, list: &[u32]) -> Vec<u8> {
    let mut v = vec![(26 + 4 * list.len()) as u8, 0x24, sub, index, 0];
    v.extend(w.to_le_bytes());
    v.extend(h.to_le_bytes());
    v.extend([0u8; 12]);
    v.extend(dflt.to_le_bytes());
    v.push(list.len() as u8);
    for i in list {
        v.extend(i.to_le_bytes());
    }
    v
}

fn ranged_frame(lo: u32, hi: u32) -> Vec<u8> {
    let mut v = frame(7, 1, 640, 480, 333_333, &[lo, hi, 1]);
    v[25] = 0;
    v
}

fn endpoint(addr: u8, attr: u8, mps: u16) -> Vec<u8> {
    let mut v = vec![7, 5, addr, attr];
    v.extend(mps.to_le_bytes());
    v.push(1);
    v
}

fn configuration(parts: Vec<Vec<u8>>) -> Vec<u8> {
    let body: Vec<u8> = parts.concat();
    let total = (9 + body.len()) as u16;
    let mut v = vec![9, 2];
    v.extend(total.to_le_bytes());
    v.extend([2, 1, 0, 0x80, 50]);
    v.extend(body);
    v
}

fn camera_configuration() -> Vec<u8> {
    configuration(vec![
        interface(0, 0, 1),
        vec![18, 0x24, 2, 1, 0x01, 0x02, 0, 0, 0, 0, 0, 0, 0, 0, 3, 0x0E, 0x00, 0x02],
        vec![11, 0x24, 5, 2, 1, 0, 0, 2, 0x7F, 0x17, 0],
        interface(1, 0, 2),
        vec![11, 0x24, 6, 1, 2, 0, 1, 0, 0, 0, 0],
        frame(7, 1, 1280, 720, 333_333, &[333_333]),
        frame(7, 2, 640, 480, 333_333, &[333_333, 666_666]),
        vec![27, 0x24, 4, 2, 1, 0, 0, 0, 0, 0, 0, 0, 0, 0, 0, 0, 0, 0, 0, 0, 0, 0, 0, 0, 0, 0, 0],
        frame(5, 1, 640, 480, 333_333, &[333_333]),
        interface(1, 1, 2),
        endpoint(0x81, 5, 512),
        interface(1, 2, 2),
        endpoint(0x81, 5, 0x0400),
        interface(1, 3, 2),
        endpoint(0x81, 5, 0x1400),
    ])
}

// ---- time and requests ----

#[test]
fn ticks() {
    assert_eq!(from_uvc_ticks(333_333), 33_333_300);
    assert_eq!(to_uvc_ticks(33_333_399), 333_333);
    for t in [0u32, 1, 333_333, u32::MAX] {
        assert_eq!(to_uvc_ticks(from_uvc_ticks(t)), t);
    }
    assert_eq!(fps_x100(333_333), 3000);
    assert_eq!(fps_x100(0), 0);
}

#[test]
fn class_requests() {
    let r = UvcRequest::SetCurStreaming { interface: 1, selector: 1, w_length: 34 };
    assert_eq!(uvc_setup(r), [0x21, 1, 0, 1, 1, 0, 34, 0]);
    let r = UvcRequest::GetCurStreaming { interface: 1, selector: 2, w_length: 34 };
    assert_eq!(uvc_setup(r), [0xA1, 0x81, 0, 2, 1, 0, 34, 0]);
    let r = UvcRequest::GetMaxStreaming { interface: 1, selector: 1, w_length: 34 };
    assert_eq!(uvc_setup(r), [0xA1, 0x83, 0, 1, 1, 0, 34, 0]);
    let r = UvcRequest::SetCurControl { interface: 0, entity_id: 2, selector: 3, w_length: 2 };
    assert_eq!(uvc_setup(r), [0x21, 1, 0, 3, 0, 2, 2, 0]);
    let r = UvcRequest::GetCurControl { interface: 0, entity_id: 2, selector: 3, w_length: 2 };
    assert_eq!(uvc_setup(r), [0xA1, 0x81, 0, 3, 0, 2, 2, 0]);
    let r = UvcRequest::GetDefControl { interface: 0, entity_id: 2, selector: 3, w_length: 2 };
    assert_eq!(uvc_setup(r), [0xA1, 0x87, 0, 3, 0, 2, 2, 0]);
}

// ---- descriptors ----

#[test]
fn one_descriptor() {
    let b = [4u8, 0x24, 1, 2, 3];
    let d = Desc::new(&b, 0, 5).unwrap();
    assert_eq!((d.len(), d.ty()), (4, 0x24));
    assert_eq!(d.u8(3), Some(2));
    assert_eq!(d.u8(4), None);
    assert_eq!(d.u16le(2), Some(0x0201));
    assert_eq!(d.u16le(3), None);
    assert_eq!(d.u32le(0), Some(0x0201_2404));
    assert_eq!(d.u32le(1), None);
    assert!(Desc::new(&b, 0, 3).is_none());
    assert!(Desc::new(&[1, 2], 0, 2).is_none());
    assert!(Desc::new(&b, 5, 5).is_none());
}

#[test]
fn the_nearest_interval_is_chosen() {
    let f = frame(7, 2, 640, 480, 500_000, &[333_333, 666_666, 0]);
    let d = Desc::new(&f, 0, f.len()).unwrap();
    assert_eq!(choose_frame_interval(d, 500_000, 3, 600_000), 666_666);
    let d = Desc::new(&f, 0, f.len()).unwrap();
    assert_eq!(choose_frame_interval(d, 500_000, 3, 490_000), 500_000);
    let d = Desc::new(&f, 0, f.len()).unwrap();
    assert_eq!(choose_frame_interval(d, 500_000, 3, 0), 0);
    let d = Desc::new(&f, 0, f.len()).unwrap();
    assert_eq!(choose_frame_interval(d, 416_667, 3, 375_000), 333_333);
    let r = ranged_frame(200_000, 400_000);
    let d = Desc::new(&r, 0, r.len()).unwrap();
    assert_eq!(choose_frame_interval(d, 333_333, 0, 300_000), 300_000);
    let d = Desc::new(&r, 0, r.len()).unwrap();
    assert_eq!(choose_frame_interval(d, 1, 0, 900_000), 400_000);
}

#[test]
fn frames_are_parsed() {
    let f = frame(7, 2, 640, 480, 500_000, &[666_666, 333_333]);
    let d = Desc::new(&f, 0, f.len()).unwrap();
    let (pick, ok) = parse_vs_frame(d, 7, 9, 0);
    assert!(ok);
    assert_eq!(
        pick,
        Some(FramePick { fmt_ix: 9, frame_ix: 2, w: 640, h: 480, ival: 333_333, is_mjpeg: true })
    );
    let d = Desc::new(&f, 0, f.len()).unwrap();
    assert_eq!(parse_vs_frame(d, 3, 9, 0), (None, true));
    let bad = ranged_frame(400_000, 200_000);
    let d = Desc::new(&bad, 0, bad.len()).unwrap();
    assert!(!parse_vs_frame(d, 7, 1, 333_333).1);
}

#[test]
fn frames_are_ranked() {
    let pick = |w, h| FramePick { fmt_ix: 1, frame_ix: 1, w, h, ival: 1, is_mjpeg: true };
    let rank = |w, h| frame_rank(&pick(w, h), &PREFS);
    assert_eq!(rank(640, 480), 0x1_0000_0000);
    assert_eq!(rank(320, 240), 76_800);
    assert_eq!(rank(1280, 720), 307_200 - 921_600);
    assert!(rank(640, 480) > rank(480, 640));
    assert!(rank(480, 640) > rank(320, 240));
    assert!(rank(160, 120) > rank(800, 600));
    assert!(rank(800, 600) > rank(1280, 720));
}

#[test]
fn a_stream_is_selected() {
    let cfg = camera_configuration();
    let s = parse_uvc_video_stream(&cfg, cfg.len(), &PREFS).unwrap();
    assert_eq!((s.vs_interface, s.alt_setting, s.ep_num, s.mps_raw), (1, 2, 1, 0x0400));
    assert_eq!((s.format_index, s.frame_index, s.is_mjpeg), (1, 2, true));
    assert_eq!((s.frame_w, s.frame_h, s.frame_interval), (640, 480, 33_333_300));
    assert_eq!(s.isoch_alts_count, 3);
    assert_eq!(&s.isoch_alts[..3], &[(1, 512), (2, 0x0400), (3, 0x1400)][..]);
}

#[test]
fn streams_that_are_not_there() {
    assert_eq!(
        parse_uvc_video_stream(&[9, 2, 9, 0, 0, 0, 0, 0, 0], 9, &PREFS).err(),
        Some(UsbError::Protocol("cfg too short"))
    );
    let mut long = camera_configuration();
    long[0] = 255;
    assert_eq!(
        parse_uvc_video_stream(&long, 200, &PREFS).err(),
        Some(UsbError::Protocol("bad cfg bLength"))
    );
    let bulk = configuration(vec![interface(1, 0, 2), endpoint(0x81, 2, 512)]);
    assert_eq!(
        parse_uvc_video_stream(&bulk, bulk.len(), &PREFS).err(),
        Some(UsbError::NotImplemented)
    );
    let bare = configuration(vec![interface(1, 0, 2), endpoint(0x81, 5, 512)]);
    assert_eq!(
        parse_uvc_video_stream(&bare, bare.len(), &PREFS).err(),
        Some(UsbError::Protocol("no VS format/frame"))
    );
    let upside_down = configuration(vec![interface(1, 0, 2), ranged_frame(9, 5)]);
    assert!(try_parse_uvc_video_stream(&upside_down, upside_down.len(), &PREFS).is_none());
}

#[test]
fn uncompressed_streams_come_second() {
    let cfg = configuration(vec![
        interface(1, 0, 2),
        frame(5, 3, 320, 240, 500_000, &[]),
        interface(1, 1, 2),
        endpoint(0x82, 1, 256),
    ]);
    let s = parse_uvc_video_stream(&cfg, cfg.len(), &PREFS).unwrap();
    assert_eq!((s.is_mjpeg, s.frame_w, s.ep_num, s.frame_interval), (false, 320, 2, 50_000_000));
}

#[test]
fn the_setting_follows_the_payload() {
    let cfg = camera_configuration();
    let mut s = parse_uvc_video_stream(&cfg, cfg.len(), &PREFS).unwrap();
    s.negotiated_payload_size = 300;
    s.reselect_isoch_alt_for_payload();
    assert_eq!((s.alt_setting, s.mps_raw), (1, 512));
    s.negotiated_payload_size = 513;
    s.reselect_isoch_alt_for_payload();
    assert_eq!((s.alt_setting, s.mps_raw), (2, 0x0400));
    s.negotiated_payload_size = 3000;
    s.reselect_isoch_alt_for_payload();
    assert_eq!((s.alt_setting, s.mps_raw), (2, 0x0400));
}

#[test]
fn entities_are_found() {
    let cfg = camera_configuration();
    let e = parse_uvc_control_entities(&cfg, cfg.len()).unwrap();
    assert_eq!(
        e,
        UvcControlEntities {
            vc_interface: 0,
            camera_terminal_id: Some(1),
            ct_controls: 0x02_000E,
            processing_unit_id: Some(2),
            pu_controls: 0x177F,
        }
    );
    let none = configuration(vec![interface(1, 0, 2)]);
    assert_eq!(parse_uvc_control_entities(&none, none.len()), None);
}

// ---- controls ----

fn camera() -> UvcCamera {
    let cfg = camera_configuration();
    let mut buf = [0u8; 4096];
    buf[..cfg.len()].copy_from_slice(&cfg);
    let dev = UsbDevice {
        control_ep: ControlEp::new(2, 64),
        vid: 0x0c45,
        pid: 0x64ab,
        dev_class: 0xEF,
        iface_class: 0x0E,
        speed: PortSpeed::Hs,
    };
    open(dev, &PREFS, &buf).unwrap()
}

#[test]
fn only_announced_controls_are_touched() {
    let mut c = camera();
    c.entities.pu_controls = 0x1041;
    c.entities.ct_controls = 0x2;
    let auto = 0x0B;
    assert_eq!(
        c.init_controls(),
        vec![
            CtrlTask::ApplyDefault { entity: 2, selector: 2 },
            CtrlTask::SetU8 { entity: 2, selector: auto, value: 0 },
            CtrlTask::CopyDefault { entity: 2, selector: 0x0A },
            CtrlTask::SetU8 { entity: 2, selector: auto, value: 1 },
            CtrlTask::ReadCur { entity: 2, selector: 0x0A },
            CtrlTask::FirstOf { entity: 1, selector: 2, first: 2, second: 8, third: 4 },
        ]
    );
    c.entities.pu_controls = 0x40;
    c.entities.ct_controls = 0x4;
    assert_eq!(
        c.init_controls(),
        vec![CtrlTask::DefaultOr { entity: 2, selector: 0x0A, fallback: 4500 }]
    );
    c.entities.processing_unit_id = None;
    c.entities.ct_controls = 0x2_0006;
    assert_eq!(
        c.init_controls(),
        vec![
            CtrlTask::FirstOf { entity: 1, selector: 2, first: 2, second: 8, third: 4 },
            CtrlTask::SetU8 { entity: 1, selector: 3, value: 1 },
            CtrlTask::SetU8 { entity: 1, selector: 8, value: 1 },
        ]
    );
    assert_eq!(camera().init_controls().len(), 16);
}

#[test]
fn tasks_are_carried_out_in_order() {
    let (run, op) = ControlsRun::new(vec![]);
    assert!(op.is_none() && run.pos == 0);
    let (mut run, op) = ControlsRun::new(vec![
        CtrlTask::ApplyDefault { entity: 2, selector: 3 },
        CtrlTask::FirstOf { entity: 1, selector: 2, first: 2, second: 8, third: 4 },
    ]);
    let get = op.unwrap();
    assert_eq!(get, CtrlOp::GetCur { entity: 2, selector: 3 });
    assert_eq!(get.reply(&Ok(vec![1, 2])), CtrlReply::Got(Some(0x201)));
    let op = run.step(get.reply(&Err(UsbError::Stall)));
    assert_eq!(op, Some(CtrlOp::GetDef { entity: 2, selector: 3 }));
    let op = run.step(CtrlReply::Got(Some(4)));
    assert_eq!(op, Some(CtrlOp::SetU8 { entity: 1, selector: 2, value: 2 }));
    assert_eq!(op.unwrap().reply(&Ok(vec![])), CtrlReply::Accepted(true));
    let op = run.step(op.unwrap().reply(&Err(UsbError::Stall)));
    assert_eq!(op, Some(CtrlOp::SetU8 { entity: 1, selector: 2, value: 8 }));
    assert_eq!(run.step(CtrlReply::Accepted(true)), None);
}

#[test]
fn defaults_are_restored_where_they_differ() {
    let t = CtrlTask::ApplyDefault { entity: 2, selector: 3 };
    assert_eq!(t.first(), CtrlOp::GetCur { entity: 2, selector: 3 });
    let (stage, op) = t.next(TaskStage::First, CtrlReply::Got(Some(7))).unwrap();
    assert_eq!(op, CtrlOp::GetDef { entity: 2, selector: 3 });
    let set = t.next(stage, CtrlReply::Got(Some(9))).unwrap();
    assert_eq!(set.1, CtrlOp::SetU16 { entity: 2, selector: 3, word: 9 });
    assert!(t.next(stage, CtrlReply::Got(Some(7))).is_none());
    assert!(t.next(stage, CtrlReply::Got(None)).is_none());
    let r = set.1.request(0);
    assert_eq!(r.setup, [0x21, 1, 0, 3, 0, 2, 2, 0]);
    assert!(matches!(r.data, ControlData::Out { data } if data == vec![9, 0]));
}

#[test]
fn the_first_accepted_mode_is_kept() {
    let t = CtrlTask::FirstOf { entity: 1, selector: 2, first: 2, second: 8, third: 4 };
    assert_eq!(t.first(), CtrlOp::SetU8 { entity: 1, selector: 2, value: 2 });
    assert!(t.next(TaskStage::First, CtrlReply::Accepted(true)).is_none());
    let (stage, op) = t.next(TaskStage::First, CtrlReply::Accepted(false)).unwrap();
    assert_eq!(op, CtrlOp::SetU8 { entity: 1, selector: 2, value: 8 });
    let (_, op) = t.next(stage, CtrlReply::Accepted(false)).unwrap();
    assert_eq!(op, CtrlOp::SetU8 { entity: 1, selector: 2, value: 4 });
}

// ---- streaming ----

#[test]
fn the_proposal() {
    let c = camera();
    let p = build_probe_commit_payload(&c.sel);
    assert_eq!(&p[..8], &[1, 0, 1, 2, 0x15, 0x16, 5, 0][..]);
    assert_eq!(&p[18..22], &307_200u32.to_le_bytes()[..]);
    assert_eq!(&p[22..26], &1024u32.to_le_bytes()[..]);
    let mut big: UvcStreamSelection = c.sel;
    big.frame_w = 65535;
    big.frame_h = 65535;
    big.is_mjpeg = false;
    assert_eq!(&build_probe_commit_payload(&big)[18..22], &[0xFF; 4][..]);
}

#[test]
fn a_stream_is_started() {
    let c = camera();
    let (mut s, a) = c.start_stream();
    match a {
        StreamAction::Request { request } => {
            assert_eq!(request.setup, [1, 0x0B, 0, 0, 1, 0, 0, 0]);
        }
        _ => panic!("the stream is silenced"),
    }
    let a = uvc_start_video_stream(&mut s, StreamEvent::Done(Err(UsbError::Stall)));
    match a {
        StreamAction::Request { request } => {
            assert_eq!(request.setup, [0x21, 1, 0, 1, 1, 0, 34, 0]);
            assert!(matches!(request.data, ControlData::Out { data } if data.len() == 34));
        }
        _ => panic!("a proposal is made"),
    }
    let a = uvc_start_video_stream(&mut s, StreamEvent::Done(Ok(())));
    assert!(matches!(a, StreamAction::Request { request } if request.setup[1] == 0x83));
    let a = uvc_start_video_stream(&mut s, StreamEvent::Read(Err(UsbError::Stall)));
    assert!(matches!(a, StreamAction::Request { request } if request.setup[1] == 0x81));
    let mut answer = build_probe_commit_payload(&c.sel);
    answer[22..26].copy_from_slice(&400u32.to_le_bytes());
    let a = uvc_start_video_stream(&mut s, StreamEvent::Read(Ok(answer)));
    match a {
        StreamAction::Request { request } => {
            assert_eq!(request.setup, [0x21, 1, 0, 2, 1, 0, 34, 0]);
        }
        _ => panic!("the answer is committed"),
    }
    let a = uvc_start_video_stream(&mut s, StreamEvent::Done(Ok(())));
    match a {
        StreamAction::Request { request } => {
            assert_eq!(request.setup, [1, 0x0B, 1, 0, 1, 0, 0, 0]);
        }
        _ => panic!("the setting is selected"),
    }
    let a = uvc_start_video_stream(&mut s, StreamEvent::Done(Ok(())));
    assert!(matches!(a, StreamAction::Finish { result: Ok(()) }));
    let mut c = c;
    c.stream_started(s.selection());
    assert_eq!((c.sel.alt_setting, c.sel.negotiated_payload_size), (1, 400));
}

#[test]
fn a_refused_proposal_ends_the_start() {
    let (mut s, _) = camera().start_stream();
    uvc_start_video_stream(&mut s, StreamEvent::Done(Ok(())));
    let a = uvc_start_video_stream(&mut s, StreamEvent::Done(Err(UsbError::Stall)));
    assert!(matches!(a, StreamAction::Finish { result: Err(UsbError::Stall) }));
}

// ---- frames ----

fn packet(flags: u8, data: &[u8]) -> Vec<u8> {
    let mut v = vec![2, flags];
    v.extend(data);
    v
}

#[test]
fn packets() {
    assert!(UvcPacket::new(&[]).is_none());
    assert!(UvcPacket::new(&[1, 0]).is_none());
    assert!(UvcPacket::new(&[3, 0]).is_none());
    let raw = [2u8, 3, 9];
    let p = UvcPacket::new(&raw).unwrap();
    assert!(p.eof());
    assert_eq!((p.fid(), p.payload()), (1, &[9u8][..]));
}

#[test]
fn a_frame_is_assembled() {
    let mut window = vec![0u8; DMA_BUF_TOTAL];
    let mut c = camera().capture_frame(NO_FID);
    assert_eq!((c.iso.dev, c.iso.ep_num, c.iso.mps_raw), (2, 1, 0x0400));
    assert_eq!(c.packet(&mut window, &packet(0, &[0xFF, 0xD8, 1])), CaptureStep::More);
    assert_eq!(c.packet(&mut window, &[0]), CaptureStep::More);
    assert_eq!(c.packet(&mut window, &packet(1, &[0xFF, 0xD8, 5])), CaptureStep::More);
    assert_eq!(c.packet(&mut window, &packet(1, &[])), CaptureStep::More);
    assert_eq!(
        c.packet(&mut window, &packet(3, &[6, 0xFF, 0xD9])),
        CaptureStep::Finished { result: Ok(6), fid: Some(1) }
    );
    let at = UVC_ASSEMBLED_JPEG_DMA_OFF;
    assert_eq!(&window[at..at + 6], &[0xFF, 0xD8, 5, 6, 0xFF, 0xD9][..]);
}

#[test]
fn a_flip_ends_a_complete_frame() {
    let mut window = vec![0u8; DMA_BUF_TOTAL];
    let mut s = FrameSearch::new(Some(0));
    assert_eq!(
        s.try_frame(&mut window, &packet(1, &[0xFF, 0xD8, 0xFF, 0xD9])),
        FrameStep::More
    );
    assert_eq!(
        s.try_frame(&mut window, &packet(0, &[1])),
        FrameStep::Complete { len: 4, fid: 1 }
    );
}

const FRAGMENT: [u8; 3] = [0xFF, 0xD8, 1];

const WHOLE: [u8; 5] = [0xFF, 0xD8, 7, 0xFF, 0xD9];

#[test]
fn fragments_are_retried() {
    let mut window = vec![0u8; DMA_BUF_TOTAL];
    let mut c = camera().capture_frame(0);
    for flags in [3u8, 2, 3] {
        assert_eq!(c.packet(&mut window, &packet(flags, &FRAGMENT)), CaptureStep::More);
    }
    assert_eq!(
        c.packet(&mut window, &packet(2, &FRAGMENT)),
        CaptureStep::Finished { result: Err(UsbError::Timeout), fid: None }
    );
    let c = camera().capture_frame(0);
    assert_eq!(
        c.read_failed(UsbError::Timeout),
        CaptureStep::Finished { result: Err(UsbError::Timeout), fid: None }
    );
}

#[test]
fn a_frame_behind_a_fragment_is_handed_out() {
    let mut window = vec![0u8; DMA_BUF_TOTAL];
    let mut c = camera().capture_frame(0);
    assert_eq!(c.packet(&mut window, &packet(3, &FRAGMENT)), CaptureStep::More);
    assert_eq!(
        c.packet(&mut window, &packet(2, &WHOLE)),
        CaptureStep::Finished { result: Ok(5), fid: Some(0) }
    );
    let at = UVC_ASSEMBLED_JPEG_DMA_OFF;
    assert_eq!(&window[at..at + 5], &WHOLE[..]);
    let mut c = camera().capture_frame(0);
    for flags in [3u8, 2, 3] {
        assert_eq!(c.packet(&mut window, &packet(flags, &FRAGMENT)), CaptureStep::More);
    }
    assert_eq!(c.packet(&mut window, &packet(0, &WHOLE[..3])), CaptureStep::More);
    assert_eq!(
        c.packet(&mut window, &packet(2, &WHOLE[3..])),
        CaptureStep::Finished { result: Ok(5), fid: Some(0) }
    );
}

#[test]
fn fragments_and_frames_in_turn() {
    let mut window = vec![0u8; DMA_BUF_TOTAL];
    for last in [0u8, 0, 1, 1] {
        let mut c = camera().capture_frame(last);
        let flip = 1 - last;
        assert_eq!(c.packet(&mut window, &packet(2 + flip, &FRAGMENT)), CaptureStep::More);
        assert_eq!(
            c.packet(&mut window, &packet(2 + last, &WHOLE)),
            CaptureStep::Finished { result: Ok(5), fid: Some(last) }
        );
    }
}

#[test]
fn a_frame_behind_a_cut_frame_has_its_own_identifier() {
    let mut window = vec![0u8; DMA_BUF_TOTAL];
    let mut s = FrameSearch::new(Some(0));
    assert_eq!(s.try_frame(&mut window, &packet(1, &FRAGMENT)), FrameStep::More);
    assert_eq!(
        s.try_frame(&mut window, &packet(2, &WHOLE)),
        FrameStep::Complete { len: 5, fid: 0 }
    );
    let mut s = FrameSearch::new(Some(0));
    assert_eq!(s.try_frame(&mut window, &packet(1, &FRAGMENT)), FrameStep::More);
    assert_eq!(s.try_frame(&mut window, &packet(0, &WHOLE)), FrameStep::More);
    assert_eq!(
        s.try_frame(&mut window, &packet(1, &[])),
        FrameStep::Complete { len: 5, fid: 0 }
    );
}

#[test]
fn frames_have_an_end() {
    let mut window = vec![0u8; DMA_BUF_TOTAL];
    let mut s = FrameSearch::new(Some(0));
    let mut first = vec![0xFF, 0xD8];
    first.extend(vec![0u8; 100_000]);
    assert_eq!(s.try_frame(&mut window, &packet(1, &first)), FrameStep::More);
    let more = vec![0u8; 100_000];
    assert_eq!(s.try_frame(&mut window, &packet(1, &more)), FrameStep::More);
    assert_eq!(s.try_frame(&mut window, &packet(1, &more)), FrameStep::More);
    assert_eq!(
        s.try_frame(&mut window, &packet(1, &more)),
        FrameStep::Failed(UsbError::Hardware("video assemble overflow"))
    );
}

// ---- the driver ----

#[test]
fn a_camera_is_kept_and_taken() {
    let mut slots = UvcSlots::new();
    assert_eq!(slots.prefs.frame_w, 640);
    set_prefs(&mut slots, UvcPrefs { frame_w: 320, frame_h: 240, frame_interval: 1 });
    assert_eq!(slots.prefs.frame_h, 240);
    assert_eq!(slots.probe(Err(UsbError::Stall)), Err(UsbError::Stall));
    assert!(take_camera(&mut slots).is_none());
    assert_eq!(slots.probe(Ok(camera())), Ok(()));
    assert_eq!(take_camera(&mut slots).map(|c| c.sel.frame_w), Some(640));
    assert!(take_camera(&mut slots).is_none());
}

#[test]
fn cameras_that_do_not_open() {
    let dev = UsbDevice {
        control_ep: ControlEp::new(2, 64),
        vid: 0,
        pid: 0,
        dev_class: 0,
        iface_class: 0x0E,
        speed: PortSpeed::Hs,
    };
    assert_eq!(
        open(dev, &PREFS, &[0; 4096]).err(),
        Some(UsbError::Protocol("cfg too short"))
    );
    let cfg = configuration(vec![interface(1, 0, 2), ranged_frame(9, 5)]);
    let mut buf = [0u8; 4096];
    buf[..cfg.len()].copy_from_slice(&cfg);
    assert!(try_open(dev, &PREFS, &buf).is_none());
}

fn video_device() -> UsbDevice {
    UsbDevice {
        control_ep: ControlEp::new(2, 64),
        vid: 0,
        pid: 0,
        dev_class: 0,
        iface_class: 0x0E,
        speed: PortSpeed::Hs,
    }
}

fn opened_up_to_controls() -> OpenCamera {
    let cfg = camera_configuration();
    let (mut o, first) = OpenCamera::new(video_device(), PREFS);
    match first {
        OpenAction::Read { request } => {
            assert_eq!(request.setup, [0x80, 6, 1, 2, 0, 0, 9, 0]);
            assert!(matches!(request.data, ControlData::In { len: 9 }));
        }
        _ => panic!("the head is read first"),
    }
    let ev = OpenEvent::Read { result: Ok(cfg[..9].to_vec()) };
    assert!(o.accepts(&ev));
    match o.step(ev) {
        OpenAction::Read { request } => match request.data {
            ControlData::In { len } => assert_eq!(len, cfg.len()),
            _ => panic!("a read"),
        },
        _ => panic!("then all of it"),
    }
    assert!(!o.accepts(&OpenEvent::Read { result: Ok(vec![0; 3]) }));
    let ev = OpenEvent::Read { result: Ok(cfg) };
    assert!(o.accepts(&ev));
    match o.step(ev) {
        OpenAction::SetControls { camera: c, tasks } => assert_eq!(tasks, c.init_controls()),
        _ => panic!("then the controls"),
    }
    o
}

#[test]
fn a_camera_is_opened() {
    let mut o = opened_up_to_controls();
    let mut sel = match o.step(OpenEvent::Controls { result: Err(UsbError::Stall) }) {
        OpenAction::StartStream { camera: c, start, first } => {
            assert!(matches!(first, StreamAction::Request { request } if request.setup[1] == 0x0B));
            assert_eq!(start.selection().frame_w, 640);
            c.sel
        }
        _ => panic!("then the stream"),
    };
    sel.negotiated_payload_size = 77;
    match o.step(OpenEvent::Started { sel, result: Ok(()) }) {
        OpenAction::Capture { camera: c } => assert_eq!(c.sel.negotiated_payload_size, 77),
        _ => panic!("then one frame"),
    }
    match o.step(OpenEvent::Captured { result: Err(UsbError::Timeout) }) {
        OpenAction::Finish { result: Ok(c) } => {
            assert_eq!((c.control_ep.dev, c.sel.negotiated_payload_size), (2, 77));
        }
        _ => panic!("whatever came of it"),
    }
}

#[test]
fn openings_that_fail() {
    let (mut o, _) = OpenCamera::new(video_device(), PREFS);
    let a = o.step(OpenEvent::Read { result: Err(UsbError::Stall) });
    assert!(matches!(a, OpenAction::Finish { result: Err(UsbError::Stall) }));

    let (mut o, _) = OpenCamera::new(video_device(), PREFS);
    let a = o.step(OpenEvent::Read { result: Ok(vec![9, 4, 0, 0, 0, 0, 0, 0, 0]) });
    assert!(matches!(
        a,
        OpenAction::Finish { result: Err(UsbError::Protocol("not a configuration descriptor")) }
    ));

    let (mut o, _) = OpenCamera::new(video_device(), PREFS);
    o.step(OpenEvent::Read { result: Ok(vec![9, 2, 12, 0, 0, 0, 0, 0, 0]) });
    let a = o.step(OpenEvent::Read { result: Err(UsbError::Timeout) });
    assert!(matches!(a, OpenAction::Finish { result: Err(UsbError::Timeout) }));

    let (mut o, _) = OpenCamera::new(video_device(), PREFS);
    o.step(OpenEvent::Read { result: Ok(vec![9, 2, 12, 0, 0, 0, 0, 0, 0]) });
    let a = o.step(OpenEvent::Read { result: Ok(vec![9, 2, 12, 0, 0, 0, 0, 0, 0, 0, 0, 0]) });
    assert!(matches!(a, OpenAction::Finish { result: Err(UsbError::NotImplemented) }));

    let cfg = configuration(vec![interface(1, 0, 2), ranged_frame(9, 5)]);
    let (mut o, _) = OpenCamera::new(video_device(), PREFS);
    o.step(OpenEvent::Read { result: Ok(cfg[..9].to_vec()) });
    assert!(!o.accepts(&OpenEvent::Read { result: Ok(cfg) }));

    let mut o = opened_up_to_controls();
    o.step(OpenEvent::Controls { result: Ok(()) });
    let sel = camera().sel;
    let a = o.step(OpenEvent::Started { sel, result: Err(UsbError::Stall) });
    assert!(matches!(a, OpenAction::Finish { result: Err(UsbError::Stall) }));
}

#[test]
fn preferences() {
    let mut p = Preferred::none();
    set_preferred_max_pixels(&mut p, 1);
    set_preferred_frame_size(&mut p, 2, 3);
    set_preferred_frame_interval(&mut p, 4);
    assert_eq!((p.max_pixels, p.frame_w, p.frame_h, p.frame_interval), (1, 2, 3, 4));
}
