use cvirtos::drivers::usb::device::{
    find_driver, first_interface_class, prefix_request, DeviceDriver, UsbDevice, UvcCameraDriver,
};
use cvirtos::drivers::usb::dwc2::ch::{
    enabled, handle_usb_irq, next_uframe_oddfrm, serve_channel_irq, take_done, take_usb_isr_count,
    Channel, HaltStep, UsbIrq, Xfer, XferStep,
};
use cvirtos::drivers::usb::dwc2::control::{
    normalize_ep0_mps, parse_device_descriptor, ControlEp, ControlRun, RunStep, Stage,
};
use cvirtos::drivers::usb::dwc2::controller::{dwc2_host_init, hprt0_port, port_reset_pulse};
use cvirtos::drivers::usb::dwc2::cv182x::{
    dynamic_fifo, init_host_fifos_cv182x, FifoSizes, HwConfig,
};
use cvirtos::drivers::usb::dwc2::dma::{dma_phys, dma_rx_slice, dma_write_at, DMA_BUF_TOTAL};
use cvirtos::drivers::usb::dwc2::isoch::{
    is_single_transaction, wmax_mps, wmax_payload_per_uframe, IsochInEp, PayloadStep,
};
use cvirtos::drivers::usb::enumerate::{check_root_device_connected, enumerate_topology_only};
use cvirtos::drivers::usb::hub::{
    is_connected, is_enabled, wait_connect, DeviceHub, Hub, HubRequest, PortAction, PortFeature,
    PortSpeed, StatusSource,
};
use cvirtos::drivers::usb::root::RootHub;
use cvirtos::drivers::usb::setup::{ControlData, StdRequest};
use cvirtos::drivers::usb::topology::{
    enumerate_bus, BusAction, BusEvent, BusWalk, HubRef, WalkMode,
};
use cvirtos::error::UsbError;
use cvirtos::hw::{HwOp, WaitStep};

const D: usize = 0x0434_0000;

fn w(addr: usize, value: u32) -> HwOp {
    HwOp::Write { addr, value }
}

// ---- requests ----

#[test]
fn standard_requests() {
    assert_eq!(StdRequest::get_descriptor_device(), [0x80, 6, 0, 1, 0, 0, 18, 0]);
    assert_eq!(StdRequest::set_address(5), [0, 5, 5, 0, 0, 0, 0, 0]);
    assert_eq!(StdRequest::set_configuration(1), [0, 9, 1, 0, 0, 0, 0, 0]);
    assert_eq!(
        StdRequest::get_descriptor_configuration(2, 0x1234),
        [0x80, 6, 2, 2, 0, 0, 0x34, 0x12]
    );
    assert_eq!(StdRequest::set_interface(3, 1), [1, 0x0B, 3, 0, 1, 0, 0, 0]);
}

#[test]
fn hub_requests() {
    assert_eq!(
        HubRequest::set_port_feature(2, PortFeature::Reset),
        [0x23, 3, 4, 0, 2, 0, 0, 0]
    );
    assert_eq!(
        HubRequest::clear_port_feature(0x102, PortFeature::ResetChange),
        [0x23, 1, 20, 0, 2, 1, 0, 0]
    );
    assert_eq!(HubRequest::get_port_status(4), [0xA3, 0, 0, 0, 4, 0, 4, 0]);
    assert_eq!(PortFeature::Power.code(), 8);
    assert_eq!(PortFeature::ConnectionChange.code(), 16);
}

#[test]
fn port_status() {
    assert_eq!(PortSpeed::from_status(0x0400), PortSpeed::Hs);
    assert_eq!(PortSpeed::from_status(0x0200), PortSpeed::Ls);
    assert_eq!(PortSpeed::from_status(0), PortSpeed::Fs);
    assert_eq!(PortSpeed::Hs.as_str(), "HS");
    assert_eq!(PortSpeed::Fs.as_str(), "FS");
    assert_eq!(PortSpeed::Ls.as_str(), "LS");
    assert!(is_connected(1) && !is_connected(2));
    assert!(is_enabled(2) && !is_enabled(1));
    assert_eq!(wait_connect(Ok(1), 9, 5), WaitStep::Done);
    assert_eq!(wait_connect(Ok(0), 4, 5), WaitStep::Again);
    assert_eq!(wait_connect(Err(UsbError::Timeout), 5, 5), WaitStep::Expired);
    assert_eq!(RootHub::status_register(1 | 4 | 0x100), 1 + 2 + 16 + 1024);
    assert_eq!(RootHub::status_register(1 << 17), 0);
    assert_eq!(RootHub::status_register(2 << 17), 512);
}

// ---- devices ----

fn device(dev_class: u8, iface_class: u8) -> UsbDevice {
    UsbDevice {
        control_ep: ControlEp::new(1, 64),
        vid: 1,
        pid: 2,
        dev_class,
        iface_class,
        speed: PortSpeed::Hs,
    }
}

#[test]
fn hubs_and_drivers() {
    assert!(device(9, 0).is_hub());
    assert!(!device(0xEF, 0x0E).is_hub());
    let mut virtual_hub = device(0, 0);
    virtual_hub.vid = 0x0409;
    virtual_hub.pid = 0x55aa;
    assert!(virtual_hub.is_hub());
    assert!(find_driver(&device(0xEF, 0x0E)));
    assert!(!find_driver(&device(0, 3)));
    assert!(UvcCameraDriver.matches(&device(0xEF, 0x0E)));
}

#[test]
fn first_interface() {
    let cfg = [9u8, 2, 0, 0, 1, 1, 0, 0x80, 50, 9, 4, 0, 0, 1, 0x0E, 1, 0, 0];
    assert_eq!(first_interface_class(&cfg), 0x0E);
    assert_eq!(first_interface_class(&[9, 2, 0]), 0);
    assert_eq!(first_interface_class(&[0, 4, 1, 1, 1, 1, 1, 1, 1]), 0);
}

// ---- control endpoint ----

#[test]
fn device_descriptors() {
    let mut d = [0u8; 18];
    d[4] = 0xEF;
    d[7] = 32;
    d[8] = 0x45;
    d[9] = 0x0c;
    d[10] = 0xab;
    d[11] = 0x64;
    assert_eq!(parse_device_descriptor(&d), Ok((0x0c45, 0x64ab, 32, 0xEF)));
    assert_eq!(
        parse_device_descriptor(&d[..17]),
        Err(UsbError::Protocol("short descriptor"))
    );
    assert_eq!(normalize_ep0_mps(64), 64);
    assert_eq!(normalize_ep0_mps(7), 8);
}

#[test]
fn stages_tile_the_data() {
    let ep = ControlEp::new(3, 8);
    let packet = StdRequest::get_descriptor_device();
    let s = ep.read(packet, 18).unwrap();
    assert_eq!(
        s,
        vec![
            Stage::Setup { packet },
            Stage::DataIn { off: 0, len: 8, data1: true, dma_off: 256 },
            Stage::DataIn { off: 8, len: 8, data1: false, dma_off: 256 },
            Stage::DataIn { off: 16, len: 2, data1: true, dma_off: 256 },
            Stage::Status { dir_in: false },
        ]
    );
    assert_eq!(ep.read(packet, 0), Err(UsbError::Protocol("bad control_ep read len")));
    assert_eq!(ep.read(packet, 4097), Err(UsbError::Protocol("bad control_ep read len")));
    assert_eq!(
        ep.write(packet, 9).unwrap(),
        vec![
            Stage::Setup { packet },
            Stage::DataOut { off: 0, len: 8, data1: true },
            Stage::DataOut { off: 8, len: 1, data1: false },
            Stage::Status { dir_in: true },
        ]
    );
    assert_eq!(ep.write(packet, 0).unwrap(), ep.write_no_data(packet));
    assert_eq!(
        ep.write(packet, 4097),
        Err(UsbError::Protocol("bad control_ep write data len"))
    );
}

#[test]
fn stage_registers() {
    let ep = ControlEp::new(5, 64);
    assert_eq!(ep.dev(), 5);
    assert_eq!(ep.hcchar(false), 64 | (5 << 22));
    assert_eq!(ep.hcchar(true), 64 | (5 << 22) | (1 << 15));
    let packet = [0u8; 8];
    let p = Stage::Setup { packet }.plan(&ep);
    assert_eq!((p.hcchar, p.hctsiz, p.dma_off), (64 | (5 << 22), (3 << 29) | (1 << 19) | 8, 0));
    let s = Stage::DataIn { off: 64, len: 10, data1: false, dma_off: 256 };
    let p = s.plan(&ep);
    assert_eq!((p.hctsiz, p.dma_off), ((1 << 19) | 10, 256));
    assert_eq!(s.cache_op(0x1000), Some(HwOp::InvalidateCache { start: 0x1100, size: 10 }));
    let s = Stage::DataOut { off: 0, len: 3, data1: true };
    assert_eq!(s.plan(&ep).hctsiz, (2 << 29) | (1 << 19) | 3);
    assert_eq!(s.cache_op(0x1000), Some(HwOp::CleanCache { start: 0x1100, size: 3 }));
    let s = Stage::Status { dir_in: true };
    assert_eq!(s.plan(&ep).hctsiz, (2 << 29) | (1 << 19));
    assert_eq!(s.cache_op(0x1000), None);
    assert_eq!(
        Stage::Setup { packet }.cache_op(0x1000),
        Some(HwOp::CleanCache { start: 0x1000, size: 8 })
    );
}

#[test]
fn addresses_and_configurations() {
    let (mut ep, stages) = ControlEp::probe_default_addr();
    assert_eq!(ep, ControlEp::new(0, 64));
    assert_eq!(stages.len(), 3);
    assert_eq!(stages[1], Stage::DataIn { off: 0, len: 18, data1: true, dma_off: 0 });
    let r = ep.set_address_request(7).unwrap();
    assert_eq!(r.setup, [0, 5, 7, 0, 0, 0, 0, 0]);
    assert_eq!(ep.set_address(7, Err(UsbError::Stall)), Err(UsbError::Stall));
    assert_eq!(ep.dev(), 0);
    assert_eq!(ep.set_address(7, Ok(())), Ok(()));
    assert_eq!(ep.dev(), 7);
    let refused = Err(UsbError::Protocol("set_address on non-default address"));
    assert_eq!(ep.set_address(8, Ok(())), refused);
    assert_eq!(ep.dev(), 7);
    assert!(ep.set_address_request(8).is_err());
    assert_eq!(ep.set_configuration(1).setup, StdRequest::set_configuration(1));
    assert_eq!(ep.set_interface(2, 1).setup, StdRequest::set_interface(2, 1));
    let head = ep.get_configuration_descriptor(1);
    assert_eq!(head.setup, [0x80, 6, 1, 2, 0, 0, 9, 0]);
    assert!(matches!(head.data, ControlData::In { len: 9 }));
    let body = ep.get_configuration_body(1, &[9, 2, 0x34, 0x02, 0, 0, 0, 0, 0]).unwrap();
    assert_eq!(body.setup, [0x80, 6, 1, 2, 0, 0, 0x34, 0x02]);
    assert!(matches!(body.data, ControlData::In { len: 0x234 }));
    assert_eq!(
        ep.get_configuration_body(1, &[9, 4, 0, 0, 0, 0, 0, 0, 0]).err(),
        Some(UsbError::Protocol("not a configuration descriptor"))
    );
    assert_eq!(
        ep.get_configuration_body(1, &[9, 2, 1, 16, 0, 0, 0, 0, 0]).err(),
        Some(UsbError::Protocol("configuration descriptor too large (>4096)"))
    );
    let buf = ep.configuration_buffer(&[1, 2, 3]);
    assert_eq!((buf[0], buf[2], buf[3], buf[4095]), (1, 3, 0, 0));
}

// ---- channels ----

#[test]
fn a_channel_is_armed() {
    let c = Channel::video();
    assert_eq!((Channel::control().index(), c.index()), (0, 1));
    let b = D + 0x520;
    assert_eq!(
        c.arm(0x1111, 0x8000_2222, 0x3333),
        vec![
            HwOp::Poll {
                addr: b,
                mask: 0x8000_0000,
                set: false,
                iters: 2_000_000,
                spin: 8,
                error: UsbError::Timeout,
            },
            w(b + 4, 0),
            w(b + 8, 0x7FF),
            w(b + 12, 3),
            w(b + 16, 0x1111),
            HwOp::Fence,
            w(b + 20, 0x3333),
            HwOp::Fence,
            w(b, 0x8000_2222),
        ]
    );
    assert_eq!(enabled(1), 0x8000_0001);
}

#[test]
fn a_channel_halts() {
    let c = Channel::control();
    let halted = |hcint| HaltStep::Halted { hcint, ack: w(D + 0x508, hcint) };
    assert_eq!(c.wait_halted(false, 3, 1), halted(3));
    assert_eq!(c.wait_halted(true, 0, 1), halted(0));
    assert_eq!(c.wait_halted(false, 1, 1), HaltStep::Again);
    assert_eq!(c.wait_halted(true, 3, 0), HaltStep::Failed(UsbError::Timeout));
}

#[test]
fn transfers_are_tried_again() {
    let mut x = Xfer::new();
    assert_eq!(x.xfer(Ok(3)), XferStep::Finished(Ok(3)));
    assert_eq!(x.xfer(Ok(2)), XferStep::Finished(Err(UsbError::Protocol("CHHLTD without XFERCOMPL"))));
    assert_eq!(x.xfer(Ok(0x8A)), XferStep::Finished(Err(UsbError::Stall)));
    assert_eq!(x.xfer(Err(UsbError::Timeout)), XferStep::Finished(Err(UsbError::Timeout)));
    let mut naks = Xfer::new();
    for _ in 0..64 {
        assert_eq!(naks.xfer(Ok(0x12)), XferStep::Retry);
    }
    assert_eq!(
        naks.xfer(Ok(0x12)),
        XferStep::Finished(Err(UsbError::Protocol("ch xfer NAK exhausted")))
    );
    let mut errors = Xfer::new();
    for _ in 0..8 {
        assert!(!errors.exhausted(Ok(0x82)));
        assert_eq!(errors.xfer(Ok(0x82)), XferStep::Retry);
    }
    assert_eq!(
        errors.xfer(Ok(0x82)),
        XferStep::Finished(Err(UsbError::Protocol("ch xfer error (XACT)")))
    );
    let last = Xfer { attempt: 64, xact_left: 1 };
    assert!(last.exhausted(Ok(0x82)));
    let mut ended = last;
    assert_eq!(
        ended.xfer(Ok(0x82)),
        XferStep::Finished(Err(UsbError::Protocol("ch xfer error (XACT)")))
    );
    assert!(!last.exhausted(Ok(0x12)));
    assert!(!last.exhausted(Err(UsbError::Timeout)));
}

#[test]
fn interrupts_are_counted() {
    let mut s = UsbIrq { count: 0, control_done: false, video_done: false };
    assert_eq!(handle_usb_irq(&mut s, 1 << 25, 3), (true, true));
    assert_eq!(handle_usb_irq(&mut s, 1 << 25, 2), (false, true));
    assert_eq!(handle_usb_irq(&mut s, 0, 3), (false, false));
    assert_eq!(take_usb_isr_count(&mut s), 3);
    assert_eq!(take_usb_isr_count(&mut s), 0);
    let ack = serve_channel_irq(&mut s, Channel::video(), 2);
    assert_eq!(ack, w(D + 0x528, 2));
    assert!(take_done(&mut s, Channel::video()));
    assert!(!take_done(&mut s, Channel::video()));
    assert!(!take_done(&mut s, Channel::control()));
}

// ---- window ----

#[test]
fn the_window() {
    let mut window = vec![0u8; DMA_BUF_TOTAL];
    assert_eq!(dma_write_at(&mut window, 10, &[1, 2, 3]), Ok(()));
    assert_eq!(dma_rx_slice(&window, 9, 5), Some(&[0u8, 1, 2, 3, 0][..]));
    assert_eq!(dma_rx_slice(&window, 0, 0), None);
    assert_eq!(dma_rx_slice(&window, DMA_BUF_TOTAL - 1, 2), None);
    assert_eq!(dma_rx_slice(&window, usize::MAX, 2), None);
    assert_eq!(
        dma_write_at(&mut window, DMA_BUF_TOTAL, &[1]),
        Err(UsbError::Protocol("dma write out of buf"))
    );
    assert_eq!(
        dma_write_at(&mut window, usize::MAX, &[1]),
        Err(UsbError::Protocol("dma write overflow"))
    );
    assert_eq!(dma_phys(0x1_0000_0010, 16), 0x20);
}

// ---- isochronous endpoint ----

#[test]
fn packet_sizes() {
    assert_eq!(wmax_mps(0x1400), 1024);
    assert_eq!(wmax_payload_per_uframe(0x0B84), 0x384);
    assert!(is_single_transaction(0x0400));
    assert!(!is_single_transaction(0x0C00));
}

#[test]
fn microframes() {
    let ep = IsochInEp::new(2, 1, 0x1400);
    assert_eq!(next_uframe_oddfrm(4), 1 << 29);
    assert_eq!(next_uframe_oddfrm(0xFFFF_0005), 0);
    let p = ep.read_uframe(4, 1024).unwrap();
    assert_eq!(
        p.hcchar,
        1024 | (1 << 11) | (1 << 15) | (1 << 18) | (1 << 20) | (2 << 22) | (1 << 29) | (1 << 31)
    );
    assert_eq!((p.hctsiz, p.dma_off), ((1 << 19) | 1024, 1024));
    assert_eq!(
        IsochInEp::new(2, 1, 0x0800).read_uframe(0, 0),
        Err(UsbError::Protocol("bad isoch mps_raw"))
    );
    assert_eq!(ep.uframe_result(3, (1 << 29) | 24), Ok(1000));
    assert_eq!(ep.uframe_result(3, 2000), Ok(0));
    assert_eq!(ep.uframe_result(2, 24), Ok(0));
    for lost in [0x10u32, 0x40, 0x80, 0x100, 0x200, 0x400] {
        assert_eq!(ep.uframe_result(3 | lost, 24), Ok(0));
    }
    assert_eq!(ep.uframe_result(3 | 8, 24), Err(UsbError::Stall));
    assert_eq!(ep.uframe_result(3 | 4, 24), Err(UsbError::Hardware("AHBERR on isoch")));
}

#[test]
fn payloads() {
    let ep = IsochInEp::new(2, 1, 0x1400);
    assert_eq!(ep.read_payload(0, 1024, Ok(5)), PayloadStep::Got { len: 5 });
    assert_eq!(ep.read_payload(3, 1024, Ok(0)), PayloadStep::Again { tried: 4 });
    assert_eq!(
        ep.read_payload(0, DMA_BUF_TOTAL, Ok(1)),
        PayloadStep::Failed(UsbError::Hardware("dma view"))
    );
    assert_eq!(
        ep.read_payload(0, 0, Err(UsbError::Stall)),
        PayloadStep::Failed(UsbError::Stall)
    );
    let mut tried = 0;
    loop {
        match ep.read_payload(tried, 1024, Ok(0)) {
            PayloadStep::Again { tried: t } => tried = t,
            end => {
                assert_eq!(end, PayloadStep::Failed(UsbError::Timeout));
                break;
            }
        }
    }
    assert_eq!(tried, 79_999);
    assert_eq!(
        ep.read_payload(0, usize::MAX, Ok(1)),
        PayloadStep::Failed(UsbError::Hardware("dma view"))
    );
}

// ---- controller ----

const HW: HwConfig = HwConfig {
    gsnpsid: 0x4F54_420A,
    ghwcfg2: (8 << 14) | (2 << 3),
    ghwcfg3: 3072 << 16,
    ghwcfg4: (1 << 25) | (1 << 14),
};

#[test]
fn queues_fit() {
    assert_eq!(dynamic_fifo(3072, 9), FifoSizes { rx: 536, nptx: 32, ptx: 768 });
    assert_eq!(dynamic_fifo(1336, 9), FifoSizes { rx: 536, nptx: 32, ptx: 768 });
    assert_eq!(dynamic_fifo(1335, 9), FifoSizes { rx: 525, nptx: 256, ptx: 554 });
    assert_eq!(dynamic_fifo(100, 9), FifoSizes { rx: 525, nptx: 256, ptx: 0 });
    for total in [781u32, 1000, 1335, 1336, 5000] {
        let f = dynamic_fifo(total, 9);
        assert!(f.rx + f.nptx + f.ptx <= total);
    }
    assert_eq!(
        init_host_fifos_cv182x(&HW),
        vec![
            w(D + 0x24, 536),
            w(D + 0x28, (32 << 16) | 536),
            w(D + 0x100, (768 << 16) | 568),
            HwOp::Modify { addr: D + 0x5c, mask: 0xFFFF_0000, value: 1336 << 16 },
        ]
    );
}

#[test]
fn port_writes_are_safe() {
    for (pwr, rst) in [(true, false), (true, true), (false, false)] {
        match hprt0_port(pwr, rst) {
            HwOp::Modify { addr, mask, value } => {
                assert_eq!(addr, D + 0x440);
                let change_bits = 2 | 4 | 8 | 0x20;
                assert_eq!(mask & change_bits, change_bits);
                assert_eq!(value & change_bits, 0);
                assert_eq!(value & 0x1000 != 0, pwr);
                assert_eq!(value & 0x100 != 0, rst);
            }
            _ => panic!("the port is modified"),
        }
    }
    let pulse = port_reset_pulse();
    assert_eq!(pulse[0], hprt0_port(true, true));
    assert!(pulse.contains(&hprt0_port(true, false)));
}

#[test]
fn host_bring_up() {
    let ops = dwc2_host_init(&HW);
    assert_eq!(ops[0], w(D + 0x18, 0));
    assert_eq!(ops[1], w(D + 0x14, 0xFFFF_FFFF));
    assert_eq!(ops[3], HwOp::Modify { addr: D + 0x10, mask: 1, value: 1 });
    assert!(ops.contains(&w(D + 0x418, 3)));
    let old = HwConfig { gsnpsid: 0x4F54_2000, ..HW };
    assert_ne!(dwc2_host_init(&old), ops);
    let plan = enumerate_topology_only(&HW);
    assert_eq!(plan.bring_up, ops);
    assert_eq!(plan.connect_nanos, 5_000_000_000);
    assert_eq!(plan.reset, port_reset_pulse());
    assert_eq!(check_root_device_connected(1, u64::MAX), Some(Ok(())));
    assert_eq!(check_root_device_connected(0, 1), None);
    assert!(matches!(
        check_root_device_connected(0, 5_000_000_000),
        Some(Err(UsbError::Hardware(_)))
    ));
}

// ---- hubs ----

fn hub_descriptor(ports: u8) -> [u8; 64] {
    let mut d = [0u8; 64];
    d[0] = 9;
    d[1] = 0x29;
    d[2] = ports;
    d[5] = 50;
    d
}

#[test]
fn hubs_by_their_descriptor() {
    let ep = ControlEp::new(1, 64);
    let h = DeviceHub::new(ep, &hub_descriptor(4)).unwrap();
    assert_eq!((h.nports, h.pwr_on_pwr_good_ms), (4, 100));
    assert_eq!(h.pwr_good(), 100_000_000);
    assert_eq!(
        DeviceHub::new(ep, &[0; 64]),
        Err(UsbError::Protocol("invalid hub descriptor"))
    );
    assert_eq!(DeviceHub::descriptor_request().setup, [0xA0, 6, 0, 0x29, 0, 0, 64, 0]);
    match h.reset_port(2) {
        PortAction::Control { request, settle_nanos } => {
            assert_eq!(request.setup, [0x23, 3, 4, 0, 2, 0, 0, 0]);
            assert_eq!(settle_nanos, 100_000_000);
        }
        _ => panic!("a hub is asked"),
    }
    assert!(matches!(RootHub.port_status_w0(1), StatusSource::Register { addr } if addr == D + 0x440));
    assert_eq!(RootHub.nports(), 1);
}

/// Answers the walk until the device on the given port is asked what it is.
fn to_identity(walk: &mut BusWalk) {
    walk.step(BusEvent::Status(Ok(1)));
    walk.step(BusEvent::Done(Ok(())));
    walk.step(BusEvent::Done(Ok(())));
    walk.step(BusEvent::Done(Ok(())));
    assert_eq!(walk.step(BusEvent::Status(Ok(0x0403))), BusAction::ProbeDefault);
}

/// Answers the walk until the class of the device is asked for.
fn to_class(walk: &mut BusWalk, class: u8, addr: u8) {
    let a = walk.step(BusEvent::Identity(Ok((1, 2, 64, class))));
    assert_eq!(a, BusAction::SetAddress { ep: ControlEp::new(0, 64), addr });
    walk.step(BusEvent::Done(Ok(())));
    let a = walk.step(BusEvent::Done(Ok(())));
    assert_eq!(a, BusAction::SetConfiguration { ep: ControlEp::new(addr as u32, 64), cfg: 1 });
    walk.step(BusEvent::Done(Ok(())));
}

fn camera_prefix() -> [u8; 64] {
    let mut b = [0u8; 64];
    b[..18].copy_from_slice(&[9, 2, 64, 0, 1, 1, 0, 0x80, 50, 9, 4, 0, 0, 1, 0x0E, 1, 0, 0]);
    b
}

#[test]
fn a_camera_behind_a_hub_is_found() {
    let (mut walk, first) = RootHub.enumerate_bus();
    assert_eq!(first, BusAction::PortPower { hub: HubRef::Root, port: 1 });
    let a = walk.step(BusEvent::Done(Ok(())));
    assert_eq!(a, BusAction::WaitConnect { port: 1, timeout_nanos: 5_000_000_000 });
    let a = walk.step(BusEvent::Connected(true));
    assert_eq!(a, BusAction::PortStatus { hub: HubRef::Root, port: 1 });
    to_identity(&mut walk);
    to_class(&mut walk, 9, 1);
    let hub_ep = ControlEp::new(1, 64);
    let a = walk.step(BusEvent::Bytes(Ok([0; 64])));
    assert_eq!(a, BusAction::ReadHubDescriptor { ep: hub_ep });
    let hub = HubRef::Device(DeviceHub::new(hub_ep, &hub_descriptor(2)).unwrap());
    let a = walk.step(BusEvent::Bytes(Ok(hub_descriptor(2))));
    assert_eq!(a, BusAction::PortStatus { hub, port: 1 });
    let a = walk.step(BusEvent::Status(Ok(1)));
    assert_eq!(a, BusAction::PortStatus { hub, port: 2 });
    let a = walk.step(BusEvent::Status(Ok(0)));
    assert_eq!(a, BusAction::PortPower { hub, port: 2 });
    let a = walk.step(BusEvent::Done(Ok(())));
    assert_eq!(a, BusAction::Delay { nanos: 200_000_000 });
    let a = walk.step(BusEvent::Done(Ok(())));
    assert_eq!(a, BusAction::PortStatus { hub, port: 1 });
    let a = walk.step(BusEvent::Status(Ok(0)));
    assert_eq!(a, BusAction::PortStatus { hub, port: 2 });
    to_identity(&mut walk);
    to_class(&mut walk, 0xEF, 2);
    match walk.step(BusEvent::Bytes(Ok(camera_prefix()))) {
        BusAction::DriverProbe { dev } => {
            assert_eq!((dev.control_ep.dev(), dev.iface_class), (2, 0x0E));
            assert_eq!(dev.speed, PortSpeed::Hs);
        }
        _ => panic!("the driver gets the camera"),
    }
    assert_eq!(walk.step(BusEvent::Done(Ok(()))), BusAction::Finish(Ok(())));
    assert!(walk.is_finished());
}

#[test]
fn walks_that_fail() {
    let (mut walk, _) = BusWalk::new(WalkMode::Probe);
    walk.step(BusEvent::Done(Ok(())));
    assert!(matches!(
        walk.step(BusEvent::Connected(false)),
        BusAction::Finish(Err(UsbError::Hardware(_)))
    ));
    let (mut walk, _) = BusWalk::new(WalkMode::Probe);
    walk.step(BusEvent::Done(Ok(())));
    walk.step(BusEvent::Connected(true));
    assert_eq!(
        walk.step(BusEvent::Status(Err(UsbError::Timeout))),
        BusAction::Finish(Err(UsbError::Protocol("root port child not enabled")))
    );
    let (mut walk, _) = BusWalk::new(WalkMode::Probe);
    walk.step(BusEvent::Done(Ok(())));
    walk.step(BusEvent::Connected(true));
    to_identity(&mut walk);
    assert_eq!(
        walk.step(BusEvent::Identity(Err(UsbError::Stall))),
        BusAction::Finish(Err(UsbError::Stall))
    );
}

#[test]
fn a_claiming_walk() {
    let (mut walk, _) = enumerate_bus(&RootHub);
    walk.step(BusEvent::Done(Ok(())));
    walk.step(BusEvent::Connected(true));
    to_identity(&mut walk);
    to_class(&mut walk, 0xEF, 1);
    let a = walk.step(BusEvent::Bytes(Ok(camera_prefix())));
    assert_eq!(a, BusAction::Finish(Ok(())));
    assert_eq!(walk.claimed().map(|d| d.iface_class), Some(0x0E));

    let (mut walk, _) = enumerate_bus(&RootHub);
    walk.step(BusEvent::Done(Ok(())));
    walk.step(BusEvent::Connected(true));
    to_identity(&mut walk);
    to_class(&mut walk, 0, 1);
    assert_eq!(
        walk.step(BusEvent::Bytes(Err(UsbError::Stall))),
        BusAction::Finish(Err(UsbError::Protocol("no device claimed by any class driver")))
    );
}

#[test]
fn the_prefix_of_a_configuration() {
    let r = prefix_request();
    assert_eq!(r.setup, [0x80, 6, 0, 2, 0, 0, 64, 0]);
    assert!(matches!(r.data, ControlData::In { len: 64 }));
}

#[test]
fn a_change_of_connection_is_cleared_alone() {
    match RootHub.clear_connection_change(1) {
        PortAction::Script { ops } => assert_eq!(
            ops,
            vec![HwOp::ModifyIfSet { addr: D + 0x440, test: 0x2, mask: 0x2e, value: 0x2 }]
        ),
        _ => panic!("registers, not requests"),
    }
}

#[test]
fn a_failed_stage_ends_its_transfer() {
    let window = vec![0u8; DMA_BUF_TOTAL];
    let ep = ControlEp::new(1, 8);
    let packet = StdRequest::set_configuration(1);
    let (mut run, first) = ControlRun::new(ep.write_no_data(packet));
    assert_eq!(first, RunStep::Perform(Stage::Setup { packet }));
    assert_eq!(run.step(Err(UsbError::Stall), &window), RunStep::Finish(Err(UsbError::Stall)));
    let (mut run, _) = ControlRun::new(ep.write_no_data(packet));
    assert_eq!(run.step(Ok(()), &window), RunStep::Perform(Stage::Status { dir_in: true }));
    assert_eq!(run.step(Err(UsbError::Timeout), &window), RunStep::Finish(Err(UsbError::Timeout)));
}

#[test]
fn a_read_gathers_its_packets() {
    let mut window = vec![0u8; DMA_BUF_TOTAL];
    let ep = ControlEp::new(1, 8);
    let packet = StdRequest::get_descriptor_device();
    let (mut run, mut step) = ControlRun::new(ep.read(packet, 18).unwrap());
    let mut next = 0u8;
    let result = loop {
        match step {
            RunStep::Perform(stage) => {
                stage.load(&mut window, &[]).unwrap();
                if let Stage::DataIn { len, dma_off, .. } = stage {
                    for i in 0..len {
                        window[dma_off + i] = next;
                        next += 1;
                    }
                }
                step = run.step(Ok(()), &window);
            }
            RunStep::Finish(result) => break result,
        }
    };
    assert_eq!(result, Ok(()));
    assert_eq!(run.data, (0u8..18).collect::<Vec<u8>>());
    assert_eq!(&window[..8], &packet[..]);
    let far = Stage::DataIn { off: 0, len: 8, data1: true, dma_off: DMA_BUF_TOTAL };
    let (mut run, _) = ControlRun::new(vec![far]);
    assert_eq!(
        run.step(Ok(()), &window),
        RunStep::Finish(Err(UsbError::Hardware("dma view")))
    );
}

#[test]
fn stages_carry_their_part_of_the_data() {
    let mut window = vec![0u8; DMA_BUF_TOTAL];
    let s = Stage::DataOut { off: 1, len: 2, data1: true };
    assert_eq!(s.load(&mut window, &[5, 6, 7, 8]), Ok(()));
    assert_eq!(&window[256..259], &[6, 7, 0][..]);
}

#[test]
fn lengths_are_refused_before_packet_sizes_matter() {
    let ep = ControlEp::new(1, 0);
    let packet = StdRequest::get_descriptor_device();
    assert_eq!(ep.read(packet, 0).err(), Some(UsbError::Protocol("bad control_ep read len")));
    assert_eq!(ep.read(packet, 4097).err(), Some(UsbError::Protocol("bad control_ep read len")));
    assert_eq!(
        ep.write(packet, 4097).err(),
        Some(UsbError::Protocol("bad control_ep write data len"))
    );
}

/// Answers every operation of a walk over a hub with two ports: another hub with one port and a
/// camera, and a second camera. Returns the ports that were looked at, as hub address and port,
/// and the walk.
fn tour(mode: WalkMode) -> (Vec<(u32, u8)>, Vec<u32>, BusWalk) {
    let (mut walk, mut action) = BusWalk::new(mode);
    let mut looked: Vec<(u32, u8)> = vec![];
    let mut probed = vec![];
    let mut settled = true;
    for _ in 0..1000 {
        let event = match action {
            BusAction::PortStatus { hub, port } => {
                let place = match hub {
                    HubRef::Root => (0, port),
                    HubRef::Device(h) => (h.control_ep.dev, port),
                };
                if settled && looked.last() != Some(&place) {
                    looked.push(place);
                }
                BusEvent::Status(Ok(0x0403))
            }
            BusAction::WaitConnect { .. } => BusEvent::Connected(true),
            BusAction::ProbeDefault => {
                let class = if matches!(looked.last(), Some((0, 1)) | Some((1, 1))) { 9 } else { 0 };
                BusEvent::Identity(Ok((1, 2, 64, class)))
            }
            BusAction::ReadPrefix { .. } => BusEvent::Bytes(Ok(camera_prefix())),
            BusAction::ReadHubDescriptor { ep } => {
                settled = false;
                BusEvent::Bytes(Ok(hub_descriptor(if ep.dev == 1 { 2 } else { 1 })))
            }
            BusAction::Delay { nanos } => {
                if nanos != 50_000_000 {
                    settled = true;
                }
                BusEvent::Done(Ok(()))
            }
            BusAction::DriverProbe { dev } => {
                probed.push(dev.control_ep.dev);
                BusEvent::Done(Ok(()))
            }
            BusAction::Finish(r) => {
                assert_eq!(r, Ok(()));
                break;
            }
            _ => BusEvent::Done(Ok(())),
        };
        action = walk.step(event);
    }
    assert!(walk.is_finished());
    (looked, probed, walk)
}

#[test]
fn every_port_is_looked_at_in_order() {
    let ports = vec![(0, 1), (1, 1), (2, 1), (1, 2)];
    let (looked, probed, walk) = tour(WalkMode::Probe);
    assert_eq!(looked, ports);
    assert_eq!(probed, vec![3, 4]);
    assert!(walk.claimed().is_none());
    let (looked, probed, walk) = tour(WalkMode::Claim);
    assert_eq!(looked, ports);
    assert!(probed.is_empty());
    assert_eq!(walk.claimed().map(|d| d.control_ep.dev), Some(3));
}

#[test]
fn a_claiming_walk_never_ends_not_present() {
    let (mut walk, _) = enumerate_bus(&RootHub);
    walk.step(BusEvent::Done(Ok(())));
    walk.step(BusEvent::Connected(true));
    to_identity(&mut walk);
    assert_eq!(
        walk.step(BusEvent::Identity(Err(UsbError::NotPresent))),
        BusAction::Finish(Err(UsbError::Protocol("root port child not enabled")))
    );
}
