//! Enumerated devices and who takes them.

use crate::drivers::usb::dwc2::control::ControlEp;
use crate::drivers::usb::hub::PortSpeed;
use crate::drivers::usb::setup::{ControlRequest, RequestView, StdRequest};
use crate::pieces::{joined, lemma_joined_first};
use vstd::prelude::*;

verus! {

/// Device class of hubs.
pub const USB_CLASS_HUB: u8 = 0x09;

/// Interface class of video devices.
pub const USB_CLASS_VIDEO: u8 = 0x0E;

/// Type of an interface descriptor.
pub const USB_DT_INTERFACE: u8 = 4;

/// Vendor of the virtual hub.
pub const QEMU_USB_HUB_VID: u16 = 0x0409;

/// Product of the virtual hub.
pub const QEMU_USB_HUB_PID: u16 = 0x55aa;

/// Addresses from this one on are not given out.
pub const MAX_USB_ADDR: u8 = 127;

/// Bytes of the configuration that are read to tell what a device is.
pub const PREFIX_LEN: usize = 64;

/// A device with an address.
#[derive(Clone, Copy, Debug, PartialEq, Eq, Structural)]
pub struct UsbDevice {
    pub control_ep: ControlEp,
    pub vid: u16,
    pub pid: u16,
    pub dev_class: u8,
    /// Class of the first interface, 0 where it is not known.
    pub iface_class: u8,
    pub speed: PortSpeed,
}

/// Whether a device is a hub: by its class, or by the names of the virtual hub.
pub open spec fn hub_device(d: UsbDevice) -> bool {
    d.dev_class == USB_CLASS_HUB || (d.vid == QEMU_USB_HUB_VID && d.pid == QEMU_USB_HUB_PID)
}

impl UsbDevice {
    /// Whether the device is a hub.
    pub fn is_hub(&self) -> (r: bool)
        ensures
            r == hub_device(*self),
    {
        self.dev_class == USB_CLASS_HUB || (self.vid == QEMU_USB_HUB_VID && self.pid
            == QEMU_USB_HUB_PID)
    }
}

/// The request for the bytes of the configuration that tell what a device is.
pub fn prefix_request() -> (r: ControlRequest)
    ensures
        r@ == (RequestView::In { setup: seq![0x80u8, 6, 0, 2, 0, 0, 64, 0], len: 64 }),
{
    ControlRequest::data_in(
        StdRequest::get_descriptor_configuration(0, PREFIX_LEN as u16),
        PREFIX_LEN,
    )
}

/// Class of the first interface descriptor from `i` on, 0 where there is none.
pub open spec fn class_from(b: Seq<u8>, i: int) -> u8
    decreases
            (if i <= b.len() {
                b.len() - i
            } else {
                0
            }),
{
    if i + 2 <= b.len() {
        if b[i] < 2 {
            0
        } else if b[i + 1] == USB_DT_INTERFACE && i + 6 <= b.len() {
            b[i + 5]
        } else {
            class_from(b, i + b[i])
        }
    } else {
        0
    }
}

/// Class of the first interface of a configuration.
pub fn first_interface_class(b: &[u8]) -> (r: u8)
    requires
        b@.len() <= isize::MAX,
    ensures
        r == class_from(b@, 0),
{
    let mut i: usize = 0;
    while i + 2 <= b.len()
        invariant
            i <= b@.len() + 255,
            b@.len() <= isize::MAX,
            class_from(b@, i as int) == class_from(b@, 0),
        decreases b@.len() + 300 - i,
    {
        let bl: usize = b[i] as usize;
        if bl < 2 {
            return 0;
        }
        if b[i + 1] == USB_DT_INTERFACE && i + 6 <= b.len() {
            return b[i + 5];
        }
        i = i + bl;
    }
    0
}

/// Whether bytes are a descriptor: as long as the first byte says, with a type behind it.
pub open spec fn is_descriptor(d: Seq<u8>) -> bool {
    2 <= d.len() && d[0] == d.len()
}

/// Descriptors of other types are passed over, however long each of them is.
proof fn lemma_class_behind(front: Seq<u8>, before: Seq<Seq<u8>>, rest: Seq<u8>)
    requires
        forall|k: int|
            0 <= k < before.len() ==> is_descriptor(#[trigger] before[k]) && before[k][1] != 4,
    ensures
        class_from(front + joined(before) + rest, front.len() as int) == class_from(
            front + joined(before) + rest,
            (front + joined(before)).len() as int,
        ),
    decreases before.len(),
{
    if before.len() > 0 {
        let b = front + joined(before) + rest;
        let d = before[0];
        let tail = before.drop_first();
        lemma_joined_first(before);
        assert(is_descriptor(d));
        assert forall|k: int| 0 <= k < tail.len() implies is_descriptor(#[trigger] tail[k])
            && tail[k][1] != 4 by {
            assert(tail[k] == before[k + 1]);
        }
        lemma_class_behind(front + d, tail, rest);
        assert(b =~= (front + d) + joined(tail) + rest);
        assert(b[front.len() as int] == d[0]);
        assert(b[front.len() as int + 1] == d[1]);
        assert(class_from(b, front.len() as int) == class_from(b, (front + d).len() as int));
        assert(front + joined(before) =~= (front + d) + joined(tail));
    } else {
        assert(front + joined(before) =~= front);
    }
}

/// In a configuration of descriptors, each as long as its first byte says, the class found is
/// byte 5 of the first one of type 4, whatever the lengths of those before it and whatever comes
/// behind its first six bytes.
pub proof fn law_first_interface_is_found(before: Seq<Seq<u8>>, interface: Seq<u8>, rest: Seq<u8>)
    requires
        forall|k: int|
            0 <= k < before.len() ==> is_descriptor(#[trigger] before[k]) && before[k][1] != 4,
        6 <= interface.len(),
        2 <= interface[0],
        interface[1] == 4,
    ensures
        class_from(joined(before) + interface + rest, 0) == interface[5],
{
    let front = Seq::<u8>::empty();
    let b = joined(before) + interface + rest;
    lemma_class_behind(front, before, interface + rest);
    assert(b =~= front + joined(before) + (interface + rest));
    let i = (front + joined(before)).len() as int;
    assert(b[i] == interface[0] && b[i + 1] == interface[1] && b[i + 5] == interface[5]);
}

/// A configuration of descriptors of other types, with at most one more byte, has no class.
pub proof fn law_no_interface_no_class(descriptors: Seq<Seq<u8>>, rest: Seq<u8>)
    requires
        forall|k: int|
            0 <= k < descriptors.len() ==> is_descriptor(#[trigger] descriptors[k])
                && descriptors[k][1] != 4,
        rest.len() < 2,
    ensures
        class_from(joined(descriptors) + rest, 0) == 0,
{
    let front = Seq::<u8>::empty();
    lemma_class_behind(front, descriptors, rest);
    assert(joined(descriptors) + rest =~= front + joined(descriptors) + rest);
}

/// A device is a camera where its first interface has class 14, and a hub where it has class 9
/// or the names of the virtual hub, 0409 and 55aa; no other device is either.
pub proof fn law_devices_are_told_apart(dev: UsbDevice)
    ensures
        has_driver(dev) <==> dev.iface_class == 14,
        hub_device(dev) <==> dev.dev_class == 9 || (dev.vid == 0x0409 && dev.pid == 0x55aa),
{
}

/// A driver for devices of some class.
pub trait DeviceDriver {
    /// Which devices the driver takes.
    spec fn takes(&self, dev: UsbDevice) -> bool;

    /// What the driver is called.
    spec fn called(&self) -> &'static str;

    /// What the driver is called.
    fn name(&self) -> (r: &'static str)
        ensures
            r == self.called(),
    ;

    /// Whether the driver takes a device.
    fn matches(&self, dev: &UsbDevice) -> (r: bool)
        ensures
            r == self.takes(*dev),
    ;
}

/// The driver of cameras.
pub struct UvcCameraDriver;

/// What the driver of cameras is called.
pub const UVC_DRIVER_NAME: &'static str = "uvc-camera";

impl DeviceDriver for UvcCameraDriver {
    open spec fn takes(&self, dev: UsbDevice) -> bool {
        dev.iface_class == USB_CLASS_VIDEO
    }

    open spec fn called(&self) -> &'static str {
        UVC_DRIVER_NAME
    }

    fn name(&self) -> (r: &'static str) {
        UVC_DRIVER_NAME
    }

    fn matches(&self, dev: &UsbDevice) -> (r: bool) {
        dev.iface_class == USB_CLASS_VIDEO
    }
}

/// Whether some driver takes a device.
pub open spec fn has_driver(dev: UsbDevice) -> bool {
    UvcCameraDriver.takes(dev)
}

/// Whether some driver takes a device; the driver of cameras is the only one.
pub fn find_driver(dev: &UsbDevice) -> (r: bool)
    ensures
        r == has_driver(*dev),
{
    let driver = UvcCameraDriver;
    driver.matches(dev)
}

} // verus!
