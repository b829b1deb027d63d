//! SETUP packets of the video class.

use crate::drivers::usb::setup::{hi8, le_bytes16, lo8};
use vstd::prelude::*;

verus! {

/// A request of the video class: to a streaming interface, or to an entity of a control
/// interface.
#[derive(Clone, Copy, Debug, PartialEq, Eq, Structural)]
pub enum UvcRequest {
    SetCurStreaming { interface: u8, selector: u8, w_length: u16 },
    GetCurStreaming { interface: u8, selector: u8, w_length: u16 },
    GetMaxStreaming { interface: u8, selector: u8, w_length: u16 },
    SetCurControl { interface: u8, entity_id: u8, selector: u8, w_length: u16 },
    GetCurControl { interface: u8, entity_id: u8, selector: u8, w_length: u16 },
    GetDefControl { interface: u8, entity_id: u8, selector: u8, w_length: u16 },
}

/// A class request to an interface: direction, code, selector, addressee and length.
pub open spec fn class_packet(
    kind: u8,
    code: u8,
    selector: u8,
    interface: u8,
    entity: u8,
    len: u16,
) -> Seq<u8> {
    seq![kind, code, 0, selector, interface, entity, lo8(len), hi8(len)]
}

/// The packet that a request stands for.
pub open spec fn uvc_packet(req: UvcRequest) -> Seq<u8> {
    match req {
        UvcRequest::SetCurStreaming { interface, selector, w_length } => class_packet(
            0x21,
            0x01,
            selector,
            interface,
            0,
            w_length,
        ),
        UvcRequest::GetCurStreaming { interface, selector, w_length } => class_packet(
            0xA1,
            0x81,
            selector,
            interface,
            0,
            w_length,
        ),
        UvcRequest::GetMaxStreaming { interface, selector, w_length } => class_packet(
            0xA1,
            0x83,
            selector,
            interface,
            0,
            w_length,
        ),
        UvcRequest::SetCurControl { interface, entity_id, selector, w_length } => class_packet(
            0x21,
            0x01,
            selector,
            interface,
            entity_id,
            w_length,
        ),
        UvcRequest::GetCurControl { interface, entity_id, selector, w_length } => class_packet(
            0xA1,
            0x81,
            selector,
            interface,
            entity_id,
            w_length,
        ),
        UvcRequest::GetDefControl { interface, entity_id, selector, w_length } => class_packet(
            0xA1,
            0x87,
            selector,
            interface,
            entity_id,
            w_length,
        ),
    }
}

/// Builds a class packet.
fn packet(kind: u8, code: u8, selector: u8, interface: u8, entity: u8, len: u16) -> (r: [u8; 8])
    ensures
        r@ == class_packet(kind, code, selector, interface, entity, len),
{
    let (ll, lh) = le_bytes16(len);
    let r: [u8; 8] = [kind, code, 0, selector, interface, entity, ll, lh];
    assert(r@ =~= class_packet(kind, code, selector, interface, entity, len));
    r
}

/// The SETUP packet of a request.
pub fn uvc_setup(req: UvcRequest) -> (r: [u8; 8])
    ensures
        r@ == uvc_packet(req),
{
    match req {
        UvcRequest::SetCurStreaming { interface, selector, w_length } => packet(
            0x21,
            0x01,
            selector,
            interface,
            0,
            w_length,
        ),
        UvcRequest::GetCurStreaming { interface, selector, w_length } => packet(
            0xA1,
            0x81,
            selector,
            interface,
            0,
            w_length,
        ),
        UvcRequest::GetMaxStreaming { interface, selector, w_length } => packet(
            0xA1,
            0x83,
            selector,
            interface,
            0,
            w_length,
        ),
        UvcRequest::SetCurControl { interface, entity_id, selector, w_length } => packet(
            0x21,
            0x01,
            selector,
            interface,
            entity_id,
            w_length,
        ),
        UvcRequest::GetCurControl { interface, entity_id, selector, w_length } => packet(
            0xA1,
            0x81,
            selector,
            interface,
            entity_id,
            w_length,
        ),
        UvcRequest::GetDefControl { interface, entity_id, selector, w_length } => packet(
            0xA1,
            0x87,
            selector,
            interface,
            entity_id,
            w_length,
        ),
    }
}

/// Every request is addressed to an interface as one of the class. Bit 7 of the first byte and of
/// the code say alike whether data comes from the camera; the selector is the high byte of the
/// value, the interface and the entity are the index, and the length comes low byte first.
pub proof fn law_class_requests(interface: u8, entity: u8, selector: u8, len: u16)
    ensures
        ({
            let tail = seq![selector, interface, 0u8, (len % 256) as u8, (len / 256) as u8];
            let unit = seq![selector, interface, entity, (len % 256) as u8, (len / 256) as u8];
            &&& uvc_packet(UvcRequest::SetCurStreaming { interface, selector, w_length: len })
                =~= seq![0x21u8, 0x01, 0] + tail
            &&& uvc_packet(UvcRequest::GetCurStreaming { interface, selector, w_length: len })
                =~= seq![0xA1u8, 0x81, 0] + tail
            &&& uvc_packet(UvcRequest::GetMaxStreaming { interface, selector, w_length: len })
                =~= seq![0xA1u8, 0x83, 0] + tail
            &&& uvc_packet(
                UvcRequest::SetCurControl { interface, entity_id: entity, selector, w_length: len },
            ) =~= seq![0x21u8, 0x01, 0] + unit
            &&& uvc_packet(
                UvcRequest::GetCurControl { interface, entity_id: entity, selector, w_length: len },
            ) =~= seq![0xA1u8, 0x81, 0] + unit
            &&& uvc_packet(
                UvcRequest::GetDefControl { interface, entity_id: entity, selector, w_length: len },
            ) =~= seq![0xA1u8, 0x87, 0] + unit
        }),
{
}

} // verus!
