//! SETUP packets of standard requests, and requests with their data stage.

use vstd::prelude::*;

verus! {

/// The low byte of a word.
pub open spec fn lo8(v: u16) -> u8 {
    (v % 256) as u8
}

/// The high byte of a word.
pub open spec fn hi8(v: u16) -> u8 {
    (v / 256) as u8
}

/// Splits a word into its low and its high byte.
pub fn le_bytes16(v: u16) -> (r: (u8, u8))
    ensures
        r == (lo8(v), hi8(v)),
{
    ((v % 256) as u8, (v / 256) as u8)
}

/// Constructors of standard SETUP packets.
pub struct StdRequest;

impl StdRequest {
    /// `GET_DESCRIPTOR` of the device, all 18 bytes.
    pub fn get_descriptor_device() -> (r: [u8; 8])
        ensures
            r@ == seq![0x80u8, 6, 0, 1, 0, 0, 18, 0],
    {
        let r: [u8; 8] = [0x80, 6, 0x00, 0x01, 0x00, 0x00, 18, 0];
        assert(r@ =~= seq![0x80u8, 6, 0, 1, 0, 0, 18, 0]);
        r
    }

    /// `SET_ADDRESS`.
    pub fn set_address(addr: u8) -> (r: [u8; 8])
        ensures
            r@ == seq![0u8, 5, addr, 0, 0, 0, 0, 0],
    {
        let r: [u8; 8] = [0x00, 5, addr, 0, 0, 0, 0, 0];
        assert(r@ =~= seq![0u8, 5, addr, 0, 0, 0, 0, 0]);
        r
    }

    /// `SET_CONFIGURATION`.
    pub fn set_configuration(cfg: u8) -> (r: [u8; 8])
        ensures
            r@ == seq![0u8, 9, cfg, 0, 0, 0, 0, 0],
    {
        let r: [u8; 8] = [0x00, 9, cfg, 0, 0, 0, 0, 0];
        assert(r@ =~= seq![0u8, 9, cfg, 0, 0, 0, 0, 0]);
        r
    }

    /// `GET_DESCRIPTOR` of a configuration.
    pub fn get_descriptor_configuration(cfg_index: u8, w_length: u16) -> (r: [u8; 8])
        ensures
            r@ == seq![0x80u8, 6, cfg_index, 2, 0, 0, lo8(w_length), hi8(w_length)],
    {
        let (ll, lh) = le_bytes16(w_length);
        let r: [u8; 8] = [0x80, 6, cfg_index, 2, 0x00, 0x00, ll, lh];
        assert(r@ =~= seq![0x80u8, 6, cfg_index, 2, 0, 0, lo8(w_length), hi8(w_length)]);
        r
    }

    /// `SET_INTERFACE`.
    pub fn set_interface(alt: u8, interface: u8) -> (r: [u8; 8])
        ensures
            r@ == seq![1u8, 0x0B, alt, 0, interface, 0, 0, 0],
    {
        let r: [u8; 8] = [0x01, 0x0B, alt, 0, interface, 0, 0, 0];
        assert(r@ =~= seq![1u8, 0x0B, alt, 0, interface, 0, 0, 0]);
        r
    }
}

/// The data stage of a control transfer.
#[derive(Debug)]
pub enum ControlData {
    /// None.
    NoData,
    /// Towards the host.
    In { len: usize },
    /// Towards the device.
    Out { data: Vec<u8> },
}

/// A control transfer.
#[derive(Debug)]
pub struct ControlRequest {
    pub setup: [u8; 8],
    pub data: ControlData,
}

/// Contents of a [`ControlRequest`].
#[verifier::ext_equal]
pub enum RequestView {
    NoData { setup: Seq<u8> },
    In { setup: Seq<u8>, len: int },
    Out { setup: Seq<u8>, data: Seq<u8> },
}

impl View for ControlRequest {
    type V = RequestView;

    open spec fn view(&self) -> RequestView {
        match self.data {
            ControlData::NoData => RequestView::NoData { setup: self.setup@ },
            ControlData::In { len } => RequestView::In { setup: self.setup@, len: len as int },
            ControlData::Out { data } => RequestView::Out { setup: self.setup@, data: data@ },
        }
    }
}

impl ControlRequest {
    /// A transfer without a data stage.
    pub fn no_data(setup: [u8; 8]) -> (r: ControlRequest)
        ensures
            r@ == (RequestView::NoData { setup: setup@ }),
    {
        ControlRequest { setup, data: ControlData::NoData }
    }

    /// A transfer of `len` bytes towards the host.
    pub fn data_in(setup: [u8; 8], len: usize) -> (r: ControlRequest)
        ensures
            r@ == (RequestView::In { setup: setup@, len: len as int }),
    {
        ControlRequest { setup, data: ControlData::In { len } }
    }

    /// A transfer of `data` towards the device.
    pub fn data_out(setup: [u8; 8], data: Vec<u8>) -> (r: ControlRequest)
        ensures
            r@ == (RequestView::Out { setup: setup@, data: data@ }),
    {
        ControlRequest { setup, data: ControlData::Out { data } }
    }
}

} // verus!
