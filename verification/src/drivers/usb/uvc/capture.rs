//! Assembling frames from packets.
//!
//! A frame begins where the frame identifier flips. It counts only where it ends with an end
//! marker: cameras send fragments in between, which are dropped.

use crate::drivers::usb::dwc2::dma::{
    dma_rx_slice, dma_write_at, DMA_BUF_TOTAL, DMA_OFF_UVC_BULK, UVC_BULK_DMA_CAP,
};
use crate::drivers::usb::dwc2::isoch::IsochInEp;
use crate::drivers::usb::uvc::session::UvcCamera;
use crate::error::{UsbError, UsbResult};
use crate::pieces::joined;
use vstd::prelude::*;

verus! {

/// Room for one microframe.
pub const UVC_WORK_AREA_BYTES: usize = 4096;

/// Where the frame under assembly begins in the window.
pub const UVC_ASSEMBLED_JPEG_DMA_OFF: usize = DMA_OFF_UVC_BULK + UVC_WORK_AREA_BYTES;

/// Room for a frame.
pub const JPEG_CAP: usize = UVC_BULK_DMA_CAP - UVC_WORK_AREA_BYTES;

/// Fragments in a row that may come in place of a frame.
pub const CAPTURE_ROUNDS: u32 = 4;

/// Stands for no frame identifier.
pub const NO_FID: u8 = 0xFF;

pub const ERR_OVERFLOW: &'static str = "video assemble overflow";

// ---------------------------------------------------------------------------
// Packets
// ---------------------------------------------------------------------------
/// Whether a packet has a header that lies within it.
pub open spec fn packet_ok(p: Seq<u8>) -> bool {
    p.len() > 0 && 2 <= p[0] <= p.len()
}

/// Whether the packet ends a frame.
pub open spec fn ends_frame(p: Seq<u8>) -> bool {
    (p[1] / 2) % 2 == 1
}

/// The frame identifier of a packet.
pub open spec fn fid_of(p: Seq<u8>) -> u8 {
    p[1] % 2
}

/// What a packet carries.
pub open spec fn payload_of(p: Seq<u8>) -> Seq<u8> {
    p.subrange(p[0] as int, p.len() as int)
}

/// A packet with a header.
pub struct UvcPacket<'a> {
    pkt: &'a [u8],
    hlen: usize,
}

impl<'a> View for UvcPacket<'a> {
    type V = Seq<u8>;

    closed spec fn view(&self) -> Seq<u8> {
        self.pkt@
    }
}

impl<'a> UvcPacket<'a> {
    /// Whether the header is the packet's own.
    pub closed spec fn wf(&self) -> bool {
        packet_ok(self.pkt@) && self.hlen == self.pkt@[0]
    }

    /// Reads the header of a packet.
    pub fn new(pkt: &'a [u8]) -> (r: Option<UvcPacket<'a>>)
        ensures
            r is Some <==> packet_ok(pkt@),
            r matches Some(p) ==> p.wf() && p@ == pkt@,
    {
        if pkt.len() == 0 {
            return None;
        }
        let hlen: usize = pkt[0] as usize;
        if hlen < 2 || hlen > pkt.len() {
            return None;
        }
        Some(UvcPacket { pkt, hlen })
    }

    /// Whether the packet ends a frame.
    pub fn eof(&self) -> (r: bool)
        requires
            self.wf(),
        ensures
            r == ends_frame(self@),
    {
        (self.pkt[1] / 2) % 2 == 1
    }

    /// The frame identifier.
    pub fn fid(&self) -> (r: u8)
        requires
            self.wf(),
        ensures
            r == fid_of(self@),
            r <= 1,
    {
        self.pkt[1] % 2
    }

    /// What the packet carries.
    pub fn payload(&self) -> (r: &'a [u8])
        requires
            self.wf(),
        ensures
            r@ == payload_of(self@),
    {
        vstd::slice::slice_subrange(self.pkt, self.hlen, self.pkt.len())
    }
}

// ---------------------------------------------------------------------------
// One frame
// ---------------------------------------------------------------------------
/// Where the search for a frame is.
#[derive(Clone, Copy, Debug, PartialEq, Eq, Structural)]
pub enum FramePhase {
    /// Before the identifier flips; the identifier seen so far, if any.
    Seek { prev: Option<u8> },
    /// Within a frame, with its identifier.
    Fill { fid: u8 },
}

/// The search for a frame.
#[derive(Clone, Copy, Debug, PartialEq, Eq, Structural)]
pub struct FrameSearch {
    pub phase: FramePhase,
    pub jpeg_len: usize,
    /// Whether a frame has begun with a start marker.
    pub saw_data: bool,
}

/// Contents of a [`FrameSearch`], with the bytes that it has put into the window.
#[verifier::ext_equal]
pub struct SearchView {
    pub phase: FramePhase,
    pub jpeg: Seq<u8>,
    pub saw_data: bool,
}

/// The bytes of the frame under assembly.
pub open spec fn assembled(window: Seq<u8>, len: int) -> Seq<u8> {
    window.subrange(
        UVC_ASSEMBLED_JPEG_DMA_OFF as int,
        UVC_ASSEMBLED_JPEG_DMA_OFF + len,
    )
}

/// The search together with the window.
pub open spec fn search_view(s: FrameSearch, window: Seq<u8>) -> SearchView {
    SearchView {
        phase: s.phase,
        jpeg: assembled(window, s.jpeg_len as int),
        saw_data: s.saw_data,
    }
}

/// What a packet leads to.
#[derive(Clone, Copy, Debug, PartialEq, Eq)]
pub enum FrameStep {
    /// Read the next packet.
    More,
    /// The frame with this identifier is complete.
    Complete { len: usize, fid: u8 },
    /// The frame with this identifier has ended without an end marker.
    Fragment { fid: u8 },
    /// The search is over.
    Failed(UsbError),
}

/// Whether data begins with a start marker.
pub open spec fn has_soi(s: Seq<u8>) -> bool {
    s.len() >= 2 && s[0] == 0xff && s[1] == 0xd8
}

/// Whether data ends with an end marker.
pub open spec fn has_eoi(s: Seq<u8>) -> bool {
    s.len() >= 2 && s[s.len() - 2] == 0xff && s[s.len() - 1] == 0xd9
}

/// The frame with one more payload: before the first data only a payload with a start marker
/// counts.
pub open spec fn appended(v: SearchView, payload: Seq<u8>) -> Result<SearchView, UsbError> {
    if payload.len() == 0 || (!v.saw_data && !has_soi(payload)) {
        Ok(v)
    } else if v.jpeg.len() + payload.len() > JPEG_CAP {
        Err(UsbError::Hardware(ERR_OVERFLOW))
    } else {
        Ok(SearchView { jpeg: v.jpeg + payload, saw_data: true, ..v })
    }
}

/// Whether the frame is complete.
pub open spec fn complete(v: SearchView) -> bool {
    v.saw_data && has_eoi(v.jpeg)
}

/// A packet is added to the frame; where it ends the frame, the frame is complete or a fragment.
pub open spec fn filled(v: SearchView, p: Seq<u8>) -> (SearchView, FrameStep) {
    match appended(v, payload_of(p)) {
        Err(e) => (v, FrameStep::Failed(e)),
        Ok(w) => (
            w,
            if !ends_frame(p) {
                FrameStep::More
            } else if complete(w) {
                FrameStep::Complete { len: w.jpeg.len() as usize, fid: fid_of(p) }
            } else {
                FrameStep::Fragment { fid: fid_of(p) }
            },
        ),
    }
}

/// A frame without contents.
pub open spec fn empty_frame(fid: u8) -> SearchView {
    SearchView {
        phase: FramePhase::Fill { fid },
        jpeg: Seq::empty(),
        saw_data: false,
    }
}

/// What a packet leads to. Packets without a proper header are passed over. A flip of the
/// identifier begins a frame; within a frame it ends it where it is complete, and drops it
/// otherwise.
pub open spec fn search_next(v: SearchView, p: Seq<u8>) -> (SearchView, FrameStep) {
    if !packet_ok(p) {
        (v, FrameStep::More)
    } else {
        match v.phase {
            FramePhase::Seek { prev: None } => (
                SearchView { phase: FramePhase::Seek { prev: Some(fid_of(p)) }, ..v },
                FrameStep::More,
            ),
            FramePhase::Seek { prev: Some(q) } => if q != fid_of(p) {
                filled(empty_frame(fid_of(p)), p)
            } else {
                (v, FrameStep::More)
            },
            FramePhase::Fill { fid } => if fid_of(p) != fid {
                if complete(v) {
                    (v, FrameStep::Complete { len: v.jpeg.len() as usize, fid })
                } else {
                    filled(empty_frame(fid_of(p)), p)
                }
            } else {
                filled(v, p)
            },
        }
    }
}

/// Whether a search is in order: data begins with a start marker, and fits.
pub open spec fn search_wf(v: SearchView) -> bool {
    &&& if v.saw_data {
        has_soi(v.jpeg)
    } else {
        v.jpeg.len() == 0
    }
    &&& v.jpeg.len() <= JPEG_CAP
}

/// A packet keeps the search in order, and a complete frame begins with a start marker, ends with
/// an end marker, and is as long as was said.
pub proof fn law_complete_frame_is_delimited(v: SearchView, p: Seq<u8>)
    requires
        search_wf(v),
    ensures
        search_wf(search_next(v, p).0),
        search_next(v, p).1 matches FrameStep::Complete { len, fid } ==> {
            let jpeg = search_next(v, p).0.jpeg;
            has_soi(jpeg) && has_eoi(jpeg) && jpeg.len() == len
        },
{
}

/// Whether a window differs from an earlier one only where frames are assembled.
pub open spec fn rest_kept(before: Seq<u8>, after: Seq<u8>) -> bool {
    &&& after.len() == before.len()
    &&& forall|i: int|
        0 <= i < before.len() && !(UVC_ASSEMBLED_JPEG_DMA_OFF <= i < UVC_ASSEMBLED_JPEG_DMA_OFF
            + JPEG_CAP) ==> #[trigger] after[i] == before[i]
}

impl FrameSearch {
    /// Whether the search is in order.
    pub open spec fn wf(&self, window: Seq<u8>) -> bool {
        &&& window.len() == DMA_BUF_TOTAL
        &&& self.jpeg_len <= JPEG_CAP
        &&& search_wf(search_view(*self, window))
    }

    /// A search that has just begun, with the identifier of the last frame if there was one.
    pub fn new(prev: Option<u8>) -> (s: FrameSearch)
        ensures
            s == (FrameSearch { phase: FramePhase::Seek { prev }, jpeg_len: 0, saw_data: false }),
    {
        FrameSearch { phase: FramePhase::Seek { prev }, jpeg_len: 0, saw_data: false }
    }

    /// Whether what is assembled ends with an end marker.
    fn tail_is_eoi(&self, window: &Vec<u8>) -> (r: bool)
        requires
            self.wf(window@),
            self.saw_data,
        ensures
            r == has_eoi(search_view(*self, window@).jpeg),
    {
        match dma_rx_slice(
            window.as_slice(),
            UVC_ASSEMBLED_JPEG_DMA_OFF + (self.jpeg_len - 2),
            2,
        ) {
            Some(t) => t[0] == 0xff && t[1] == 0xd9,
            None => false,
        }
    }

    /// Adds a payload to the frame.
    fn append(&mut self, window: &mut Vec<u8>, payload: &[u8]) -> (r: UsbResult<()>)
        requires
            old(self).wf(old(window)@),
        ensures
            final(self).wf(final(window)@),
            rest_kept(old(window)@, final(window)@),
            match appended(search_view(*old(self), old(window)@), payload@) {
                Ok(w) => r is Ok && search_view(*final(self), final(window)@) == w,
                Err(e) => r == Err::<(), UsbError>(e) && search_view(
                    *final(self),
                    final(window)@,
                ) == search_view(*old(self), old(window)@),
            },
    {
        if payload.len() == 0 {
            return Ok(());
        }
        if !self.saw_data {
            if payload.len() < 2 || payload[0] != 0xff || payload[1] != 0xd8 {
                return Ok(());
            }
        }
        if payload.len() > JPEG_CAP || self.jpeg_len + payload.len() > JPEG_CAP {
            return Err(UsbError::Hardware(ERR_OVERFLOW));
        }
        let ghost before = search_view(*self, window@);
        match dma_write_at(window, UVC_ASSEMBLED_JPEG_DMA_OFF + self.jpeg_len, payload) {
            Ok(_) => {},
            Err(e) => {
                return Err(e);
            },
        }
        self.jpeg_len = self.jpeg_len + payload.len();
        self.saw_data = true;
        assert(search_view(*self, window@).jpeg =~= before.jpeg + payload@);
        Ok(())
    }

    /// Adds a packet to the frame.
    fn fill(&mut self, window: &mut Vec<u8>, p: &UvcPacket) -> (r: FrameStep)
        requires
            old(self).wf(old(window)@),
            p.wf(),
            old(self).phase is Fill,
        ensures
            final(self).wf(final(window)@),
            rest_kept(old(window)@, final(window)@),
            (search_view(*final(self), final(window)@), r) == filled(
                search_view(*old(self), old(window)@),
                p@,
            ),
    {
        match self.append(window, p.payload()) {
            Err(e) => {
                return FrameStep::Failed(e);
            },
            Ok(_) => {},
        }
        if !p.eof() {
            return FrameStep::More;
        }
        if self.saw_data && self.tail_is_eoi(window) {
            return FrameStep::Complete { len: self.jpeg_len, fid: p.fid() };
        }
        FrameStep::Fragment { fid: p.fid() }
    }

    /// Takes a packet; the frame is assembled in the window.
    pub fn try_frame(&mut self, window: &mut Vec<u8>, pkt: &[u8]) -> (r: FrameStep)
        requires
            old(self).wf(old(window)@),
        ensures
            final(self).wf(final(window)@),
            rest_kept(old(window)@, final(window)@),
            (search_view(*final(self), final(window)@), r) == search_next(
                search_view(*old(self), old(window)@),
                pkt@,
            ),
    {
        let p: UvcPacket = match UvcPacket::new(pkt) {
            None => {
                return FrameStep::More;
            },
            Some(p) => p,
        };
        let pf: u8 = p.fid();
        match self.phase {
            FramePhase::Seek { prev } => match prev {
                None => {
                    self.phase = FramePhase::Seek { prev: Some(pf) };
                    FrameStep::More
                },
                Some(q) => {
                    if q != pf {
                        self.restart(window, pf);
                        self.fill(window, &p)
                    } else {
                        FrameStep::More
                    }
                },
            },
            FramePhase::Fill { fid } => {
                if pf != fid {
                    if self.saw_data && self.tail_is_eoi(window) {
                        return FrameStep::Complete { len: self.jpeg_len, fid };
                    }
                    self.restart(window, pf);
                }
                self.fill(window, &p)
            },
        }
    }

    /// Drops what is assembled.
    fn restart(&mut self, window: &Vec<u8>, fid: u8)
        requires
            window@.len() == DMA_BUF_TOTAL,
        ensures
            final(self).wf(window@),
            final(self).phase is Fill,
            search_view(*final(self), window@) == empty_frame(fid),
    {
        self.phase = FramePhase::Fill { fid };
        self.jpeg_len = 0;
        self.saw_data = false;
        assert(search_view(*self, window@).jpeg =~= Seq::empty());
    }
}

// ---------------------------------------------------------------------------
// Up to a few fragments, then a frame
// ---------------------------------------------------------------------------
/// The capture of a frame.
#[derive(Clone, Copy, Debug, PartialEq, Eq, Structural)]
pub struct Capture {
    /// The endpoint to read.
    pub iso: IsochInEp,
    /// Fragments so far.
    pub rounds: u32,
    pub search: FrameSearch,
}

/// What a packet, or the lack of one, leads to.
#[derive(Clone, Copy, Debug, PartialEq, Eq)]
pub enum CaptureStep {
    /// Read the next packet.
    More,
    /// The capture is over; the identifier is kept for the next one.
    Finished { result: UsbResult<usize>, fid: Option<u8> },
}

/// The identifier to start from: only 0 and 1 are identifiers.
pub open spec fn start_fid(last: u8) -> Option<u8> {
    if last <= 1 {
        Some(last)
    } else {
        None
    }
}

/// Contents of a [`Capture`], with the bytes that it has put into the window.
#[verifier::ext_equal]
pub struct CaptureView {
    pub rounds: int,
    pub search: SearchView,
}

/// The capture together with the window.
pub open spec fn capture_view(c: Capture, window: Seq<u8>) -> CaptureView {
    CaptureView { rounds: c.rounds as int, search: search_view(c.search, window) }
}

/// A search for the frame behind the one with this identifier.
pub open spec fn seek_behind(fid: u8) -> SearchView {
    SearchView {
        phase: FramePhase::Seek { prev: Some(fid) },
        jpeg: Seq::empty(),
        saw_data: false,
    }
}

/// What a packet leads to: behind a fragment the next frame is looked for, unless there were too
/// many.
pub open spec fn capture_next(c: CaptureView, p: Seq<u8>) -> (CaptureView, CaptureStep) {
    let (v, s) = search_next(c.search, p);
    match s {
        FrameStep::More => (CaptureView { search: v, ..c }, CaptureStep::More),
        FrameStep::Complete { len, fid } => (
            CaptureView { search: v, ..c },
            CaptureStep::Finished { result: Ok(len), fid: Some(fid) },
        ),
        FrameStep::Fragment { fid } => if c.rounds + 1 < CAPTURE_ROUNDS {
            (
                CaptureView { rounds: c.rounds + 1, search: seek_behind(fid) },
                CaptureStep::More,
            )
        } else {
            (
                CaptureView { rounds: c.rounds + 1, search: v },
                CaptureStep::Finished { result: Err(UsbError::Timeout), fid: None },
            )
        },
        FrameStep::Failed(e) => (
            CaptureView { search: v, ..c },
            CaptureStep::Finished { result: Err(e), fid: None },
        ),
    }
}

impl UvcCamera {
    /// Begins to capture a frame after one with identifier `last_fid`.
    pub fn capture_frame(&self, last_fid: u8) -> (c: Capture)
        ensures
            c.iso == (IsochInEp {
                dev: self.control_ep.dev,
                ep_num: self.sel.ep_num as u32,
                mps_raw: self.sel.mps_raw,
            }),
            c.rounds == 0,
            c.search == (FrameSearch {
                phase: FramePhase::Seek { prev: start_fid(last_fid) },
                jpeg_len: 0,
                saw_data: false,
            }),
    {
        let init_fid: Option<u8> = if last_fid <= 1 {
            Some(last_fid)
        } else {
            None
        };
        Capture {
            iso: IsochInEp::new(self.control_ep.dev(), self.sel.ep_num, self.sel.mps_raw),
            rounds: 0,
            search: FrameSearch::new(init_fid),
        }
    }
}

impl Capture {
    /// Whether the capture is in order and not over.
    pub open spec fn wf(&self, window: Seq<u8>) -> bool {
        self.rounds < CAPTURE_ROUNDS && self.search.wf(window)
    }

    /// Takes a packet. A frame that is handed out begins with a start marker and ends with an end
    /// marker.
    pub fn packet(&mut self, window: &mut Vec<u8>, pkt: &[u8]) -> (r: CaptureStep)
        requires
            old(self).wf(old(window)@),
        ensures
            r is More ==> final(self).wf(final(window)@),
            rest_kept(old(window)@, final(window)@),
            final(self).iso == old(self).iso,
            (capture_view(*final(self), final(window)@), r) == capture_next(
                capture_view(*old(self), old(window)@),
                pkt@,
            ),
            r matches CaptureStep::Finished { result: Ok(len), fid } ==> {
                let jpeg = assembled(final(window)@, len as int);
                jpeg.len() == len && has_soi(jpeg) && has_eoi(jpeg)
            },
    {
        proof {
            law_complete_frame_is_delimited(search_view(self.search, window@), pkt@);
        }
        match self.search.try_frame(window, pkt) {
            FrameStep::More => CaptureStep::More,
            FrameStep::Complete { len, fid } => {
                assert(self.search.jpeg_len == len);
                CaptureStep::Finished { result: Ok(len), fid: Some(fid) }
            },
            FrameStep::Fragment { fid } => {
                self.rounds = self.rounds + 1;
                if self.rounds < CAPTURE_ROUNDS {
                    self.search = FrameSearch::new(Some(fid));
                    assert(search_view(self.search, window@).jpeg =~= Seq::empty());
                    CaptureStep::More
                } else {
                    CaptureStep::Finished { result: Err(UsbError::Timeout), fid: None }
                }
            },
            FrameStep::Failed(e) => CaptureStep::Finished { result: Err(e), fid: None },
        }
    }

    /// Takes the news that no packet could be read; a silent camera is not waited for again.
    pub fn read_failed(&self, e: UsbError) -> (r: CaptureStep)
        ensures
            r == (CaptureStep::Finished { result: Err(e), fid: None }),
    {
        CaptureStep::Finished { result: Err(e), fid: None }
    }
}

// ---------------------------------------------------------------------------
// Streams of packets
// ---------------------------------------------------------------------------
/// The capture after packets, and what the last of them led to.
pub open spec fn capture_run(c: CaptureView, ps: Seq<Seq<u8>>) -> (CaptureView, CaptureStep)
    decreases ps.len(),
{
    if ps.len() == 0 {
        (c, CaptureStep::More)
    } else {
        let before = capture_run(c, ps.drop_last());
        if before.1 is More {
            capture_next(before.0, ps.last())
        } else {
            before
        }
    }
}

/// The data that packets carry: payloads from the first one with a start marker on.
pub open spec fn gathered(ps: Seq<Seq<u8>>) -> Seq<u8>
    decreases ps.len(),
{
    if ps.len() == 0 {
        Seq::empty()
    } else {
        let before = gathered(ps.drop_last());
        let p = ps.last();
        if !packet_ok(p) || (before.len() == 0 && !has_soi(payload_of(p))) {
            before
        } else {
            before + payload_of(p)
        }
    }
}

/// Whether there is a packet with a proper header.
pub open spec fn heard(ps: Seq<Seq<u8>>) -> bool
    decreases ps.len(),
{
    ps.len() > 0 && (packet_ok(ps.last()) || heard(ps.drop_last()))
}

/// Whether packets belong to a frame with this identifier and do not end it; those without a
/// proper header count for nothing.
pub open spec fn within_frame(ps: Seq<Seq<u8>>, fid: u8) -> bool {
    forall|k: int|
        0 <= k < ps.len() && packet_ok(#[trigger] ps[k]) ==> fid_of(ps[k]) == fid && !ends_frame(
            ps[k],
        )
}

/// Whether packets are a frame with this identifier, and the last of them ends it.
pub open spec fn ended_frame(ps: Seq<Seq<u8>>, fid: u8) -> bool {
    &&& ps.len() > 0
    &&& within_frame(ps.drop_last(), fid)
    &&& packet_ok(ps.last())
    &&& fid_of(ps.last()) == fid
    &&& ends_frame(ps.last())
}

/// Whether packets are a frame that fits and has an end marker.
pub open spec fn whole_frame(ps: Seq<Seq<u8>>, fid: u8) -> bool {
    ended_frame(ps, fid) && has_eoi(gathered(ps)) && gathered(ps).len() <= JPEG_CAP
}

/// Whether packets are a frame that fits and lacks the end marker; the last packet need not end
/// it.
pub open spec fn broken_frame(ps: Seq<Seq<u8>>, fid: u8) -> bool {
    &&& ended_frame(ps, fid) || (within_frame(ps, fid) && heard(ps))
    &&& !has_eoi(gathered(ps))
    &&& gathered(ps).len() <= JPEG_CAP
}

/// Whether a capture waits for a frame behind one with this identifier.
pub open spec fn awaits_flip(c: CaptureView, fid: u8) -> bool {
    match c.search.phase {
        FramePhase::Seek { prev } => prev == Some(fid),
        FramePhase::Fill { fid: f } => f == fid && !complete(c.search),
    }
}

/// A frame under assembly.
pub open spec fn frame_so_far(fid: u8, jpeg: Seq<u8>) -> SearchView {
    SearchView { phase: FramePhase::Fill { fid }, jpeg, saw_data: jpeg.len() > 0 }
}

/// Packets within a frame are gathered.
proof fn lemma_within_frame(c: CaptureView, q: u8, ps: Seq<Seq<u8>>, fid: u8)
    requires
        awaits_flip(c, q),
        q != fid,
        within_frame(ps, fid),
        gathered(ps).len() <= JPEG_CAP,
    ensures
        capture_run(c, ps).1 is More,
        capture_run(c, ps).0 == (if heard(ps) {
            CaptureView { rounds: c.rounds, search: frame_so_far(fid, gathered(ps)) }
        } else {
            c
        }),
        !heard(ps) ==> gathered(ps).len() == 0,
    decreases ps.len(),
{
    if ps.len() > 0 {
        let rest = ps.drop_last();
        let p = ps.last();
        assert(forall|k: int| 0 <= k < rest.len() ==> rest[k] == ps[k]);
        assert(p == ps[ps.len() - 1]);
        lemma_within_frame(c, q, rest, fid);
        if packet_ok(p) {
            assert(gathered(rest) + Seq::<u8>::empty() =~= gathered(rest));
            if payload_of(p).len() == 0 {
                assert(payload_of(p) =~= Seq::<u8>::empty());
            }
            assert(Seq::<u8>::empty() + payload_of(p) =~= payload_of(p));
            assert(capture_run(c, ps).0.search =~= frame_so_far(fid, gathered(ps)));
        }
    }
}

/// The packet that ends a frame decides on it.
proof fn lemma_ended_frame(c: CaptureView, q: u8, ps: Seq<Seq<u8>>, fid: u8)
    requires
        awaits_flip(c, q),
        q != fid,
        ended_frame(ps, fid),
        gathered(ps).len() <= JPEG_CAP,
    ensures
        has_eoi(gathered(ps)) ==> capture_run(c, ps).1 == (CaptureStep::Finished {
            result: Ok(gathered(ps).len() as usize),
            fid: Some(fid),
        }) && capture_run(c, ps).0.search.jpeg == gathered(ps),
        !has_eoi(gathered(ps)) && c.rounds + 1 < CAPTURE_ROUNDS ==> capture_run(c, ps) == (
            CaptureView { rounds: c.rounds + 1, search: seek_behind(fid) },
            CaptureStep::More,
        ),
        !has_eoi(gathered(ps)) && c.rounds + 1 >= CAPTURE_ROUNDS ==> capture_run(c, ps).1 == (
        CaptureStep::Finished { result: Err(UsbError::Timeout), fid: None }),
{
    let rest = ps.drop_last();
    let p = ps.last();
    lemma_within_frame(c, q, rest, fid);
    let before = capture_run(c, rest).0;
    assert(Seq::<u8>::empty() + payload_of(p) =~= payload_of(p));
    if payload_of(p).len() == 0 {
        assert(gathered(rest) + payload_of(p) =~= gathered(rest));
    }
    assert(search_next(before.search, p).0 =~= frame_so_far(fid, gathered(ps)));
}

/// A capture goes through packets one part after the other.
proof fn lemma_run_in_parts(c: CaptureView, a: Seq<Seq<u8>>, b: Seq<Seq<u8>>)
    requires
        capture_run(c, a).1 is More,
    ensures
        capture_run(c, a + b) == capture_run(capture_run(c, a).0, b),
    decreases b.len(),
{
    if b.len() == 0 {
        assert(a + b =~= a);
    } else {
        lemma_run_in_parts(c, a, b.drop_last());
        assert((a + b).drop_last() =~= a + b.drop_last());
        assert((a + b).last() == b.last());
    }
}

/// The identifier of the `n`-th frame behind one with identifier `q`: they alternate.
pub open spec fn nth_fid(q: u8, n: int) -> u8 {
    ((q + n) % 2) as u8
}

/// All packets of some frames.
pub open spec fn all_packets(frames: Seq<Seq<Seq<u8>>>) -> Seq<Seq<u8>>
    decreases frames.len(),
{
    if frames.len() == 0 {
        Seq::empty()
    } else {
        all_packets(frames.drop_last()) + frames.last()
    }
}

/// Behind frames that lack the end marker a capture waits for the next frame.
proof fn lemma_broken_frames(c: CaptureView, q: u8, broken: Seq<Seq<Seq<u8>>>)
    requires
        q <= 1,
        awaits_flip(c, q),
        c.rounds + broken.len() < CAPTURE_ROUNDS,
        forall|k: int|
            0 <= k < broken.len() ==> broken_frame(#[trigger] broken[k], nth_fid(q, k + 1)),
    ensures
        capture_run(c, all_packets(broken)).1 is More,
        awaits_flip(
            capture_run(c, all_packets(broken)).0,
            nth_fid(q, broken.len() as int),
        ),
        c.rounds <= capture_run(c, all_packets(broken)).0.rounds <= c.rounds + broken.len(),
    decreases broken.len(),
{
    if broken.len() > 0 {
        let rest = broken.drop_last();
        let ps = broken.last();
        assert(forall|k: int| 0 <= k < rest.len() ==> rest[k] == broken[k]);
        lemma_broken_frames(c, q, rest);
        let d = capture_run(c, all_packets(rest)).0;
        let before = nth_fid(q, rest.len() as int);
        let fid = nth_fid(q, broken.len() as int);
        assert(broken_frame(broken[broken.len() - 1], fid));
        lemma_run_in_parts(c, all_packets(rest), ps);
        if ended_frame(ps, fid) {
            lemma_ended_frame(d, before, ps, fid);
        } else {
            lemma_within_frame(d, before, ps, fid);
        }
    }
}

/// Frames that lack the end marker are passed over: a whole frame behind fewer than four of them
/// is handed out, with its own data, length and identifier.
pub proof fn law_frame_behind_fragments(
    c: CaptureView,
    q: u8,
    broken: Seq<Seq<Seq<u8>>>,
    frame: Seq<Seq<u8>>,
)
    requires
        q <= 1,
        awaits_flip(c, q),
        c.rounds + broken.len() < CAPTURE_ROUNDS,
        forall|k: int|
            0 <= k < broken.len() ==> broken_frame(#[trigger] broken[k], nth_fid(q, k + 1)),
        whole_frame(frame, nth_fid(q, broken.len() as int + 1)),
    ensures
        ({
            let (d, step) = capture_run(c, all_packets(broken) + frame);
            &&& step == (CaptureStep::Finished {
                result: Ok(gathered(frame).len() as usize),
                fid: Some(nth_fid(q, broken.len() as int + 1)),
            })
            &&& d.search.jpeg == gathered(frame)
        }),
{
    lemma_broken_frames(c, q, broken);
    lemma_run_in_parts(c, all_packets(broken), frame);
    lemma_ended_frame(
        capture_run(c, all_packets(broken)).0,
        nth_fid(q, broken.len() as int),
        frame,
        nth_fid(q, broken.len() as int + 1),
    );
}

/// Packets time a capture out only where the last of the rounds ends with a fragment.
pub proof fn law_timeout_comes_last(c: CaptureView, p: Seq<u8>)
    requires
        capture_next(c, p).1 matches CaptureStep::Finished { result: Err(e), fid } && e
            == UsbError::Timeout,
    ensures
        c.rounds + 1 >= CAPTURE_ROUNDS,
        search_next(c.search, p).1 is Fragment,
{
}

// ---------------------------------------------------------------------------
// Frames in pieces
// ---------------------------------------------------------------------------
/// Whether bytes are a packet header, as long as its first byte says, whose flags carry this
/// identifier in bit 0 and in bit 1 whether the packet ends its frame.
pub open spec fn is_header(h: Seq<u8>, fid: u8, end: bool) -> bool {
    &&& 2 <= h.len()
    &&& h[0] == h.len()
    &&& h[1] % 2 == fid
    &&& (h[1] / 2 % 2 == 1) == end
}

/// Pieces sent each behind its own header.
pub open spec fn sent(headers: Seq<Seq<u8>>, pieces: Seq<Seq<u8>>) -> Seq<Seq<u8>> {
    Seq::new(pieces.len(), |k: int| headers[k] + pieces[k])
}

/// Whether headers belong to the packets of one frame with this identifier; where `end` is set,
/// the last of them and no other ends the frame.
pub open spec fn frame_headers(headers: Seq<Seq<u8>>, fid: u8, end: bool) -> bool {
    forall|k: int|
        0 <= k < headers.len() ==> is_header(
            #[trigger] headers[k],
            fid,
            end && k == headers.len() - 1,
        )
}

/// Whether data begins with the bytes ff d8.
pub open spec fn starts_image(s: Seq<u8>) -> bool {
    2 <= s.len() && s[0] == 0xff && s[1] == 0xd8
}

/// Whether data ends with the bytes ff d9.
pub open spec fn ends_image(s: Seq<u8>) -> bool {
    2 <= s.len() && s[s.len() - 2] == 0xff && s[s.len() - 1] == 0xd9
}

/// Whether a capture has taken nothing yet and knows the identifier of the frame before.
pub open spec fn waits_behind(c: CaptureView, prev: u8) -> bool {
    c.search.phase == (FramePhase::Seek { prev: Some(prev) })
}

/// A packet carries exactly what lies behind its header, whatever the length of the header, and
/// the header alone says which frame it belongs to and whether it ends it.
pub proof fn law_payload_lies_behind_header(h: Seq<u8>, d: Seq<u8>, fid: u8, end: bool)
    requires
        is_header(h, fid, end),
    ensures
        packet_ok(h + d),
        payload_of(h + d) == d,
        fid_of(h + d) == fid,
        ends_frame(h + d) == end,
{
    assert(payload_of(h + d) =~= d);
}

/// Bytes that are not a whole header with data behind it change nothing.
pub proof fn law_packet_without_header_is_passed_over(c: CaptureView, p: Seq<u8>)
    requires
        p.len() == 0 || p[0] < 2 || p[0] > p.len(),
    ensures
        capture_next(c, p) == (c, CaptureStep::More),
{
}

/// What packets carry is what was cut into pieces.
proof fn lemma_sent(headers: Seq<Seq<u8>>, pieces: Seq<Seq<u8>>, fid: u8, end: bool)
    requires
        headers.len() == pieces.len(),
        pieces.len() > 0,
        frame_headers(headers, fid, end),
        starts_image(pieces[0]),
    ensures
        gathered(sent(headers, pieces)) == joined(pieces),
        joined(pieces).len() >= 2,
        within_frame(sent(headers, pieces).drop_last(), fid),
        heard(sent(headers, pieces)),
        end ==> ended_frame(sent(headers, pieces), fid),
        !end ==> within_frame(sent(headers, pieces), fid),
    decreases pieces.len(),
{
    let ps = sent(headers, pieces);
    let last = pieces.len() - 1;
    assert forall|k: int| 0 <= k < ps.len() implies #[trigger] packet_ok(ps[k]) && payload_of(ps[k])
        == pieces[k] && fid_of(ps[k]) == fid && ends_frame(ps[k]) == (end && k == last) by {
        law_payload_lies_behind_header(headers[k], pieces[k], fid, end && k == last);
    }
    assert(packet_ok(ps[last]));
    assert(ps.last() == ps[last]);
    let front = ps.drop_last();
    assert forall|k: int| 0 <= k < front.len() && packet_ok(#[trigger] front[k]) implies fid_of(
        front[k],
    ) == fid && !ends_frame(front[k]) by {
        assert(packet_ok(ps[k]));
    }
    if last == 0 {
        assert(front =~= Seq::<Seq<u8>>::empty());
        assert(pieces.drop_last() =~= Seq::<Seq<u8>>::empty());
        reveal_with_fuel(joined, 2);
        reveal_with_fuel(gathered, 2);
        assert(gathered(ps) =~= joined(pieces));
    } else {
        let (hs, ds) = (headers.drop_last(), pieces.drop_last());
        assert forall|k: int| 0 <= k < hs.len() implies is_header(#[trigger] hs[k], fid, false) by {
            assert(hs[k] == headers[k]);
        }
        lemma_sent(hs, ds, fid, false);
        assert(front =~= sent(hs, ds));
    }
}

/// A frame cut into pieces, each sent behind a header of its own length, with one identifier and
/// the end on the last, is handed out as the pieces joined, with that identifier.
pub proof fn law_frame_in_pieces(
    c: CaptureView,
    prev: u8,
    fid: u8,
    headers: Seq<Seq<u8>>,
    pieces: Seq<Seq<u8>>,
)
    requires
        waits_behind(c, prev),
        prev != fid,
        headers.len() == pieces.len(),
        pieces.len() > 0,
        frame_headers(headers, fid, true),
        starts_image(pieces[0]),
        ends_image(joined(pieces)),
        joined(pieces).len() <= JPEG_CAP,
    ensures
        ({
            let (d, step) = capture_run(c, sent(headers, pieces));
            &&& step == (CaptureStep::Finished {
                result: Ok(joined(pieces).len() as usize),
                fid: Some(fid),
            })
            &&& d.search.jpeg == joined(pieces)
        }),
{
    lemma_sent(headers, pieces, fid, true);
    lemma_ended_frame(c, prev, sent(headers, pieces), fid);
}

/// A frame whose last piece does not end it is handed out with the first packet of the frame
/// behind it, under its own identifier and without anything of that packet.
pub proof fn law_frame_ends_with_the_next(
    c: CaptureView,
    prev: u8,
    fid: u8,
    headers: Seq<Seq<u8>>,
    pieces: Seq<Seq<u8>>,
    h: Seq<u8>,
    end: bool,
    d: Seq<u8>,
)
    requires
        waits_behind(c, prev),
        prev != fid,
        headers.len() == pieces.len(),
        pieces.len() > 0,
        frame_headers(headers, fid, false),
        starts_image(pieces[0]),
        ends_image(joined(pieces)),
        joined(pieces).len() <= JPEG_CAP,
        is_header(h, (1 - fid) as u8, end),
        fid <= 1,
    ensures
        ({
            let (e, step) = capture_run(c, sent(headers, pieces) + seq![h + d]);
            &&& step == (CaptureStep::Finished {
                result: Ok(joined(pieces).len() as usize),
                fid: Some(fid),
            })
            &&& e.search.jpeg == joined(pieces)
        }),
{
    let ps = sent(headers, pieces);
    lemma_sent(headers, pieces, fid, false);
    lemma_within_frame(c, prev, ps, fid);
    law_payload_lies_behind_header(h, d, (1 - fid) as u8, end);
    let all = ps + seq![h + d];
    assert(all.drop_last() =~= ps);
    assert(all.last() == h + d);
}

/// Where the pieces joined do not end with an end marker, nothing is handed out: the next frame
/// is waited for, and behind the fourth such frame the capture times out.
pub proof fn law_frame_without_end_is_dropped(
    c: CaptureView,
    prev: u8,
    fid: u8,
    headers: Seq<Seq<u8>>,
    pieces: Seq<Seq<u8>>,
)
    requires
        waits_behind(c, prev),
        prev != fid,
        headers.len() == pieces.len(),
        pieces.len() > 0,
        frame_headers(headers, fid, true),
        starts_image(pieces[0]),
        !ends_image(joined(pieces)),
        joined(pieces).len() <= JPEG_CAP,
    ensures
        ({
            let (d, step) = capture_run(c, sent(headers, pieces));
            &&& c.rounds < 3 ==> step is More && waits_behind(d, fid) && d.rounds == c.rounds + 1
            &&& c.rounds >= 3 ==> step == (CaptureStep::Finished {
                result: Err(UsbError::Timeout),
                fid: None,
            })
        }),
{
    lemma_sent(headers, pieces, fid, true);
    lemma_ended_frame(c, prev, sent(headers, pieces), fid);
}

/// Packets of the frame before are passed over, and the first packet of all tells which frame
/// that is.
pub proof fn law_frame_before_is_passed_over(
    c: CaptureView,
    h: Seq<u8>,
    d: Seq<u8>,
    fid: u8,
    end: bool,
)
    requires
        is_header(h, fid, end),
    ensures
        waits_behind(c, fid) ==> capture_next(c, h + d) == (c, CaptureStep::More),
        c.search.phase == (FramePhase::Seek { prev: None }) ==> {
            &&& capture_next(c, h + d).1 is More
            &&& waits_behind(capture_next(c, h + d).0, fid)
            &&& capture_next(c, h + d).0.search.jpeg == c.search.jpeg
            &&& capture_next(c, h + d).0.rounds == c.rounds
        },
{
    law_payload_lies_behind_header(h, d, fid, end);
}

/// A piece that begins a frame and lacks the start marker is not kept, and the frame goes on.
pub proof fn law_data_before_the_start_is_dropped(
    c: CaptureView,
    prev: u8,
    h: Seq<u8>,
    d: Seq<u8>,
    fid: u8,
)
    requires
        waits_behind(c, prev),
        prev != fid,
        is_header(h, fid, false),
        !starts_image(d),
    ensures
        capture_next(c, h + d).1 is More,
        capture_next(c, h + d).0.search.jpeg == Seq::<u8>::empty(),
        capture_next(c, h + d).0.search.phase == (FramePhase::Fill { fid }),
        capture_next(c, h + d).0.rounds == c.rounds,
{
    law_payload_lies_behind_header(h, d, fid, false);
}

/// A piece for which there is no room ends the capture with an error: room is for 389120 bytes.
pub proof fn law_frame_that_does_not_fit_fails(
    c: CaptureView,
    h: Seq<u8>,
    d: Seq<u8>,
    fid: u8,
    end: bool,
)
    requires
        c.search.phase == (FramePhase::Fill { fid }),
        c.search.saw_data,
        is_header(h, fid, end),
        d.len() > 0,
    ensures
        c.search.jpeg.len() + d.len() > 389120 <==> capture_next(c, h + d).1 == (
        CaptureStep::Finished { result: Err(UsbError::Hardware(ERR_OVERFLOW)), fid: None }),
        c.search.jpeg.len() + d.len() <= 389120 ==> capture_next(c, h + d).1 is More || end,
{
    law_payload_lies_behind_header(h, d, fid, end);
}

/// What is handed out begins with ff d8, ends with ff d9, and is as long as said.
pub proof fn law_handed_out_is_an_image(c: CaptureView, p: Seq<u8>)
    requires
        search_wf(c.search),
    ensures
        capture_next(c, p).1 matches CaptureStep::Finished { result: Ok(len), fid } ==> {
            let jpeg = capture_next(c, p).0.search.jpeg;
            starts_image(jpeg) && ends_image(jpeg) && jpeg.len() == len
        },
{
    law_complete_frame_is_delimited(c.search, p);
}

/// A capture begins behind the frame with the last identifier, 0 or 1; any other number stands for
/// none. Frames are assembled from byte 5120 of the window on.
pub proof fn law_capture_begins_behind_the_last(last: u8, window: Seq<u8>, len: int, k: int)
    requires
        0 <= k < len,
        5120 + len <= window.len(),
    ensures
        last <= 1 ==> start_fid(last) == Some(last),
        last > 1 ==> start_fid(last) is None,
        assembled(window, len).len() == len,
        assembled(window, len)[k] == window[5120 + k],
{
}

/// Behind a fragment the search begins anew, with no data, for a frame with another identifier.
pub proof fn law_search_begins_anew(c: CaptureView, p: Seq<u8>)
    requires
        capture_next(c, p).0.rounds == c.rounds + 1,
        capture_next(c, p).1 is More,
    ensures
        search_next(c.search, p).1 matches FrameStep::Fragment { fid } && {
            let s = capture_next(c, p).0.search;
            s.phase == (FramePhase::Seek { prev: Some(fid) }) && s.jpeg.len() == 0 && !s.saw_data
        },
{
}

} // verus!
