//! The big core's side: a test of the traffic between the cores.

use crate::ipc::{
    decode_dims, dims_of, mailbox_after, reply_script, Mailbox, FLAG_YUV_READY, MAILBOX_MAGIC,
};
use crate::registers::low32;
use vstd::prelude::*;

verus! {

/// The mark of a small core that has panicked.
pub const PANIC_MAGIC: u32 = 0xFFFF_FFFF;

/// Bytes of the shared frame.
pub const YUV_SLOT_SIZE: usize = 0x96000;

/// The upper half of test messages.
pub const MSG_BASE: u32 = 0xA5A5_0000;

/// The little-endian word at `off`.
pub open spec fn word_at(d: Seq<u8>, off: int) -> u32 {
    (d[off] + 0x100 * d[off + 1] + 0x1_0000 * d[off + 2] + 0x100_0000 * d[off + 3]) as u32
}

/// Reads the little-endian word at `off`.
pub fn read_u32(d: &[u8], off: usize) -> (r: u32)
    requires
        off + 4 <= d@.len(),
    ensures
        r == word_at(d@, off as int),
{
    d[off] as u32 + 0x100 * d[off + 1] as u32 + 0x1_0000 * d[off + 2] as u32 + 0x100_0000 * d[off
        + 3] as u32
}

/// The bytes of a word, lowest first.
pub open spec fn word_bytes(w: u32) -> Seq<u8> {
    seq![
        (w % 0x100) as u8,
        (w / 0x100 % 0x100) as u8,
        (w / 0x1_0000 % 0x100) as u8,
        (w / 0x100_0000) as u8,
    ]
}

/// The bytes of a mailbox.
pub open spec fn mailbox_bytes(m: Mailbox) -> Seq<u8> {
    word_bytes(m.magic) + word_bytes(m.frame_count) + word_bytes(m.yuv_size) + word_bytes(m.flags)
        + word_bytes(m.reply_magic) + word_bytes(m.reply_data) + word_bytes(m.reply_seq)
        + word_bytes(m._pad)
}

/// The mailbox that bytes hold; the last word is not read.
pub open spec fn mailbox_of(d: Seq<u8>) -> Mailbox {
    Mailbox {
        magic: word_at(d, 0),
        frame_count: word_at(d, 4),
        yuv_size: word_at(d, 8),
        flags: word_at(d, 12),
        reply_magic: word_at(d, 16),
        reply_data: word_at(d, 20),
        reply_seq: word_at(d, 24),
        _pad: 0,
    }
}

/// Reads a mailbox.
pub fn read_mailbox(d: &[u8; 32]) -> (m: Mailbox)
    ensures
        m == mailbox_of(d@),
{
    Mailbox {
        magic: read_u32(d, 0),
        frame_count: read_u32(d, 4),
        yuv_size: read_u32(d, 8),
        flags: read_u32(d, 12),
        reply_magic: read_u32(d, 16),
        reply_data: read_u32(d, 20),
        reply_seq: read_u32(d, 24),
        _pad: 0,
    }
}

/// The bytes of a word, wherever they lie, read as the word.
proof fn lemma_word(b: Seq<u8>, off: int, w: u32)
    requires
        0 <= off,
        off + 4 <= b.len(),
        b.subrange(off, off + 4) == word_bytes(w),
    ensures
        word_at(b, off) == w,
{
    let s = b.subrange(off, off + 4);
    assert(b[off] == s[0] && b[off + 1] == s[1] && b[off + 2] == s[2] && b[off + 3] == s[3]);
    assert(w == w % 0x100 + 0x100 * (w / 0x100 % 0x100) + 0x1_0000 * (w / 0x1_0000 % 0x100)
        + 0x100_0000 * (w / 0x100_0000)) by (bit_vector);
}

/// The big core reads the mailbox that the small core wrote.
pub proof fn law_mailbox_is_read_back(m: Mailbox)
    ensures
        mailbox_of(mailbox_bytes(m)) == (Mailbox { _pad: 0, ..m }),
{
    let b = mailbox_bytes(m);
    assert(word_at(b, 0) == m.magic) by {
        assert(b.subrange(0, 4) =~= word_bytes(m.magic));
        lemma_word(b, 0, m.magic);
    }
    assert(word_at(b, 4) == m.frame_count) by {
        assert(b.subrange(4, 8) =~= word_bytes(m.frame_count));
        lemma_word(b, 4, m.frame_count);
    }
    assert(word_at(b, 8) == m.yuv_size) by {
        assert(b.subrange(8, 12) =~= word_bytes(m.yuv_size));
        lemma_word(b, 8, m.yuv_size);
    }
    assert(word_at(b, 12) == m.flags) by {
        assert(b.subrange(12, 16) =~= word_bytes(m.flags));
        lemma_word(b, 12, m.flags);
    }
    assert(word_at(b, 16) == m.reply_magic) by {
        assert(b.subrange(16, 20) =~= word_bytes(m.reply_magic));
        lemma_word(b, 16, m.reply_magic);
    }
    assert(word_at(b, 20) == m.reply_data) by {
        assert(b.subrange(20, 24) =~= word_bytes(m.reply_data));
        lemma_word(b, 20, m.reply_data);
    }
    assert(word_at(b, 24) == m.reply_seq) by {
        assert(b.subrange(24, 28) =~= word_bytes(m.reply_seq));
        lemma_word(b, 24, m.reply_seq);
    }
}

// ---------------------------------------------------------------------------
// Waiting for the first frame
// ---------------------------------------------------------------------------
/// What a mailbox says before the test begins.
#[derive(Clone, Copy, Debug, PartialEq, Eq, Structural)]
pub enum FirstLook {
    /// A frame is there: begin.
    Begin,
    /// The small core has panicked.
    Panicked,
    /// The small core does not run.
    NotRunning,
    /// The small core runs but has no frame yet.
    Wait,
}

/// What a mailbox says before the test begins.
pub fn first_look(m: &Mailbox) -> (r: FirstLook)
    ensures
        r == (if m.magic == MAILBOX_MAGIC {
            if m.frame_count > 0 {
                FirstLook::Begin
            } else {
                FirstLook::Wait
            }
        } else if m.magic == PANIC_MAGIC {
            FirstLook::Panicked
        } else {
            FirstLook::NotRunning
        }),
{
    if m.magic == MAILBOX_MAGIC && m.frame_count > 0 {
        return FirstLook::Begin;
    }
    if m.magic == PANIC_MAGIC {
        return FirstLook::Panicked;
    }
    if m.magic != MAILBOX_MAGIC {
        return FirstLook::NotRunning;
    }
    FirstLook::Wait
}

// ---------------------------------------------------------------------------
// The test
// ---------------------------------------------------------------------------
/// The first and the last word of a frame of `yuv_size` bytes, as far as the buffer has them.
pub open spec fn peek_of(buf: Seq<u8>, yuv_size: u32) -> (u32, u32) {
    let size = if yuv_size < YUV_SLOT_SIZE {
        yuv_size as int
    } else {
        YUV_SLOT_SIZE as int
    };
    (
        word_at(buf, 0),
        word_at(
            buf,
            if size < 4 {
                0
            } else {
                size - 4
            },
        ),
    )
}

/// Looks at both ends of the shared frame.
pub fn peek_yuv(buf: &[u8], yuv_size: u32) -> (r: (u32, u32))
    requires
        buf@.len() >= YUV_SLOT_SIZE,
    ensures
        r == peek_of(buf@, yuv_size),
{
    let size: usize = if (yuv_size as usize) < YUV_SLOT_SIZE {
        yuv_size as usize
    } else {
        YUV_SLOT_SIZE
    };
    let tail: usize = size.saturating_sub(4);
    (read_u32(buf, 0), read_u32(buf, tail))
}

/// The state of the test.
#[derive(Clone, Copy, Debug, PartialEq, Eq)]
pub struct CommTest {
    /// Size of the first frame.
    pub width: u32,
    pub height: u32,
    pub last_count: u32,
    /// Frames by which the count has grown.
    pub frames: u32,
    /// Counts that went back, and frames with news that make no sense.
    pub errors: u32,
    pub sent: u32,
    pub round_trips: u32,
    pub failures: u32,
    /// How often the shared frame was seen to change.
    pub changes: u32,
    pub last_peek: Option<(u32, u32)>,
}

/// Whether the news of a frame make sense: it has bytes, no more than the buffer, and its size
/// has not changed.
pub open spec fn news_are_sane(t: CommTest, m: Mailbox) -> bool {
    m.yuv_size != 0 && m.yuv_size <= YUV_SLOT_SIZE && dims_of(m.flags) == (t.width, t.height)
}

/// Whether the shared frame is looked at.
pub open spec fn looks_at_frame(m: Mailbox, buf: Option<Seq<u8>>) -> bool {
    buf is Some && m.flags & FLAG_YUV_READY != 0
}

/// The test after it has seen mailbox `m`, with the shared frame `buf` at hand.
pub open spec fn observed(t: CommTest, m: Mailbox, buf: Option<Seq<u8>>) -> CommTest {
    if m.magic != MAILBOX_MAGIC {
        t
    } else if m.frame_count > t.last_count {
        CommTest {
            frames: (t.frames + (m.frame_count - t.last_count)) as u32,
            last_count: m.frame_count,
            errors: if news_are_sane(t, m) {
                t.errors
            } else {
                (t.errors + 1) as u32
            },
            changes: if looks_at_frame(m, buf) && t.last_peek != Some(peek_of(buf->0, m.yuv_size)) {
                (t.changes + 1) as u32
            } else {
                t.changes
            },
            last_peek: if looks_at_frame(m, buf) {
                Some(peek_of(buf->0, m.yuv_size))
            } else {
                t.last_peek
            },
            ..t
        }
    } else if m.frame_count < t.last_count {
        CommTest { errors: (t.errors + 1) as u32, ..t }
    } else {
        t
    }
}

/// Whether a message is due at `secs`, where one is sent every `interval` seconds.
pub open spec fn message_due(t: CommTest, secs: u64, interval: u64) -> bool {
    secs > 0 && secs % interval == 0 && (secs as int % 0x1_0000_0000) / (interval as int
        % 0x1_0000_0000) > t.sent
}

/// Whether the mailbox holds the reply to the message that was sent last.
pub open spec fn is_replied(t: CommTest, msg: u32, m: Mailbox) -> bool {
    m.reply_data == msg && m.reply_seq >= t.sent
}

/// How a message was written.
#[derive(Clone, Copy, Debug, PartialEq, Eq, Structural)]
pub enum Written {
    /// All four bytes.
    Whole,
    /// Fewer, or none.
    Not,
}

impl CommTest {
    /// Whether the counts belong together: the frames counted lie between the first frame and the
    /// last.
    pub open spec fn wf(&self) -> bool {
        self.frames <= self.last_count
    }

    /// The test begins with its first frame.
    pub fn new(first: &Mailbox) -> (t: CommTest)
        ensures
            t.wf(),
            (t.width, t.height) == dims_of(first.flags),
            t.last_count == first.frame_count,
            t.frames == 0 && t.errors == 0 && t.sent == 0 && t.round_trips == 0,
            t.failures == 0 && t.changes == 0 && t.last_peek is None,
    {
        let (width, height) = decode_dims(first.flags);
        CommTest {
            width,
            height,
            last_count: first.frame_count,
            frames: 0,
            errors: 0,
            sent: 0,
            round_trips: 0,
            failures: 0,
            changes: 0,
            last_peek: None,
        }
    }

    /// Sees a mailbox, with the shared frame where it is at hand.
    pub fn observe(&mut self, m: &Mailbox, buf: Option<&[u8]>)
        requires
            old(self).wf(),
            old(self).errors < u32::MAX,
            old(self).changes < u32::MAX,
            buf matches Some(b) ==> b@.len() >= YUV_SLOT_SIZE,
        ensures
            final(self).wf(),
            *final(self) == observed(
                *old(self),
                *m,
                match buf {
                    Some(b) => Some(b@),
                    None => None,
                },
            ),
    {
        if m.magic != MAILBOX_MAGIC {
            return;
        }
        if m.frame_count > self.last_count {
            self.frames = self.frames + (m.frame_count - self.last_count);
            self.last_count = m.frame_count;
            let (w, h) = decode_dims(m.flags);
            if m.yuv_size == 0 || m.yuv_size as usize > YUV_SLOT_SIZE || w != self.width || h
                != self.height {
                self.errors = self.errors + 1;
            }
            if let Some(b) = buf {
                if m.flags & FLAG_YUV_READY != 0 {
                    let peek: (u32, u32) = peek_yuv(b, m.yuv_size);
                    let same: bool = match self.last_peek {
                        Some(last) => last.0 == peek.0 && last.1 == peek.1,
                        None => false,
                    };
                    if !same {
                        self.changes = self.changes + 1;
                    }
                    self.last_peek = Some(peek);
                }
            }
        } else if m.frame_count < self.last_count {
            self.errors = self.errors + 1;
        }
    }

    /// The message that is due at `secs`, if one is.
    pub fn next_message(&self, secs: u64, interval: u64) -> (r: Option<u32>)
        requires
            secs > 0 ==> interval > 0,
            secs > 0 && secs % interval == 0 ==> interval as int % 0x1_0000_0000 != 0,
        ensures
            r == (if message_due(*self, secs, interval) {
                Some(MSG_BASE | self.sent)
            } else {
                None
            }),
    {
        if secs == 0 || secs % interval != 0 {
            return None;
        }
        if low32(secs) / low32(interval) > self.sent {
            return Some(MSG_BASE | self.sent);
        }
        None
    }

    /// A message was written, or was not.
    pub fn message_written(&mut self, how: Written)
        requires
            old(self).sent < u32::MAX,
            old(self).failures < u32::MAX,
        ensures
            *final(self) == (match how {
                Written::Whole => CommTest { sent: (old(self).sent + 1) as u32, ..*old(self) },
                Written::Not => CommTest { failures: (old(self).failures + 1) as u32, ..*old(self)
                },
            }),
    {
        match how {
            Written::Whole => {
                self.sent = self.sent + 1;
            },
            Written::Not => {
                self.failures = self.failures + 1;
            },
        }
    }

    /// Holds the mailbox against the message that was sent last: the reply repeats it, and there
    /// were at least as many replies as messages.
    pub fn check_reply(&mut self, msg: u32, m: &Mailbox) -> (ok: bool)
        requires
            old(self).round_trips < u32::MAX,
            old(self).failures < u32::MAX,
        ensures
            ok == (m.reply_data == msg && m.reply_seq >= old(self).sent),
            ok == is_replied(*old(self), msg, *m),
            *final(self) == (if ok {
                CommTest { round_trips: (old(self).round_trips + 1) as u32, ..*old(self) }
            } else {
                CommTest { failures: (old(self).failures + 1) as u32, ..*old(self) }
            }),
    {
        if m.reply_data == msg && m.reply_seq >= self.sent {
            self.round_trips = self.round_trips + 1;
            true
        } else {
            self.failures = self.failures + 1;
            false
        }
    }

    /// Whether the test is passed: frames came, none made no sense, messages made their round
    /// trip, none failed, and the shared frame, where it was at hand, was seen to change.
    pub fn passed(&self, had_frame: bool) -> (r: bool)
        ensures
            r == (self.frames > 0 && self.errors == 0 && self.failures == 0 && self.round_trips > 0
                && (had_frame ==> self.changes > 0)),
    {
        self.frames > 0 && self.errors == 0 && self.failures == 0 && self.round_trips > 0 && (
        !had_frame || self.changes > 0)
    }
}

/// A message that the small core has replied to passes the check, where it has replied to all
/// messages before.
pub proof fn law_round_trip_passes(m: Mailbox, msg: u32, sent: u32)
    requires
        0 < sent,
        m.reply_seq >= sent - 1,
        m.reply_seq < u32::MAX,
    ensures
        ({
            let after = mailbox_after(reply_script(m.reply_seq, msg), m);
            after.reply_data == msg && after.reply_seq >= sent
        }),
{
    crate::ipc::law_reply_is_read_back(m, msg);
}

/// The frames counted are those by which the count has grown since the first frame.
pub proof fn law_frames_are_counted_once(t: CommTest, first: u32, m: Mailbox, buf: Option<Seq<u8>>)
    requires
        first <= t.last_count,
        t.frames == t.last_count - first,
    ensures
        ({
            let n = observed(t, m, buf);
            first <= n.last_count && n.frames == n.last_count - first
        }),
{
}

// ---------------------------------------------------------------------------
// What the big core reads
// ---------------------------------------------------------------------------
/// A word lies with its low byte first, and the words of the mailbox lie four bytes apart: mark,
/// number, bytes and flags of the frame, then mark, message and number of the reply.
pub proof fn law_mailbox_layout(d: Seq<u8>, magic: u32, count: u32, size: u32, flags: u32, msg: u32)
    requires
        d.len() == 32,
        d[0] + 256 * (d[1] + 256 * (d[2] + 256 * d[3])) == magic,
        d[4] + 256 * (d[5] + 256 * (d[6] + 256 * d[7])) == count,
        d[8] + 256 * (d[9] + 256 * (d[10] + 256 * d[11])) == size,
        d[12] + 256 * (d[13] + 256 * (d[14] + 256 * d[15])) == flags,
        d[20] + 256 * (d[21] + 256 * (d[22] + 256 * d[23])) == msg,
    ensures
        ({
            let m = mailbox_of(d);
            &&& m.magic == magic && m.frame_count == count && m.yuv_size == size
            &&& m.flags == flags && m.reply_data == msg
            &&& m.reply_magic == d[16] + 256 * (d[17] + 256 * (d[18] + 256 * d[19]))
            &&& m.reply_seq == d[24] + 256 * (d[25] + 256 * (d[26] + 256 * d[27]))
        }),
{
}

/// The ends of a frame are its first and its last four bytes; of a frame that claims to be
/// greater than its buffer, those of the buffer.
pub proof fn law_both_ends_are_looked_at(frame: Seq<u8>, rest: Seq<u8>)
    requires
        4 <= frame.len() <= 0x96000,
        frame.len() + rest.len() >= 0x96000,
    ensures
        ({
            let n = frame.len() as int;
            let (a, b) = peek_of(frame + rest, n as u32);
            &&& a == frame[0] + 256 * (frame[1] + 256 * (frame[2] + 256 * frame[3]))
            &&& b == frame[n - 4] + 256 * (frame[n - 3] + 256 * (frame[n - 2] + 256 * frame[n - 1]))
        }),
{
}

/// A count that has grown is so many frames more; one that goes back is an error, and so are news
/// of a frame without bytes, with more than 614400 of them, or of another size. Without the mark
/// of valid news nothing is seen.
pub proof fn law_news_are_held_to_account(t: CommTest, m: Mailbox)
    requires
        t.frames <= t.last_count,
        t.errors < u32::MAX,
    ensures
        ({
            let n = observed(t, m, None);
            let sane = 0 < m.yuv_size <= 614400 && dims_of(m.flags).0 == t.width && dims_of(
                m.flags,
            ).1 == t.height;
            &&& m.magic != 0xC906_C906 ==> n == t
            &&& m.magic == 0xC906_C906 && m.frame_count > t.last_count ==> n.frames - t.frames
                == m.frame_count - t.last_count && n.last_count == m.frame_count && (n.errors
                == t.errors <==> sane) && n.errors <= t.errors + 1
            &&& m.magic == 0xC906_C906 && m.frame_count == t.last_count ==> n == t
            &&& m.magic == 0xC906_C906 && m.frame_count < t.last_count ==> n.errors == t.errors + 1
                && n.last_count == t.last_count && n.frames == t.frames
            &&& n.sent == t.sent && n.round_trips == t.round_trips && n.failures == t.failures
        }),
{
}

/// Messages are due once in every interval: never before the first has passed, and not again
/// before the next.
pub proof fn law_messages_are_due_once(t: CommTest, secs: u64, interval: u64)
    requires
        0 < interval <= 0xFFFF_FFFF,
        secs <= 0xFFFF_FFFF,
    ensures
        message_due(t, secs, interval) ==> secs % interval == 0 && secs >= interval && t.sent < secs
            / interval,
        secs > 0 && secs % interval == 0 && t.sent < secs / interval ==> message_due(
            t,
            secs,
            interval,
        ),
        t.sent >= secs / interval ==> !message_due(t, secs, interval),
{
    if secs > 0 && secs % interval == 0 {
        vstd::arithmetic::div_mod::lemma_fundamental_div_mod(secs as int, interval as int);
        if secs < interval {
            vstd::arithmetic::div_mod::lemma_small_mod(secs as nat, interval as nat);
        }
    }
}

/// With new news whose flags have bit 15, the mark of a decoded frame, the ends of the shared frame
/// are remembered, and a change is counted where they are others than before; without the mark, or
/// without a frame at hand, nothing is looked at.
pub proof fn law_marked_frame_is_looked_at(t: CommTest, m: Mailbox, buf: Seq<u8>)
    requires
        m.magic == 0xC906_C906,
        m.frame_count > t.last_count,
        t.changes < u32::MAX,
    ensures
        ({
            let n = observed(t, m, Some(buf));
            let ends = peek_of(buf, m.yuv_size);
            &&& (m.flags / 0x8000) % 2 == 1 ==> n.last_peek == Some(ends)
            &&& (m.flags / 0x8000) % 2 == 1 ==> n.changes - t.changes == (if t.last_peek == Some(
                ends,
            ) {
                0int
            } else {
                1int
            })
            &&& (m.flags / 0x8000) % 2 == 0 ==> n.last_peek == t.last_peek && n.changes == t.changes
        }),
        observed(t, m, None).last_peek == t.last_peek && observed(t, m, None).changes == t.changes,
{
    let f = m.flags;
    assert((f & 0x8000 != 0) <==> (f / 0x8000) % 2 == 1) by (bit_vector);
}

/// Once the small core has replied as often as messages were sent, the reply to the last one is
/// taken, and the reply to another message is not; with a reply fewer none is.
pub proof fn law_only_the_last_reply_counts(t: CommTest, m: Mailbox, msg: u32, other: u32)
    requires
        0 < t.sent,
        m.reply_seq < u32::MAX,
        msg != other,
    ensures
        ({
            let after = mailbox_after(reply_script(m.reply_seq, msg), m);
            &&& m.reply_seq + 1 >= t.sent ==> is_replied(t, msg, after)
            &&& m.reply_seq + 1 < t.sent ==> !is_replied(t, msg, after)
            &&& !is_replied(t, other, after)
        }),
{
    crate::ipc::law_reply_is_read_back(m, msg);
}

} // verus!
