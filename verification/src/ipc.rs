//! The mailbox in shared memory: frame news for the big core, replies to its messages, and the
//! switches that its messages turn.

use crate::drivers::ive::{set_input_fmt, InputFmt};
use crate::drivers::mailbox::{doorbell_big, doorbell_script};
use crate::hw::HwOp;
use crate::text::{bytes_of, prefixed_hex, push_hex, push_str};
use vstd::prelude::*;

verus! {

/// Where the mailbox lies.
pub const MAILBOX_PA: usize = 0x9004_0000;

/// Bytes of the mailbox.
pub const MAILBOX_BYTES: usize = 32;

/// The word that marks frame news as valid.
pub const MAILBOX_MAGIC: u32 = 0xC906_C906;

/// The word that marks a reply as valid.
pub const REPLY_MAGIC: u32 = 0x5250_4C59;

/// The image begins as it should.
pub const FLAG_SOI: u32 = 1;

/// The image ends as it should.
pub const FLAG_EOI: u32 = 2;

/// Which of two buffers holds the frame.
pub const FLAG_SLOT: u32 = 4;

/// A decoded frame is there. The bit lies inside the field of the height.
pub const FLAG_YUV_READY: u32 = 0x8000;

pub const FRAME_COUNT_PA: usize = MAILBOX_PA + 0x04;

pub const YUV_SIZE_PA: usize = MAILBOX_PA + 0x08;

pub const FLAGS_PA: usize = MAILBOX_PA + 0x0c;

pub const REPLY_MAGIC_PA: usize = MAILBOX_PA + 0x10;

pub const REPLY_DATA_PA: usize = MAILBOX_PA + 0x14;

pub const REPLY_SEQ_PA: usize = MAILBOX_PA + 0x18;

pub const MSG_ECHO: &'static str = "[MB-RX] big->small msg=";

pub const NEWLINE: &'static str = "\n";

/// The words of the mailbox: the first four are for the big core, the rest are replies.
#[derive(Clone, Copy, Debug, PartialEq, Eq, Structural)]
pub struct Mailbox {
    pub magic: u32,
    pub frame_count: u32,
    /// Bytes of the decoded frame; none where there is only the compressed one.
    pub yuv_size: u32,
    pub flags: u32,
    pub reply_magic: u32,
    pub reply_data: u32,
    pub reply_seq: u32,
    pub _pad: u32,
}

// ---------------------------------------------------------------------------
// Flags
// ---------------------------------------------------------------------------
/// Width and height in a flags word: twelve bits each, at bits 20 and 8.
pub open spec fn dims_word(w: u32, h: u32) -> u32 {
    ((w % 4096) * 0x10_0000 + (h % 4096) * 0x100) as u32
}

/// Width and height of a flags word.
pub open spec fn dims_of(flags: u32) -> (u32, u32) {
    (flags / 0x10_0000, flags / 0x100 % 4096)
}

/// Packs width and height into a flags word; what does not fit twelve bits is dropped.
pub fn encode_dims(w: u32, h: u32) -> (r: u32)
    ensures
        r == dims_word(w, h),
{
    (w % 4096) * 0x10_0000 + (h % 4096) * 0x100
}

/// Reads width and height out of a flags word.
pub fn decode_dims(flags: u32) -> (r: (u32, u32))
    ensures
        r == dims_of(flags),
{
    (flags / 0x10_0000, flags / 0x100 % 4096)
}

/// The number of a buffer in a flags word.
pub open spec fn slot_word(slot: u32) -> u32 {
    (4 * (slot % 2)) as u32
}

/// The number of a buffer that a flags word has.
pub open spec fn slot_in(flags: u32) -> u32 {
    flags / 4 % 2
}

/// Packs the number of a buffer, which is even or odd, into a flags word.
pub fn encode_slot(slot: u32) -> (r: u32)
    ensures
        r == 4 * (slot % 2),
        r == slot_word(slot),
{
    4 * (slot % 2)
}

/// Reads the number of a buffer out of a flags word.
pub fn decode_slot(flags: u32) -> (r: u32)
    ensures
        r == flags / 4 % 2,
        r == slot_in(flags),
{
    flags / 4 % 2
}

/// Width and height below 4096 are read as they were packed.
pub proof fn law_dims_round_trip(w: u32, h: u32)
    ensures
        dims_of(dims_word(w, h)) == (w % 4096, h % 4096),
{
}

/// The marks of the image and the number of the buffer disturb neither each other nor width and
/// height.
pub proof fn law_slot_and_dims_are_independent(slot: u32, w: u32, h: u32)
    ensures
        ({
            let flags = FLAG_SOI | FLAG_EOI | ((4 * (slot % 2)) as u32) | dims_word(w, h);
            dims_of(flags) == (w % 4096, h % 4096) && flags / 4 % 2 == slot % 2
        }),
        slot_in(FLAG_SOI | FLAG_EOI | slot_word(slot) | dims_word(w, h)) == slot % 2,
{
    let s = (4 * (slot % 2)) as u32;
    let d = dims_word(w, h);
    assert(1u32 | 2u32 | s | d == 3 + s + d) by (bit_vector)
        requires
            s == 0 || s == 4,
            d % 256 == 0,
            d <= 0xFFFF_FF00,
    ;
}

/// The mark of a decoded frame lies in the height: bit 7 of the height is read as set. The width
/// is not touched, and neither is a height that has the bit, such as 480.
pub proof fn law_ready_mark_lies_in_height(w: u32, h: u32)
    ensures
        dims_of(FLAG_SOI | FLAG_EOI | FLAG_YUV_READY | dims_word(w, h)) == (
            (w % 4096) as u32,
            ((h % 4096) as u32) | 0x80,
        ),
        (h / 128) % 2 == 1 ==> ((h % 4096) as u32) | 0x80 == h % 4096,
{
    let a = (w % 4096) as u32;
    let b = (h % 4096) as u32;
    let d = dims_word(w, h);
    let f = 1u32 | 2u32 | 0x8000u32 | d;
    assert(f / 0x10_0000 == a && f / 0x100 % 4096 == (b | 0x80)) by (bit_vector)
        requires
            f == 1u32 | 2u32 | 0x8000u32 | d,
            d == a * 0x10_0000 + b * 0x100,
            a < 4096,
            b < 4096,
    ;
    if (h / 128) % 2 == 1 {
        assert(b | 0x80 == b) by (bit_vector)
            requires
                b == h % 4096,
                (h / 128) % 2 == 1,
        ;
    }
}

// ---------------------------------------------------------------------------
// Writing the mailbox
// ---------------------------------------------------------------------------
/// Writing the mailbox back to memory.
pub open spec fn flush_mailbox_op() -> HwOp {
    HwOp::CleanCache { start: MAILBOX_PA, size: MAILBOX_BYTES }
}

/// Writing the whole mailbox, with no reply.
pub open spec fn write_script(frame_count: u32, yuv_size: u32, flags: u32) -> Seq<HwOp> {
    seq![
        HwOp::Write { addr: MAILBOX_PA, value: MAILBOX_MAGIC },
        HwOp::Write { addr: FRAME_COUNT_PA, value: frame_count },
        HwOp::Write { addr: YUV_SIZE_PA, value: yuv_size },
        HwOp::Write { addr: FLAGS_PA, value: flags },
        HwOp::Write { addr: REPLY_MAGIC_PA, value: 0 },
        HwOp::Write { addr: REPLY_DATA_PA, value: 0 },
        HwOp::Write { addr: REPLY_SEQ_PA, value: 0 },
        flush_mailbox_op(),
    ]
}

/// Writing frame news; the mark that they are valid comes last.
pub open spec fn news_script(frame_count: u32, yuv_size: u32, flags: u32) -> Seq<HwOp> {
    seq![
        HwOp::Write { addr: FRAME_COUNT_PA, value: frame_count },
        HwOp::Write { addr: YUV_SIZE_PA, value: yuv_size },
        HwOp::Write { addr: FLAGS_PA, value: flags },
        HwOp::Write { addr: MAILBOX_PA, value: MAILBOX_MAGIC },
        flush_mailbox_op(),
    ]
}

/// Telling the big core of a frame.
pub open spec fn notify_script(frame_count: u32, yuv_size: u32, flags: u32) -> Seq<HwOp> {
    news_script(frame_count, yuv_size, flags) + doorbell_script(frame_count, MAILBOX_MAGIC)
}

/// Replying to a message where `seq` replies were given before; the mark comes last.
pub open spec fn reply_script(seq: u32, msg: u32) -> Seq<HwOp> {
    seq![
        HwOp::Write { addr: REPLY_DATA_PA, value: msg },
        HwOp::Write { addr: REPLY_SEQ_PA, value: ((seq + 1) % 0x1_0000_0000) as u32 },
        HwOp::Write { addr: REPLY_MAGIC_PA, value: REPLY_MAGIC },
        flush_mailbox_op(),
    ]
}

/// Writes the whole mailbox: the firmware is alive, or has come to an end.
pub fn write(frame_count: u32, yuv_size: u32, flags: u32) -> (ops: Vec<HwOp>)
    ensures
        ops@ == write_script(frame_count, yuv_size, flags),
{
    let mut ops: Vec<HwOp> = Vec::new();
    ops.push(HwOp::Write { addr: MAILBOX_PA, value: MAILBOX_MAGIC });
    ops.push(HwOp::Write { addr: FRAME_COUNT_PA, value: frame_count });
    ops.push(HwOp::Write { addr: YUV_SIZE_PA, value: yuv_size });
    ops.push(HwOp::Write { addr: FLAGS_PA, value: flags });
    ops.push(HwOp::Write { addr: REPLY_MAGIC_PA, value: 0 });
    ops.push(HwOp::Write { addr: REPLY_DATA_PA, value: 0 });
    ops.push(HwOp::Write { addr: REPLY_SEQ_PA, value: 0 });
    ops.push(HwOp::CleanCache { start: MAILBOX_PA, size: MAILBOX_BYTES });
    ops
}

/// Tells the big core of a frame: the news are written and the doorbell is rung. The half of the
/// mailbox that holds replies is not touched, since an interrupt may be writing it.
pub fn notify(frame_count: u32, yuv_size: u32, flags: u32) -> (ops: Vec<HwOp>)
    ensures
        ops@ == notify_script(frame_count, yuv_size, flags),
{
    let mut ops: Vec<HwOp> = Vec::new();
    ops.push(HwOp::Write { addr: FRAME_COUNT_PA, value: frame_count });
    ops.push(HwOp::Write { addr: YUV_SIZE_PA, value: yuv_size });
    ops.push(HwOp::Write { addr: FLAGS_PA, value: flags });
    ops.push(HwOp::Write { addr: MAILBOX_PA, value: MAILBOX_MAGIC });
    ops.push(HwOp::CleanCache { start: MAILBOX_PA, size: MAILBOX_BYTES });
    let mut bell: Vec<HwOp> = doorbell_big(frame_count, MAILBOX_MAGIC);
    ops.append(&mut bell);
    assert(ops@ =~= notify_script(frame_count, yuv_size, flags));
    ops
}

/// Replies to a message, where the mailbox shows `seq` as the number of the last reply.
pub fn write_reply(seq: u32, msg: u32) -> (ops: Vec<HwOp>)
    ensures
        ops@ == reply_script(seq, msg),
{
    let mut ops: Vec<HwOp> = Vec::new();
    ops.push(HwOp::Write { addr: REPLY_DATA_PA, value: msg });
    ops.push(HwOp::Write { addr: REPLY_SEQ_PA, value: seq.wrapping_add(1) });
    ops.push(HwOp::Write { addr: REPLY_MAGIC_PA, value: REPLY_MAGIC });
    ops.push(HwOp::CleanCache { start: MAILBOX_PA, size: MAILBOX_BYTES });
    ops
}

// ---------------------------------------------------------------------------
// What is read back
// ---------------------------------------------------------------------------
/// The word at `addr`, which held `before`, after the first `n` of `ops` were performed.
pub open spec fn word_after(ops: Seq<HwOp>, n: nat, addr: usize, before: u32) -> u32
    decreases n,
{
    if n == 0 {
        before
    } else {
        match ops[n - 1] {
            HwOp::Write { addr: a, value } => if a == addr {
                value
            } else {
                word_after(ops, (n - 1) as nat, addr, before)
            },
            _ => word_after(ops, (n - 1) as nat, addr, before),
        }
    }
}

/// The mailbox, which held `m`, after `ops` were performed.
pub open spec fn mailbox_after(ops: Seq<HwOp>, m: Mailbox) -> Mailbox {
    Mailbox {
        magic: word_after(ops, ops.len(), MAILBOX_PA, m.magic),
        frame_count: word_after(ops, ops.len(), FRAME_COUNT_PA, m.frame_count),
        yuv_size: word_after(ops, ops.len(), YUV_SIZE_PA, m.yuv_size),
        flags: word_after(ops, ops.len(), FLAGS_PA, m.flags),
        reply_magic: word_after(ops, ops.len(), REPLY_MAGIC_PA, m.reply_magic),
        reply_data: word_after(ops, ops.len(), REPLY_DATA_PA, m.reply_data),
        reply_seq: word_after(ops, ops.len(), REPLY_SEQ_PA, m.reply_seq),
        _pad: m._pad,
    }
}

/// The whole mailbox reads as it was written, with no reply.
pub proof fn law_write_is_read_back(m: Mailbox, frame_count: u32, yuv_size: u32, flags: u32)
    ensures
        mailbox_after(write_script(frame_count, yuv_size, flags), m) == (Mailbox {
            magic: MAILBOX_MAGIC,
            frame_count,
            yuv_size,
            flags,
            reply_magic: 0,
            reply_data: 0,
            reply_seq: 0,
            _pad: m._pad,
        }),
{
    reveal_with_fuel(word_after, 9);
}

/// Frame news read as they were written, and the reply half is as it was.
pub proof fn law_news_are_read_back(m: Mailbox, frame_count: u32, yuv_size: u32, flags: u32)
    ensures
        mailbox_after(notify_script(frame_count, yuv_size, flags), m) == (Mailbox {
            magic: MAILBOX_MAGIC,
            frame_count,
            yuv_size,
            flags,
            ..m
        }),
{
    reveal_with_fuel(word_after, 12);
}

/// A reply reads as it was written, counts one more than the reply before, and leaves the frame
/// news as they were. So news and replies, written at the same time, never overwrite each other.
pub proof fn law_reply_is_read_back(m: Mailbox, msg: u32)
    ensures
        mailbox_after(reply_script(m.reply_seq, msg), m) == (Mailbox {
            reply_magic: REPLY_MAGIC,
            reply_data: msg,
            reply_seq: ((m.reply_seq + 1) % 0x1_0000_0000) as u32,
            ..m
        }),
{
    reveal_with_fuel(word_after, 5);
}

/// Whoever sees the mark of valid news sees the news: in any beginning of the script that has
/// written the mark, the other three words are written.
pub proof fn law_mark_comes_last(
    m: Mailbox,
    frame_count: u32,
    yuv_size: u32,
    flags: u32,
    n: nat,
)
    requires
        n <= notify_script(frame_count, yuv_size, flags).len(),
        m.magic != MAILBOX_MAGIC,
    ensures
        ({
            let ops = notify_script(frame_count, yuv_size, flags);
            word_after(ops, n, MAILBOX_PA, m.magic) == MAILBOX_MAGIC ==> {
                &&& word_after(ops, n, FRAME_COUNT_PA, m.frame_count) == frame_count
                &&& word_after(ops, n, YUV_SIZE_PA, m.yuv_size) == yuv_size
                &&& word_after(ops, n, FLAGS_PA, m.flags) == flags
            }
        }),
{
    reveal_with_fuel(word_after, 12);
}

// ---------------------------------------------------------------------------
// Messages of the big core
// ---------------------------------------------------------------------------
/// Switches that the big core turns.
#[derive(Clone, Copy, Debug, PartialEq, Eq, Structural)]
pub struct Control {
    pub paused: bool,
    pub muted: bool,
}

impl Control {
    /// All switches are off.
    pub fn new() -> (c: Control)
        ensures
            c == (Control { paused: false, muted: false }),
    {
        Control { paused: false, muted: false }
    }
}

/// Whether the pipeline is paused.
pub fn paused(c: &Control) -> (r: bool)
    ensures
        r == c.paused,
{
    c.paused
}

/// Pauses the pipeline or lets it go on.
pub fn set_paused(c: &mut Control, v: bool)
    ensures
        *final(c) == (Control { paused: v, muted: old(c).muted }),
{
    c.paused = v;
}

/// Whether the console is mute.
pub fn muted(c: &Control) -> (r: bool)
    ensures
        r == c.muted,
{
    c.muted
}

/// Mutes the console or lets it speak.
pub fn set_muted(c: &mut Control, v: bool)
    ensures
        *final(c) == (Control { muted: v, paused: old(c).paused }),
{
    c.muted = v;
}

/// Pause or go on.
pub const CMD_PAUSE: u32 = 0x50;

/// Choose the input format of the image engine.
pub const CMD_FMT: u32 = 0x56;

/// Mute or speak.
pub const CMD_MUTE: u32 = 0x57;

/// Whether a message turns a switch: its upper half says so.
pub open spec fn is_control(msg: u32) -> bool {
    msg / 0x1_0000 == 0xF049
}

/// The command of a control message.
pub open spec fn command(msg: u32) -> u32 {
    msg / 0x100 % 0x100
}

/// The argument of a control message.
pub open spec fn argument(msg: u32) -> u32 {
    msg % 0x100
}

/// The switches after a message.
pub open spec fn control_after(c: Control, msg: u32) -> Control {
    Control {
        paused: if is_control(msg) && command(msg) == CMD_PAUSE {
            argument(msg) != 0
        } else {
            c.paused
        },
        muted: if is_control(msg) && command(msg) == CMD_MUTE {
            argument(msg) != 0
        } else {
            c.muted
        },
    }
}

/// The line that shows a message.
pub open spec fn echo_text(msg: u32) -> Seq<u8> {
    bytes_of(MSG_ECHO) + prefixed_hex(msg as nat) + bytes_of(NEWLINE)
}

/// What is done about a message.
#[derive(Debug)]
pub struct MailAction {
    /// A line to print, if the line lock is free; it is dropped otherwise.
    pub echo: Option<Vec<u8>>,
    /// The reply.
    pub reply: Vec<HwOp>,
}

/// Serves a message of the big core, where the mailbox shows `seq` as the number of the last
/// reply. A control message turns its switch; any other is shown unless the console is mute. Every
/// message is replied to.
pub fn handle_mailbox_irq(c: &mut Control, fmt: &mut InputFmt, msg: u32, seq: u32) -> (r:
    MailAction)
    ensures
        *final(c) == control_after(*old(c), msg),
        final(fmt).chosen == (if is_control(msg) && command(msg) == CMD_FMT {
            argument(msg)
        } else {
            old(fmt).chosen
        }),
        r.reply@ == reply_script(seq, msg),
        r.echo is Some <==> !is_control(msg) && !old(c).muted,
        r.echo matches Some(line) ==> line@ == echo_text(msg),
{
    let mut echo: Option<Vec<u8>> = None;
    if msg / 0x1_0000 == 0xF049 {
        let cmd: u32 = msg / 0x100 % 0x100;
        let arg: u32 = msg % 0x100;
        if cmd == CMD_PAUSE {
            set_paused(c, arg != 0);
        } else if cmd == CMD_FMT {
            set_input_fmt(fmt, arg);
        } else if cmd == CMD_MUTE {
            set_muted(c, arg != 0);
        }
    } else if !muted(c) {
        let mut line: Vec<u8> = Vec::new();
        push_str(&mut line, MSG_ECHO);
        push_hex(&mut line, msg as u64);
        push_str(&mut line, NEWLINE);
        assert(line@ =~= echo_text(msg));
        echo = Some(line);
    }
    MailAction { echo, reply: write_reply(seq, msg) }
}

// ---------------------------------------------------------------------------
// What lies in shared memory
// ---------------------------------------------------------------------------
/// In a flags word the width has bits 20 to 31, the height bits 8 to 19, and the lower eight bits
/// are free; the number of the buffer is bit 2.
pub proof fn law_flags_layout(w: u32, h: u32, flags: u32)
    ensures
        dims_word(w, h) >> 20u32 == w & 0xfff,
        (dims_word(w, h) >> 8u32) & 0xfff == h & 0xfff,
        dims_word(w, h) & 0xff == 0,
        dims_of(flags) == (flags >> 20u32, (flags >> 8u32) & 0xfff),
        flags / 4 % 2 == (flags >> 2u32) & 1,
{
    let d = dims_word(w, h);
    let (a, b) = ((w % 4096) as u32, (h % 4096) as u32);
    assert(d >> 20u32 == w & 0xfff && (d >> 8u32) & 0xfff == h & 0xfff && d & 0xff == 0)
        by (bit_vector)
        requires
            a == w % 4096,
            b == h % 4096,
            d == a * 0x10_0000 + b * 0x100,
    ;
    assert(flags / 0x10_0000 == flags >> 20u32 && flags / 0x100 % 4096 == (flags >> 8u32) & 0xfff
        && flags / 4 % 2 == (flags >> 2u32) & 1) by (bit_vector);
}

/// The big core finds the news of a frame in four words from 90040000 on: the mark, the number of
/// the frame, its bytes and its flags; the words of the reply, from 90040010 on, are as they
/// were. The words are written back to memory before the big core is rung.
pub proof fn law_news_lie_in_memory(frame_count: u32, yuv_size: u32, flags: u32, before: u32)
    ensures
        ({
            let s = notify_script(frame_count, yuv_size, flags);
            let n = s.len();
            &&& word_after(s, n, 0x9004_0000, before) == 0xC906_C906
            &&& word_after(s, n, 0x9004_0004, before) == frame_count
            &&& word_after(s, n, 0x9004_0008, before) == yuv_size
            &&& word_after(s, n, 0x9004_000c, before) == flags
            &&& word_after(s, n, 0x9004_0010, before) == before
            &&& word_after(s, n, 0x9004_0014, before) == before
            &&& word_after(s, n, 0x9004_0018, before) == before
            &&& s[4] == (HwOp::CleanCache { start: 0x9004_0000, size: 32 })
            &&& s.skip(5) =~= doorbell_script(frame_count, 0xC906_C906)
        }),
{
    reveal_with_fuel(word_after, 12);
}

/// The big core finds a reply in three words from 90040010 on: the mark, the message, and a number
/// that is one more than that of the reply before; the news of frames are as they were, and the
/// words are written back to memory.
pub proof fn law_replies_lie_in_memory(seq: u32, msg: u32, before: u32)
    ensures
        ({
            let s = reply_script(seq, msg);
            let n = s.len();
            &&& word_after(s, n, 0x9004_0010, before) == 0x5250_4C59
            &&& word_after(s, n, 0x9004_0014, before) == msg
            &&& seq < u32::MAX ==> word_after(s, n, 0x9004_0018, before) == seq + 1
            &&& seq == u32::MAX ==> word_after(s, n, 0x9004_0018, before) == 0
            &&& word_after(s, n, 0x9004_0000, before) == before
            &&& word_after(s, n, 0x9004_0004, before) == before
            &&& word_after(s, n, 0x9004_0008, before) == before
            &&& word_after(s, n, 0x9004_000c, before) == before
            &&& s.last() == (HwOp::CleanCache { start: 0x9004_0000, size: 32 })
        }),
{
    reveal_with_fuel(word_after, 5);
}

/// A message whose upper half is f049 carries a command and an argument of a byte each: command
/// 50 pauses or goes on, 57 mutes or speaks, as the argument is set or not, and each leaves the
/// other switch alone. No other message turns a switch.
pub proof fn law_control_messages(c: Control, cmd: u8, arg: u8, msg: u32)
    ensures
        ({
            let m = (0xF049_0000 + 0x100 * cmd + arg) as u32;
            let n = control_after(c, m);
            &&& is_control(m) && command(m) == cmd && argument(m) == arg
            &&& cmd == 0x50 ==> n == (Control { paused: arg != 0, ..c })
            &&& cmd == 0x57 ==> n == (Control { muted: arg != 0, ..c })
            &&& cmd != 0x50 && cmd != 0x57 ==> n == c
        }),
        is_control(msg) <==> msg >= 0xF049_0000 && msg < 0xF04A_0000,
        !is_control(msg) ==> control_after(c, msg) == c,
{
}

} // verus!
