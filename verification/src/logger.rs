//! The console: bytes for the serial line, and the lock that keeps the lines of two cores apart.

use crate::drivers::mailbox::{CTX_SLOT2, CTX_SLOT3};
use crate::hw::HwOp;
use crate::registers::{any_set, field_is_set};
use crate::text::{bytes_of, push_str};
use vstd::prelude::*;

verus! {

pub const UART0_BASE: usize = 0x0414_0000;

/// Bytes to send go here.
pub const UART_THR: usize = UART0_BASE;

/// Status of the line.
pub const UART_LSR: usize = UART0_BASE + 0x14;

/// There is room for a byte.
pub const LSR_THRE: (u32, u32) = (1, 5);

/// Whether the next byte can be sent.
pub fn uart_ready(lsr: u32) -> (r: bool)
    ensures
        r == any_set(LSR_THRE, lsr),
{
    field_is_set(LSR_THRE, lsr)
}

/// Sends a byte.
pub fn uart_putc(c: u8) -> (op: HwOp)
    ensures
        op == (HwOp::Write { addr: UART_THR, value: c as u32 }),
{
    HwOp::Write { addr: UART_THR, value: c as u32 }
}

// ---------------------------------------------------------------------------
// Text
// ---------------------------------------------------------------------------
/// Text as a terminal wants it: a carriage return before each line feed.
pub open spec fn with_returns(s: Seq<u8>) -> Seq<u8>
    decreases s.len(),
{
    if s.len() == 0 {
        Seq::empty()
    } else if s.last() == 10 {
        with_returns(s.drop_last()) + seq![13u8, 10u8]
    } else {
        with_returns(s.drop_last()).push(s.last())
    }
}

/// Every line feed that is sent has a carriage return before it.
pub proof fn law_feeds_follow_returns(s: Seq<u8>, k: int)
    requires
        0 <= k < with_returns(s).len(),
        with_returns(s)[k] == 10,
    ensures
        k > 0,
        with_returns(s)[k - 1] == 13,
    decreases s.len(),
{
    if s.len() > 0 {
        let rest = with_returns(s.drop_last());
        if k < rest.len() {
            assert(rest[k] == 10);
            law_feeds_follow_returns(s.drop_last(), k);
            assert(rest[k - 1] == 13);
        }
    }
}

/// Text as a terminal wants it.
pub fn print_nolock(s: &[u8]) -> (out: Vec<u8>)
    ensures
        out@ == with_returns(s@),
{
    let mut out: Vec<u8> = Vec::new();
    let mut k: usize = 0;
    assert(s@.take(0) =~= Seq::<u8>::empty());
    while k < s.len()
        invariant
            k <= s@.len(),
            out@ == with_returns(s@.take(k as int)),
        decreases s@.len() - k,
    {
        let b: u8 = s[k];
        if b == 10 {
            out.push(13);
        }
        out.push(b);
        proof {
            assert(s@.take(k + 1).drop_last() =~= s@.take(k as int));
            assert(out@ =~= with_returns(s@.take(k + 1)));
        }
        k = k + 1;
    }
    assert(s@.take(k as int) =~= s@);
    out
}

/// The bytes to send for a text, under the line lock. A mute console sends nothing and leaves the
/// lock alone.
pub fn print(muted: bool, s: &[u8]) -> (r: Option<Vec<u8>>)
    ensures
        r is Some <==> !muted,
        r matches Some(out) ==> out@ == with_returns(s@),
{
    if muted {
        return None;
    }
    Some(print_nolock(s))
}

// ---------------------------------------------------------------------------
// Levels
// ---------------------------------------------------------------------------
/// How weighty a log record is.
#[derive(Clone, Copy, Debug, PartialEq, Eq, Structural)]
pub enum LogLevel {
    Error,
    Warn,
    Info,
    Debug,
    Trace,
}

impl LogLevel {
    /// The name of the level.
    pub open spec fn name(self) -> &'static str {
        match self {
            LogLevel::Error => "ERROR",
            LogLevel::Warn => "WARN",
            LogLevel::Info => "INFO",
            LogLevel::Debug => "DEBUG",
            LogLevel::Trace => "TRACE",
        }
    }

    /// The name of the level.
    pub fn as_str(self) -> (r: &'static str)
        ensures
            r == self.name(),
    {
        match self {
            LogLevel::Error => "ERROR",
            LogLevel::Warn => "WARN",
            LogLevel::Info => "INFO",
            LogLevel::Debug => "DEBUG",
            LogLevel::Trace => "TRACE",
        }
    }

    /// Whether records of the level are written: those from information up.
    pub fn enabled(self) -> (r: bool)
        ensures
            r == (self is Error || self is Warn || self is Info),
    {
        match self {
            LogLevel::Error | LogLevel::Warn | LogLevel::Info => true,
            LogLevel::Debug | LogLevel::Trace => false,
        }
    }
}

/// Which records reach the logger at all.
#[derive(Clone, Copy, Debug, PartialEq, Eq, Structural)]
pub enum LogFilter {
    /// None of them.
    Off,
    /// Those of a level and weightier ones.
    Upto(LogLevel),
}

/// Starts the logger, once. The console is shared with the big core, so all records are off;
/// `None` where the logger was started before.
pub fn init(started: &mut bool) -> (r: Option<LogFilter>)
    ensures
        *final(started),
        r == (if *old(started) {
            None
        } else {
            Some(LogFilter::Off)
        }),
{
    if *started {
        return None;
    }
    *started = true;
    Some(LogFilter::Off)
}

/// The line of a log record, where its level is written.
pub fn log_line(level: LogLevel, text: &str) -> (r: Option<Vec<u8>>)
    ensures
        r is Some <==> (level is Error || level is Warn || level is Info),
        r matches Some(line) ==> line@ == seq![91u8] + bytes_of(level.name()) + seq![93u8, 32u8]
            + bytes_of(text) + seq![10u8],
{
    if !level.enabled() {
        return None;
    }
    let mut line: Vec<u8> = Vec::new();
    line.push(91);
    push_str(&mut line, level.as_str());
    line.push(93);
    line.push(32);
    push_str(&mut line, text);
    line.push(10);
    assert(line@ =~= seq![91u8] + bytes_of(level.name()) + seq![93u8, 32u8] + bytes_of(text)
        + seq![10u8]);
    Some(line)
}

// ---------------------------------------------------------------------------
// The line lock
// ---------------------------------------------------------------------------
/// The turn word that stands for this core.
pub const ME: u32 = 1;

/// The turn word that stands for the big core.
pub const OTHER: u32 = 0;

/// The flag of this core.
pub const MY_FLAG: usize = CTX_SLOT2;

/// The flag of the big core.
pub const OTHER_FLAG: usize = CTX_SLOT2 + 4;

/// Whose turn it is.
pub const TURN: usize = CTX_SLOT3;

/// Looks at the turn before the lock is taken by force.
pub const LOCK_SPIN_LIMIT: u32 = 2_000_000;

/// Whether this core holds the lock. Its interrupts must not touch the flag meanwhile: that would
/// take the lock away from the code that they interrupt.
#[derive(Clone, Copy, Debug, PartialEq, Eq, Structural)]
pub struct LineLock {
    pub held: bool,
}

/// Raising the flag of this core.
pub open spec fn raise_script() -> Seq<HwOp> {
    seq![HwOp::Write { addr: MY_FLAG, value: 1 }, HwOp::Fence]
}

/// Lowering the flag of this core while it waits for its turn.
pub open spec fn yield_script() -> Seq<HwOp> {
    seq![HwOp::Write { addr: MY_FLAG, value: 0 }, HwOp::Fence]
}

/// Whether the flag word of the other core leaves the lock to this one.
pub open spec fn lock_free(other: u32) -> bool {
    other != 1
}

/// Lowering the own flag after a failed attempt.
pub open spec fn lower_script() -> Seq<HwOp> {
    seq![HwOp::Write { addr: MY_FLAG, value: 0 }]
}

/// Giving the lock back: the turn goes to the other core before the flag is lowered.
pub open spec fn release_script() -> Seq<HwOp> {
    seq![
        HwOp::Fence,
        HwOp::Write { addr: TURN, value: OTHER },
        HwOp::Write { addr: MY_FLAG, value: 0 },
        HwOp::Fence,
    ]
}

/// Raises the flag of this core.
fn raise() -> (ops: Vec<HwOp>)
    ensures
        ops@ == raise_script(),
{
    let mut ops: Vec<HwOp> = Vec::new();
    ops.push(HwOp::Write { addr: MY_FLAG, value: 1 });
    ops.push(HwOp::Fence);
    ops
}

impl LineLock {
    /// A free lock.
    pub fn new() -> (l: LineLock)
        ensures
            !l.held,
    {
        LineLock { held: false }
    }

    /// Begins one attempt to take the lock, after which the other flag is looked at. `None` where
    /// this core holds it already; nothing is touched then.
    pub fn line_lock_try(&self) -> (r: Option<Vec<HwOp>>)
        ensures
            r is Some <==> !self.held,
            r matches Some(ops) ==> ops@ == raise_script(),
    {
        if self.held {
            return None;
        }
        Some(raise())
    }

    /// Ends the attempt with the flag word of the other core: the lock is taken, or the own flag
    /// is lowered again.
    pub fn line_lock_tried(&mut self, other: u32) -> (r: (bool, Vec<HwOp>))
        requires
            !old(self).held,
        ensures
            r.0 == lock_free(other),
            final(self).held == lock_free(other),
            r.1@ == (if lock_free(other) {
                Seq::<HwOp>::empty()
            } else {
                lower_script()
            }),
    {
        let mut ops: Vec<HwOp> = Vec::new();
        if other == 1 {
            ops.push(HwOp::Write { addr: MY_FLAG, value: 0 });
            return (false, ops);
        }
        self.held = true;
        (true, ops)
    }

    /// Gives the lock back: the turn goes to the other core before the flag is lowered.
    pub fn line_unlock(&mut self) -> (ops: Vec<HwOp>)
        ensures
            !final(self).held,
            ops@ == release_script(),
    {
        self.held = false;
        let mut ops: Vec<HwOp> = Vec::new();
        ops.push(HwOp::Fence);
        ops.push(HwOp::Write { addr: TURN, value: OTHER });
        ops.push(HwOp::Write { addr: MY_FLAG, value: 0 });
        ops.push(HwOp::Fence);
        ops
    }
}

/// Which word a waiting core looks at next.
#[derive(Clone, Copy, Debug, PartialEq, Eq, Structural)]
pub enum LockPhase {
    /// The flag of the other core, with the own flag raised.
    Contend,
    /// The turn, with the own flag raised.
    Turn,
    /// The turn, with the own flag lowered.
    Yield,
}

/// A core that waits for the lock.
#[derive(Clone, Copy, Debug, PartialEq, Eq, Structural)]
pub struct LockWait {
    pub phase: LockPhase,
    /// Looks so far.
    pub spins: u32,
}

/// The next round, or the end where the limit is reached: the lock is then taken by force.
pub open spec fn next_round(spins: u32) -> Option<LockWait> {
    if spins + 1 > LOCK_SPIN_LIMIT {
        None
    } else {
        Some(LockWait { phase: LockPhase::Contend, spins: (spins + 1) as u32 })
    }
}

/// What follows when the word that `w` waits for reads `word`; `None` where the lock is taken.
pub open spec fn wait_next(w: LockWait, word: u32) -> Option<LockWait> {
    match w.phase {
        LockPhase::Contend => if lock_free(word) {
            None
        } else {
            Some(LockWait { phase: LockPhase::Turn, spins: w.spins })
        },
        LockPhase::Turn => if word != ME {
            Some(LockWait { phase: LockPhase::Yield, spins: w.spins })
        } else {
            next_round(w.spins)
        },
        LockPhase::Yield => if word != ME && w.spins < LOCK_SPIN_LIMIT {
            Some(LockWait { phase: LockPhase::Yield, spins: (w.spins + 1) as u32 })
        } else {
            next_round(w.spins)
        },
    }
}

/// What is done when the word that `w` waits for reads `word`: the flag is lowered where the
/// other core has the turn, and raised again when the waiting for the turn is over.
pub open spec fn wait_ops(w: LockWait, word: u32) -> Seq<HwOp> {
    match w.phase {
        LockPhase::Contend => Seq::empty(),
        LockPhase::Turn => if word != ME {
            yield_script()
        } else {
            Seq::empty()
        },
        LockPhase::Yield => if word != ME && w.spins < LOCK_SPIN_LIMIT {
            Seq::empty()
        } else {
            raise_script()
        },
    }
}

/// Begins to wait for the lock.
pub fn line_lock_wait() -> (r: (LockWait, Vec<HwOp>))
    ensures
        r.0 == (LockWait { phase: LockPhase::Contend, spins: 0 }),
        r.1@ == raise_script(),
{
    (LockWait { phase: LockPhase::Contend, spins: 0 }, raise())
}

/// The next round, or the end.
fn another(spins: u32) -> (r: Option<LockWait>)
    requires
        spins <= LOCK_SPIN_LIMIT,
    ensures
        r == next_round(spins),
{
    if spins + 1 > LOCK_SPIN_LIMIT {
        None
    } else {
        Some(LockWait { phase: LockPhase::Contend, spins: spins + 1 })
    }
}

impl LockWait {
    /// Whether the count of looks is within the limit.
    pub open spec fn wf(&self) -> bool {
        self.spins <= LOCK_SPIN_LIMIT
    }

    /// Goes on with the word that was waited for; the lock is held when nothing follows.
    pub fn step(self, lock: &mut LineLock, word: u32) -> (r: (Option<LockWait>, Vec<HwOp>))
        requires
            self.wf(),
        ensures
            r.0 == wait_next(self, word),
            r.0 matches Some(w) ==> w.wf(),
            r.1@ == wait_ops(self, word),
            final(lock).held == (wait_next(self, word) is None || old(lock).held),
    {
        let mut ops: Vec<HwOp> = Vec::new();
        let next: Option<LockWait> = match self.phase {
            LockPhase::Contend => {
                if word != 1 {
                    None
                } else {
                    Some(LockWait { phase: LockPhase::Turn, spins: self.spins })
                }
            },
            LockPhase::Turn => {
                if word != ME {
                    ops.push(HwOp::Write { addr: MY_FLAG, value: 0 });
                    ops.push(HwOp::Fence);
                    Some(LockWait { phase: LockPhase::Yield, spins: self.spins })
                } else {
                    another(self.spins)
                }
            },
            LockPhase::Yield => {
                if word != ME && self.spins < LOCK_SPIN_LIMIT {
                    Some(LockWait { phase: LockPhase::Yield, spins: self.spins + 1 })
                } else {
                    ops.push(HwOp::Write { addr: MY_FLAG, value: 1 });
                    ops.push(HwOp::Fence);
                    another(self.spins)
                }
            },
        };
        if next.is_none() {
            lock.held = true;
        }
        (next, ops)
    }
}

/// Steps that a waiting core has left at most.
pub open spec fn wait_left(w: LockWait) -> int {
    3 * (LOCK_SPIN_LIMIT - w.spins) + match w.phase {
        LockPhase::Contend => 2int,
        LockPhase::Turn => 1,
        LockPhase::Yield => 0,
    }
}

/// Waiting for the lock always ends, whatever the other core does: each step leaves fewer.
pub proof fn law_waiting_ends(w: LockWait, word: u32)
    requires
        w.wf(),
    ensures
        wait_next(w, word) matches Some(n) ==> 0 <= wait_left(n) < wait_left(w),
{
}

/// Where a core is on its way to the lock.
pub enum Side {
    /// It wants nothing.
    Away,
    /// It makes one attempt; the other flag is to be looked at.
    Trying,
    /// It waits.
    Waiting(LockWait),
    /// It has the lock.
    Holding,
}

/// What a core does next.
pub enum Move {
    /// Begins one attempt.
    Try,
    /// Begins to wait.
    Wait,
    /// Looks at the word that it needs, where the turn reads `turn`.
    Look { turn: u32 },
    /// Gives the lock back.
    Release,
}

/// Two cores and their flags. Either runs the protocol with its own flag in the place of
/// [`MY_FLAG`].
pub struct Duel {
    pub sides: (Side, Side),
    pub flags: (u32, u32),
}

/// A flag after the steps of its core.
pub open spec fn flag_after(ops: Seq<HwOp>, flag: u32) -> u32
    decreases ops.len(),
{
    if ops.len() == 0 {
        flag
    } else {
        match ops.last() {
            HwOp::Write { addr, value } => if addr == MY_FLAG {
                value
            } else {
                flag_after(ops.drop_last(), flag)
            },
            _ => flag_after(ops.drop_last(), flag),
        }
    }
}

/// Whether a flag tells the truth about its core.
pub open spec fn flag_true(s: Side, flag: u32) -> bool {
    match s {
        Side::Away => true,
        Side::Trying => flag == 1,
        Side::Waiting(w) => w.wf() && (w.phase !is Yield ==> flag == 1),
        Side::Holding => flag == 1,
    }
}

/// Whether flags tell the truth and no two cores hold the lock.
pub open spec fn duel_safe(d: Duel) -> bool {
    &&& flag_true(d.sides.0, d.flags.0)
    &&& flag_true(d.sides.1, d.flags.1)
    &&& !(d.sides.0 is Holding && d.sides.1 is Holding)
}

/// The word that a waiting core looks at.
pub open spec fn word_seen(w: LockWait, other: u32, turn: u32) -> u32 {
    if w.phase is Contend {
        other
    } else {
        turn
    }
}

/// The first core moves; a move that does not fit where it is changes nothing.
pub open spec fn first_moves(d: Duel, m: Move) -> Duel {
    let (mine, other) = d.flags;
    match (d.sides.0, m) {
        (Side::Away, Move::Try) => Duel {
            sides: (Side::Trying, d.sides.1),
            flags: (flag_after(raise_script(), mine), other),
        },
        (Side::Away, Move::Wait) => Duel {
            sides: (
                Side::Waiting(LockWait { phase: LockPhase::Contend, spins: 0 }),
                d.sides.1,
            ),
            flags: (flag_after(raise_script(), mine), other),
        },
        (Side::Trying, Move::Look { turn }) => if lock_free(other) {
            Duel { sides: (Side::Holding, d.sides.1), ..d }
        } else {
            Duel { sides: (Side::Away, d.sides.1), flags: (flag_after(lower_script(), mine), other) }
        },
        (Side::Waiting(w), Move::Look { turn }) => {
            let word = word_seen(w, other, turn);
            Duel {
                sides: (
                    match wait_next(w, word) {
                        Some(n) => Side::Waiting(n),
                        None => Side::Holding,
                    },
                    d.sides.1,
                ),
                flags: (flag_after(wait_ops(w, word), mine), other),
            }
        },
        (Side::Holding, Move::Release) => Duel {
            sides: (Side::Away, d.sides.1),
            flags: (flag_after(release_script(), mine), other),
        },
        _ => d,
    }
}

/// Whether the move takes the lock by force, at the limit of waiting.
pub open spec fn by_force(d: Duel, m: Move) -> bool {
    match (d.sides.0, m) {
        (Side::Waiting(w), Move::Look { turn }) => w.phase !is Contend && wait_next(
            w,
            word_seen(w, d.flags.1, turn),
        ) is None,
        _ => false,
    }
}

/// The same cores, named the other way round.
pub open spec fn swapped(d: Duel) -> Duel {
    Duel { sides: (d.sides.1, d.sides.0), flags: (d.flags.1, d.flags.0) }
}

/// However the steps of two cores interleave, the two never hold the lock together: whichever
/// core moves, and whatever the turn reads, safety is kept, unless the core takes the lock by
/// force.
pub proof fn law_lock_is_exclusive(d: Duel, m: Move)
    requires
        duel_safe(d),
    ensures
        !by_force(d, m) ==> duel_safe(first_moves(d, m)),
        !by_force(swapped(d), m) ==> duel_safe(swapped(first_moves(swapped(d), m))),
{
    reveal_with_fuel(flag_after, 5);
}

/// The lock is taken by force only after as many looks as the limit allows.
pub proof fn law_force_comes_last(d: Duel, m: Move)
    requires
        by_force(d, m),
    ensures
        d.sides.0 matches Side::Waiting(w) && w.spins >= LOCK_SPIN_LIMIT,
{
}

/// Text is sent byte by byte in its order: a line feed as a carriage return and a line feed, every
/// other byte as it is; parts of a text are sent one after the other.
pub proof fn law_text_is_sent_in_order(a: Seq<u8>, b: Seq<u8>, c: u8)
    ensures
        with_returns(seq![c]) =~= (if c == 10 {
            seq![13u8, 10u8]
        } else {
            seq![c]
        }),
        with_returns(a + b) =~= with_returns(a) + with_returns(b),
    decreases b.len(),
{
    assert(seq![c].drop_last() =~= Seq::<u8>::empty());
    reveal_with_fuel(with_returns, 2);
    if b.len() == 0 {
        assert(a + b =~= a);
        assert(with_returns(a) + with_returns(b) =~= with_returns(a));
    } else {
        law_text_is_sent_in_order(a, b.drop_last(), c);
        assert((a + b).drop_last() =~= a + b.drop_last());
        assert((a + b).last() == b.last());
    }
}

/// A lock that is given back is free: the own flag is down, and the other core takes the lock with
/// its next look. The turn goes over before the flag is lowered. A failed attempt lowers the flag
/// too.
pub proof fn law_released_lock_is_free(d: Duel, turn: u32)
    requires
        d.flags.1 == 1,
    ensures
        d.sides.0 is Holding ==> {
            let e = first_moves(d, Move::Release);
            &&& e.sides.0 is Away && e.flags == (0u32, d.flags.1) && e.sides.1 == d.sides.1
            &&& (d.sides.1 is Trying || (d.sides.1 matches Side::Waiting(w) && w.phase is Contend))
                ==> first_moves(swapped(e), Move::Look { turn }).sides.0 is Holding
        },
        d.sides.0 is Trying ==> {
            let e = first_moves(d, Move::Look { turn });
            e.sides.0 is Away && e.flags == (0u32, d.flags.1) && e.sides.1 == d.sides.1
        },
        release_script() =~= seq![
            HwOp::Fence,
            HwOp::Write { addr: TURN, value: 0 },
            HwOp::Write { addr: MY_FLAG, value: 0 },
            HwOp::Fence,
        ],
{
    reveal_with_fuel(flag_after, 5);
}

/// A core that waits while the other one contends keeps its flag up while it has the turn, lowers
/// it where the other one has, and raises it again when the turn comes; each round counts one
/// look.
pub proof fn law_turn_decides_who_yields(d: Duel, w: LockWait, turn: u32)
    requires
        d.sides.0 == Side::Waiting(w),
        d.flags == (1u32, 1u32),
        w.spins < 1_999_999,
        w.phase is Contend,
    ensures
        ({
            let e = first_moves(d, Move::Look { turn });
            let f = first_moves(e, Move::Look { turn });
            let g = first_moves(f, Move::Look { turn });
            let back = first_moves(g, Move::Look { turn: 1 });
            let again = Side::Waiting(LockWait { phase: LockPhase::Contend, spins: (w.spins + 1) as u32 });
            &&& e.flags == d.flags && e.sides.0 is Waiting
            &&& turn == 1 ==> f.flags == d.flags && f.sides.0 == again
            &&& turn != 1 ==> f.flags == (0u32, 1u32) && g.flags == f.flags && g.sides.0 is Waiting
            &&& turn != 1 ==> back.flags == (1u32, 1u32) && (back.sides.0 matches Side::Waiting(n)
                && n.phase is Contend && n.spins == w.spins + 2)
        }),
{
    reveal_with_fuel(flag_after, 5);
}

} // verus!
