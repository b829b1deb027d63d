//! A decoder that is created on demand and started anew when it fails.

use crate::drivers::jpu::decoder::{
    begin_ops, begin_outcome, decodable, stream_pool, DecodeResult, DecodeStart, JpuDecoder,
};
use crate::drivers::jpu::mem::{pages_for, JpuMemoryPool, PhysBuffer, PoolView};
use crate::drivers::jpu::regs::{
    hard_reset_script, hardware_init_script, STREAM_BUF_SIZE, VMEM_PAGE_SIZE,
};
use crate::hw::HwOp;
use crate::platform::{JPU_POOL_PA, JPU_POOL_SIZE, YUV_BUF_PA, YUV_BUF_SIZE};
use crate::text::{bytes_of, prefixed_hex, push_hex, push_str};
use vstd::prelude::*;

verus! {

pub const MSG_READY: &'static str = "[JPU] decoder initialized\n";

pub const MSG_INIT_FAILED: &'static str = "[JPU] init failed: ";

pub const MSG_REINIT_FAILED: &'static str = "[JPU] re-init failed: ";

pub const MSG_DECODE_ERR: &'static str = "[JPU] decode err=";

pub const MSG_RESET: &'static str = " reset#";

pub const NEWLINE: &'static str = "\n";

/// The decoder of the firmware: its stream buffer at the first page of the pool, frames going to
/// the shared buffer.
pub open spec fn the_decoder() -> JpuDecoder {
    JpuDecoder {
        stream_buf: PhysBuffer {
            addr: (pages_for(JPU_POOL_PA as int) * VMEM_PAGE_SIZE) as usize,
            size: STREAM_BUF_SIZE,
        },
        frame_buf: PhysBuffer { addr: YUV_BUF_PA, size: YUV_BUF_SIZE },
    }
}

/// The pool of that decoder.
pub open spec fn the_pool() -> PoolView {
    stream_pool(JPU_POOL_PA as int, JPU_POOL_SIZE as int)
}

/// Decoded frames never reach into the stream: the two buffers of the decoder lie apart.
pub proof fn law_frame_spares_stream()
    ensures
        the_decoder().frame_buf.addr + the_decoder().frame_buf.size
            <= the_decoder().stream_buf.addr,
        the_decoder().stream_buf.addr + the_decoder().stream_buf.size <= JPU_POOL_PA
            + JPU_POOL_SIZE,
{
}

/// The decoder in use, its memory, and how often it had to be started anew.
pub struct JpuSession {
    pub pool: JpuMemoryPool,
    pub decoder: Option<JpuDecoder>,
    pub resets: u32,
}

/// What is done, what is printed, and what comes of it.
#[derive(Debug)]
pub struct SessionStep<T> {
    pub ops: Vec<HwOp>,
    pub text: Vec<u8>,
    pub outcome: Result<T, &'static str>,
}

/// What is printed of reset number `n`: the first one and every sixteenth.
pub open spec fn reset_text(e: &'static str, n: u32) -> Seq<u8> {
    if n == 1 || n % 16 == 0 {
        bytes_of(MSG_DECODE_ERR) + bytes_of(e) + bytes_of(MSG_RESET) + prefixed_hex(n as nat)
            + bytes_of(NEWLINE)
    } else {
        Seq::empty()
    }
}

/// Creates the decoder of the firmware. The pool has room for its buffer, so this succeeds.
fn create_decoder(pool: &mut JpuMemoryPool) -> (r: (Vec<HwOp>, Result<JpuDecoder, &'static str>))
    ensures
        final(pool).wf(),
        final(pool)@ == the_pool(),
        r.0@ == hardware_init_script(),
        r.1 == Ok::<JpuDecoder, &'static str>(the_decoder()),
{
    JpuDecoder::new_with_pool(pool, JPU_POOL_PA, JPU_POOL_SIZE, YUV_BUF_PA, YUV_BUF_SIZE)
}

impl JpuSession {
    /// Whether the session is in order.
    pub open spec fn wf(&self) -> bool {
        self.pool.wf()
    }

    /// The decoder that the next stream meets.
    pub open spec fn next_decoder(&self) -> JpuDecoder {
        match self.decoder {
            Some(d) => d,
            None => the_decoder(),
        }
    }

    /// The pool that the next stream meets.
    pub open spec fn next_pool(&self) -> PoolView {
        if self.decoder is None {
            the_pool()
        } else {
            self.pool@
        }
    }

    /// What is done before the next stream.
    pub open spec fn preparation(&self) -> Seq<HwOp> {
        if self.decoder is None {
            hardware_init_script()
        } else {
            Seq::empty()
        }
    }

    /// What is printed before the next stream.
    pub open spec fn preparation_text(&self) -> Seq<u8> {
        if self.decoder is None {
            bytes_of(MSG_READY)
        } else {
            Seq::empty()
        }
    }

    /// Nothing was decoded yet.
    pub fn new() -> (s: JpuSession)
        ensures
            s.wf(),
            s.pool@.pages == 0,
            s.pool@.base == 0,
            s.pool@.free == Seq::new(64, |k: int| false),
            s.decoder is None,
            s.resets == 0,
    {
        JpuSession { pool: JpuMemoryPool::new(), decoder: None, resets: 0 }
    }

    /// The decoder in use, or the one that would be created.
    fn upcoming(&self) -> (d: JpuDecoder)
        ensures
            d == self.next_decoder(),
    {
        match self.decoder {
            Some(d) => d,
            None => JpuDecoder {
                stream_buf: PhysBuffer {
                    addr: (JPU_POOL_PA + VMEM_PAGE_SIZE - 1) / VMEM_PAGE_SIZE * VMEM_PAGE_SIZE,
                    size: STREAM_BUF_SIZE,
                },
                frame_buf: PhysBuffer { addr: YUV_BUF_PA, size: YUV_BUF_SIZE },
            },
        }
    }

    /// Whether the next decode can deal with a stream.
    pub fn accepts(&self, jpeg: &[u8]) -> (r: bool)
        requires
            jpeg@.len() <= isize::MAX,
        ensures
            r == (self.resets < u32::MAX && decodable(self.next_decoder(), jpeg@)),
    {
        let dec: JpuDecoder = self.upcoming();
        self.resets < u32::MAX && dec.try_decode(jpeg).is_some()
    }

    /// A decode failed: the decoder is dropped and created anew, which brings the unit up again.
    fn recover(&mut self, e: &'static str, ops: &mut Vec<HwOp>, text: &mut Vec<u8>)
        requires
            old(self).wf(),
            old(self).resets < u32::MAX,
        ensures
            final(self).wf(),
            final(self).decoder == Some(the_decoder()),
            final(self).pool@ == the_pool(),
            final(self).resets == old(self).resets + 1,
            final(ops)@ == old(ops)@ + hardware_init_script(),
            final(text)@ == old(text)@ + reset_text(e, (old(self).resets + 1) as u32),
    {
        let n: u32 = self.resets + 1;
        self.resets = n;
        let ghost before = text@;
        if n == 1 || n % 16 == 0 {
            push_str(text, MSG_DECODE_ERR);
            push_str(text, e);
            push_str(text, MSG_RESET);
            push_hex(text, n as u64);
            push_str(text, NEWLINE);
        }
        assert(text@ =~= before + reset_text(e, n));
        if let Some(d) = self.decoder {
            d.release(&mut self.pool);
        }
        self.decoder = None;
        let (mut init, made) = create_decoder(&mut self.pool);
        ops.append(&mut init);
        match made {
            Ok(d) => {
                self.decoder = Some(d);
            },
            Err(why) => {
                push_str(text, MSG_REINIT_FAILED);
                push_str(text, why);
                push_str(text, NEWLINE);
            },
        }
    }

    /// Begins to decode a stream into the shared buffer. Where there is no decoder yet one is
    /// created; where the decode cannot begin the decoder is started anew.
    pub fn decode_to_shared(&mut self, jpeg: &[u8]) -> (r: SessionStep<DecodeResult>)
        requires
            old(self).wf(),
            old(self).resets < u32::MAX,
            jpeg@.len() <= isize::MAX,
            decodable(old(self).next_decoder(), jpeg@),
        ensures
            final(self).wf(),
            ({
                let dec = old(self).next_decoder();
                let begun = old(self).preparation() + begin_ops(dec, jpeg@);
                r.outcome == begin_outcome(dec, jpeg@) && match begin_outcome(dec, jpeg@) {
                    Ok(_) => final(self).decoder == Some(dec) && final(self).pool@
                        == old(self).next_pool() && final(self).resets == old(self).resets && r.ops@ == begun && r.text@ == old(self).preparation_text(),
                    Err(e) => final(self).decoder == Some(the_decoder()) && final(self).pool@
                        == the_pool() && final(self).resets == old(self).resets + 1 && r.ops@ == begun + hardware_init_script()
                        && r.text@ == old(self).preparation_text() + reset_text(
                        e,
                        (old(self).resets + 1) as u32,
                    ),
                }
            }),
    {
        let mut ops: Vec<HwOp> = Vec::new();
        let mut text: Vec<u8> = Vec::new();
        let dec: JpuDecoder = match self.decoder {
            Some(d) => d,
            None => {
                let (mut init, made) = create_decoder(&mut self.pool);
                ops.append(&mut init);
                match made {
                    Ok(d) => {
                        push_str(&mut text, MSG_READY);
                        self.decoder = Some(d);
                        d
                    },
                    Err(e) => {
                        push_str(&mut text, MSG_INIT_FAILED);
                        push_str(&mut text, e);
                        push_str(&mut text, NEWLINE);
                        return SessionStep { ops, text, outcome: Err(e) };
                    },
                }
            },
        };
        assert(ops@ =~= old(self).preparation());
        assert(text@ =~= old(self).preparation_text());
        let mut begun: DecodeStart = dec.decode(jpeg);
        ops.append(&mut begun.ops);
        match begun.outcome {
            Ok(pending) => SessionStep { ops, text, outcome: Ok(pending) },
            Err(e) => {
                self.recover(e, &mut ops, &mut text);
                SessionStep { ops, text, outcome: Err(e) }
            },
        }
    }

    /// Ends a decode with what watching the unit gave: width, height and bytes of the frame. On
    /// failure the unit is reset and the decoder started anew.
    pub fn finish(&mut self, pending: DecodeResult, polled: Result<(), &'static str>) -> (r:
        SessionStep<(u32, u32, usize)>)
        requires
            old(self).wf(),
            old(self).resets < u32::MAX,
        ensures
            final(self).wf(),
            match polled {
                Ok(_) => r.outcome == Ok::<(u32, u32, usize), &'static str>(
                    (pending.width, pending.height, pending.frame_size),
                ) && r.ops@ == Seq::<HwOp>::empty() && r.text@ == Seq::<u8>::empty() && final(self).decoder == old(self).decoder && final(self).pool@ == old(self).pool@ && final(self).resets == old(self).resets,
                Err(e) => r.outcome == Err::<(u32, u32, usize), &'static str>(e) && r.ops@
                    == hard_reset_script() + hardware_init_script() && r.text@ == reset_text(
                    e,
                    (old(self).resets + 1) as u32,
                ) && final(self).decoder == Some(the_decoder()) && final(self).pool@ == the_pool() && final(self).resets == old(self).resets + 1,
            },
    {
        let mut text: Vec<u8> = Vec::new();
        let (mut ops, done) = JpuDecoder::finish(pending, polled);
        match done {
            Ok(d) => SessionStep { ops, text, outcome: Ok((d.width, d.height, d.frame_size)) },
            Err(e) => {
                self.recover(e, &mut ops, &mut text);
                SessionStep { ops, text, outcome: Err(e) }
            },
        }
    }
}

/// How often the decoder had to be started anew.
pub fn reset_count(s: &JpuSession) -> (r: u32)
    ensures
        r == s.resets,
{
    s.resets
}

/// Takes the count of resets out.
pub fn take_reset_count(s: &mut JpuSession) -> (r: u32)
    ensures
        r == old(s).resets,
        final(s).resets == 0,
        final(s).decoder == old(s).decoder,
        final(s).pool == old(s).pool,
{
    let r: u32 = s.resets;
    s.resets = 0;
    r
}

/// Of the failures of the unit the first and every sixteenth are printed.
pub proof fn law_resets_are_printed_sparingly(e: &'static str, n: u32)
    ensures
        n != 1 && n % 16 != 0 ==> reset_text(e, n).len() == 0,
        n == 1 || n % 16 == 0 ==> reset_text(e, n) == bytes_of("[JPU] decode err=") + bytes_of(e)
            + bytes_of(" reset#") + prefixed_hex(n as nat) + bytes_of("\n"),
{
}

} // verus!
