//! What the bring-up of the controller leaves in its registers.

use crate::drivers::usb::dwc2::controller::{
    ahb_idle_op, flush_script, force_host_script, host_init_script, port_op, reset_pulse_script,
    session_script, soft_reset_script,
};
use crate::drivers::usb::dwc2::cv182x::{
    fifo_script, fifo_sizes, gahb_script, gusbcfg_op, HwConfig,
};
use crate::error::UsbError;
use crate::hw::HwOp;
use vstd::prelude::*;

verus! {

/// The bits that the bring-up names.
proof fn lemma_named_bits()
    ensures
        1u32 << 0u32 == 0x1,
        1u32 << 4u32 == 0x10,
        1u32 << 5u32 == 0x20,
        1u32 << 25u32 == 0x200_0000,
        1u32 << 29u32 == 0x2000_0000,
        1u32 << 31u32 == 0x8000_0000,
        (1u32 & 1) << 0u32 == 0x1,
        (1u32 & 1) << 4u32 == 0x10,
        (1u32 & 1) << 5u32 == 0x20,
        (1u32 & 1) << 25u32 == 0x200_0000,
        (1u32 & 1) << 29u32 == 0x2000_0000,
        (1u32 << 0u32) | (1u32 << 29u32) == 0x2000_0001,
        ((0u32 & 1) << 0u32) | ((1u32 & 1) << 29u32) == 0x2000_0000,
        (1u32 << 15u32) | (1u32 << 4u32) | (1u32 << 5u32) | (1u32 << 2u32) | (1u32 << 3u32)
            == 0x803c,
        ((1u32 & 1) << 15u32) | ((1u32 & 1) << 4u32) | ((1u32 & 1) << 5u32) | ((1u32 & 1) << 2u32)
            | ((1u32 & 1) << 3u32) == 0x803c,
        (0xFu32 << 1u32) | (1u32 << 0u32) == 0x1f,
        ((7u32 & 0xF) << 1u32) | ((1u32 & 1) << 0u32) == 0xf,
        (1u32 << 29u32) | (1u32 << 4u32) | (7u32 << 0u32) | (1u32 << 3u32) == 0x2000_001f,
        ((1u32 & 1) << 29u32) | ((0u32 & 1) << 4u32) | ((7u32 & 7) << 0u32) | ((0u32 & 1) << 3u32)
            == 0x2000_0007,
        ((1u32 & 1) << 29u32) | ((0u32 & 1) << 4u32) | ((7u32 & 7) << 0u32) | ((1u32 & 1) << 3u32)
            == 0x2000_000f,
        (1u32 << 2u32) | (3u32 << 0u32) == 0x7,
        ((0u32 & 1) << 2u32) | ((0u32 & 3) << 0u32) == 0,
        ((1u32 & 1) << 5u32) | ((0x10u32 & 0x1F) << 6u32) == 0x420,
        0xFFFFu32 << 16u32 == 0xffff_0000,
{
    assert(1u32 << 0u32 == 0x1 && 1u32 << 4u32 == 0x10 && 1u32 << 5u32 == 0x20 && 1u32 << 25u32
        == 0x200_0000 && 1u32 << 29u32 == 0x2000_0000 && 1u32 << 31u32 == 0x8000_0000 && (1u32 & 1)
        << 0u32 == 0x1 && (1u32 & 1) << 4u32 == 0x10 && (1u32 & 1) << 5u32 == 0x20 && (1u32 & 1)
        << 25u32 == 0x200_0000 && (1u32 & 1) << 29u32 == 0x2000_0000 && (1u32 << 0u32) | (1u32
        << 29u32) == 0x2000_0001 && ((0u32 & 1) << 0u32) | ((1u32 & 1) << 29u32) == 0x2000_0000 && (
    1u32 << 15u32) | (1u32 << 4u32) | (1u32 << 5u32) | (1u32 << 2u32) | (1u32 << 3u32) == 0x803c
        && ((1u32 & 1) << 15u32) | ((1u32 & 1) << 4u32) | ((1u32 & 1) << 5u32) | ((1u32 & 1)
        << 2u32) | ((1u32 & 1) << 3u32) == 0x803c && (0xFu32 << 1u32) | (1u32 << 0u32) == 0x1f && ((
    7u32 & 0xF) << 1u32) | ((1u32 & 1) << 0u32) == 0xf && (1u32 << 29u32) | (1u32 << 4u32) | (7u32
        << 0u32) | (1u32 << 3u32) == 0x2000_001f && ((1u32 & 1) << 29u32) | ((0u32 & 1) << 4u32)
        | ((7u32 & 7) << 0u32) | ((0u32 & 1) << 3u32) == 0x2000_0007 && ((1u32 & 1) << 29u32) | ((
    0u32 & 1) << 4u32) | ((7u32 & 7) << 0u32) | ((1u32 & 1) << 3u32) == 0x2000_000f && (1u32
        << 2u32) | (3u32 << 0u32) == 0x7 && ((0u32 & 1) << 2u32) | ((0u32 & 3) << 0u32) == 0 && ((
    1u32 & 1) << 5u32) | ((0x10u32 & 0x1F) << 6u32) == 0x420 && 0xFFFFu32 << 16u32 == 0xffff_0000)
        by (bit_vector);
}

/// The fields that the controller reports.
proof fn lemma_reported(hw: HwConfig)
    ensures
        (hw.gsnpsid & (0xFFFFu32 << 0u32)) >> 0u32 == hw.gsnpsid % 0x1_0000,
        (hw.ghwcfg3 & (0xFFFFu32 << 16u32)) >> 16u32 == hw.ghwcfg3 / 0x1_0000,
        (hw.ghwcfg2 & (0xFu32 << 14u32)) >> 14u32 == hw.ghwcfg2 / 0x4000 % 16,
        (hw.ghwcfg2 & (3u32 << 3u32)) >> 3u32 == hw.ghwcfg2 / 8 % 4,
        (hw.ghwcfg4 & (3u32 << 14u32)) >> 14u32 == hw.ghwcfg4 / 0x4000 % 4,
{
    let (a, b, c, d) = (hw.gsnpsid, hw.ghwcfg2, hw.ghwcfg3, hw.ghwcfg4);
    assert((a & (0xFFFFu32 << 0u32)) >> 0u32 == a % 0x1_0000 && (c & (0xFFFFu32 << 16u32)) >> 16u32
        == c / 0x1_0000 && (b & (0xFu32 << 14u32)) >> 14u32 == b / 0x4000 % 16 && (b & (3u32
        << 3u32)) >> 3u32 == b / 8 % 4 && (d & (3u32 << 14u32)) >> 14u32 == d / 0x4000 % 4)
        by (bit_vector);
}

/// A soft reset waits until the bus side is idle and sets bit 0. Controllers from revision 420a on
/// report the end in bit 29, which is written back with bit 0 cleared; older ones clear bit 0.
pub proof fn law_soft_reset(hw: HwConfig)
    ensures
        ({
            let s = soft_reset_script(hw);
            let newer = hw.gsnpsid % 0x1_0000 >= 0x420a;
            &&& s[0] matches HwOp::Poll { addr, mask, set, iters, spin, error } && addr
                == 0x0434_0010 && mask == 0x8000_0000 && set
            &&& s[1] == (HwOp::Modify { addr: 0x0434_0010, mask: 1, value: 1 })
            &&& s[2] matches HwOp::Poll { addr, mask, set, iters, spin, error } && addr
                == 0x0434_0010 && mask == (if newer {
                0x2000_0000
            } else {
                1u32
            }) && set == newer && error == UsbError::Timeout
            &&& newer ==> s.len() == 5 && s[3] == (HwOp::Modify {
                addr: 0x0434_0010,
                mask: 0x2000_0001,
                value: 0x2000_0000,
            })
            &&& !newer ==> s.len() == 4
        }),
{
    lemma_named_bits();
    lemma_reported(hw);
}

/// Host mode is forced by bit 29 and waited for; the session signals are overridden in bits 2 to 5
/// and 15.
pub proof fn law_host_mode_is_forced()
    ensures
        force_host_script()[0] == (HwOp::Modify {
            addr: 0x0434_000c,
            mask: 0x2000_0000,
            value: 0x2000_0000,
        }),
        force_host_script()[2] matches HwOp::Poll { addr, mask, set, iters, spin, error } && addr
            == 0x0434_0014 && mask == 1 && set,
        session_script()[0] == (HwOp::Modify { addr: 0x0434_0000, mask: 0x803c, value: 0x803c }),
{
    lemma_named_bits();
}

/// The PHY is used over its parallel interface with the longest timeout, as wide as the controller
/// reports, with host mode still forced. Bursts of sixteen and the global interrupt are switched
/// on, and DMA where the controller has its own.
pub proof fn law_phy_and_bus(hw: HwConfig)
    ensures
        gusbcfg_op(hw) == (HwOp::Modify {
            addr: 0x0434_000c,
            mask: 0x2000_001f,
            value: if hw.ghwcfg4 / 0x4000 % 4 == 1 {
                0x2000_000f
            } else {
                0x2000_0007
            },
        }),
        gahb_script(hw)[0] == (HwOp::Modify { addr: 0x0434_0008, mask: 0x1f, value: 0xf }),
        hw.ghwcfg2 / 8 % 4 == 2 ==> gahb_script(hw).len() == 2 && gahb_script(hw)[1] == (
        HwOp::Modify { addr: 0x0434_0008, mask: 0x20, value: 0x20 }),
        hw.ghwcfg2 / 8 % 4 != 2 ==> gahb_script(hw).len() == 1,
{
    lemma_named_bits();
    lemma_reported(hw);
}

/// The queues lie one behind the other: each register of the two transmit queues has the depth in
/// its upper half and in its lower half the words of all queues before it.
pub proof fn law_queues_lie_behind_one_another(hw: HwConfig)
    requires
        ({
            let f = fifo_sizes(hw.ghwcfg3 / 0x1_0000, (1 + hw.ghwcfg2 / 0x4000 % 16) as u32);
            f.rx + f.nptx + f.ptx <= 0xffff
        }),
    ensures
        ({
            let s = fifo_script(hw);
            let f = fifo_sizes(hw.ghwcfg3 / 0x1_0000, (1 + hw.ghwcfg2 / 0x4000 % 16) as u32);
            &&& s[0] == (HwOp::Write { addr: 0x0434_0024, value: f.rx })
            &&& s[1] == (HwOp::Write {
                addr: 0x0434_0028,
                value: (0x1_0000 * f.nptx + f.rx) as u32,
            })
            &&& s[2] == (HwOp::Write {
                addr: 0x0434_0100,
                value: (0x1_0000 * f.ptx + f.rx + f.nptx) as u32,
            })
        }),
{
    lemma_reported(hw);
    let f = fifo_sizes(hw.ghwcfg3 / 0x1_0000, (1 + hw.ghwcfg2 / 0x4000 % 16) as u32);
    let (a, b, c) = (f.rx, f.nptx, f.ptx);
    let ab = (a + b) as u32;
    assert((a & 0xFFFF) << 0u32 == a && ((b & 0xFFFF) << 16u32) | ((a & 0xFFFF) << 0u32) == 0x1_0000
        * b + a && ((c & 0xFFFF) << 16u32) | ((ab & 0xFFFF) << 0u32) == 0x1_0000 * c + ab)
        by (bit_vector)
        requires
            a <= 0xffff,
            b <= 0xffff,
            c <= 0xffff,
            ab <= 0xffff,
    ;
}

/// A memory of 1336 words or more gets queues of 536, 32 and 768 words; a smaller one a receive
/// queue of 516 words and one for each channel, 256 words, and up to 768 of what is left.
pub proof fn law_queue_depths(total: u32, hc: u32)
    requires
        516 + hc <= u32::MAX,
    ensures
        ({
            let f = fifo_sizes(total, hc);
            &&& total >= 1336 ==> f.rx == 536 && f.nptx == 32 && f.ptx == 768
            &&& total < 1336 ==> f.rx == 516 + hc && f.nptx == 256 && f.ptx <= 768
            &&& total < 1336 && f.rx + f.nptx <= total && f.ptx < 768 ==> f.rx + f.nptx + f.ptx
                == total
            &&& total < 1336 && f.rx + f.nptx > total ==> f.ptx == 0
        }),
{
}

/// Queues are flushed once the bus side is idle: all transmit queues, then the receive queue; each
/// flush is waited for.
pub proof fn law_queues_are_flushed(start: u32, busy: u32)
    ensures
        ({
            let s = flush_script(start, busy);
            &&& s.len() == 5
            &&& s[0] == ahb_idle_op()
            &&& s[1] == (HwOp::Write { addr: 0x0434_0010, value: start })
            &&& s[2] matches HwOp::Poll { addr, mask, set, iters, spin, error } && addr
                == 0x0434_0010 && mask == busy && !set && error == UsbError::Timeout
        }),
{
}

/// The bring-up keeps interrupts away until the end: they are masked and cleared first, then come
/// a reset, host mode, a reset, the session, the PHY, the bus and the queues; the interrupts of
/// both channels are let through behind them, and the PHY is given back last.
pub proof fn law_bring_up_in_order(hw: HwConfig)
    ensures
        host_init_script(hw) =~= seq![
            HwOp::Write { addr: 0x0434_0018, value: 0 },
            HwOp::Write { addr: 0x0434_0014, value: 0xFFFF_FFFF },
        ] + soft_reset_script(hw) + force_host_script() + soft_reset_script(hw) + session_script()
            + seq![gusbcfg_op(hw), HwOp::Write { addr: 0x0434_0e00, value: 0 }] + gahb_script(hw)
            + seq![HwOp::Modify { addr: 0x0434_0400, mask: 0x7, value: 0 }] + fifo_script(hw)
            + flush_script(0x420, 0x20) + flush_script(0x10, 0x10) + seq![
            HwOp::Write { addr: 0x0434_0418, value: 3 },
            HwOp::Modify { addr: 0x0434_0018, mask: 0x200_0000, value: 0x200_0000 },
            HwOp::Write { addr: 0x0434_0014, value: 0xFFFF_FFFF },
            HwOp::Read { addr: 0x0300_6014 },
            HwOp::Write { addr: 0x0300_6014, value: 0 },
            HwOp::Spin { iters: 200_000 },
            HwOp::Read { addr: 0x0300_6014 },
        ],
{
    lemma_named_bits();
}

/// The bus is reset for 60 milliseconds, with the port powered throughout, and given 80 to
/// recover.
pub proof fn law_reset_pulse()
    ensures
        reset_pulse_script() =~= seq![
            port_op(true, true),
            HwOp::Delay { nanos: 60_000_000 },
            port_op(true, false),
            HwOp::Delay { nanos: 80_000_000 },
        ],
{
}

/// Waiting for the bus looks at one register until its bit is set, with 32 turns between two looks,
/// and fails as a timeout.
pub proof fn law_bus_is_waited_for()
    ensures
        ahb_idle_op() matches HwOp::Poll { addr, mask, set, iters, spin, error } && addr
            == 0x0434_0010 && set && spin == 32 && error == UsbError::Timeout,
{
}

} // verus!
