//! Output pins.

use crate::hw::HwOp;
use crate::registers::{field_mask, field_val, lemma_whole_word};
use vstd::prelude::*;

verus! {

/// All pins of a register.
pub const PIN_VAL: (u32, u32) = (0xFFFF_FFFF, 0);

/// A port controller: levels at its base, directions behind.
#[derive(Clone, Copy, Debug, PartialEq, Eq, Structural)]
pub struct GPIO {
    pub base: usize,
}

/// A pin of a controller.
#[derive(Clone, Copy, Debug, PartialEq, Eq, Structural)]
pub struct Pin {
    pub base: usize,
    pub num: u8,
}

impl GPIO {
    /// The controller at `base`.
    pub fn new(base: usize) -> (g: GPIO)
        ensures
            g.base == base,
    {
        GPIO { base }
    }

    /// A pin of the controller.
    pub fn pin(&self, num: u8) -> (p: Pin)
        ensures
            p == (Pin { base: self.base, num }),
    {
        Pin { base: self.base, num }
    }
}

impl Pin {
    /// Makes the pin an output, and every other pin of the controller an input.
    pub fn set_output_direction(&self) -> (op: HwOp)
        requires
            self.num < 32,
            self.base + 4 <= usize::MAX,
        ensures
            op == (HwOp::Modify {
                addr: (self.base + 4) as usize,
                mask: 0xFFFF_FFFF,
                value: 1u32 << (self.num as u32),
            }),
    {
        let bit: u32 = 1u32 << (self.num as u32);
        proof {
            lemma_whole_word(bit);
        }
        HwOp::Modify {
            addr: self.base + 4,
            mask: field_mask(PIN_VAL),
            value: field_val(PIN_VAL, bit),
        }
    }

    /// Sets the level of the pin, and lowers every other pin of the controller.
    pub fn set(&self, high: bool) -> (op: HwOp)
        requires
            high ==> self.num < 32,
        ensures
            op == (HwOp::Modify {
                addr: self.base,
                mask: 0xFFFF_FFFF,
                value: if high {
                    1u32 << (self.num as u32)
                } else {
                    0
                },
            }),
    {
        let level: u32 = if high {
            1u32 << (self.num as u32)
        } else {
            0
        };
        proof {
            lemma_whole_word(level);
        }
        HwOp::Modify {
            addr: self.base,
            mask: field_mask(PIN_VAL),
            value: field_val(PIN_VAL, level),
        }
    }
}

} // verus!
