//! What a trap leads to.

use crate::arch::plic::{MBOX_IRQ_SRC, USB_IRQ_SRC};
use riscv::interrupt::{Exception, Interrupt, Trap};
use riscv::register::mcause::Mcause;
use riscv::{ExceptionNumber, InterruptNumber};
use vstd::prelude::*;

verus! {

/// Code of the machine timer interrupt.
pub const MACHINE_TIMER: usize = 7;

/// Code of the machine external interrupt.
pub const MACHINE_EXTERNAL: usize = 11;

/// Code of the load access fault.
pub const LOAD_FAULT: usize = 5;

/// Code of the store access fault.
pub const STORE_FAULT: usize = 7;

/// Why a trap was taken.
#[derive(Clone, Copy, Debug, PartialEq, Eq, Structural)]
pub enum Cause {
    Interrupt(usize),
    Exception(usize),
}

/// Whether `code` is a standard interrupt.
pub open spec fn is_interrupt_code(code: int) -> bool {
    code == 1 || code == 3 || code == 5 || code == 7 || code == 9 || code == 11
}

/// Whether `code` is a standard exception.
pub open spec fn is_exception_code(code: int) -> bool {
    0 <= code <= 15 && code != 10 && code != 14
}

/// The cause that a cause register stands for: the top bit tells interrupts from exceptions.
/// `None` for codes outside the standard.
pub open spec fn cause_of(bits: u64) -> Option<Cause> {
    if bits >= 0x8000_0000_0000_0000 {
        if is_interrupt_code(bits - 0x8000_0000_0000_0000) {
            Some(Cause::Interrupt((bits - 0x8000_0000_0000_0000) as usize))
        } else {
            None
        }
    } else {
        if is_exception_code(bits as int) {
            Some(Cause::Exception(bits as usize))
        } else {
            None
        }
    }
}

/// Calls `riscv::register::mcause::Mcause::cause` and `riscv::interrupt::Trap::try_into`, which
/// split the register into its top bit and its code and look the code up among the standard
/// interrupts or exceptions.
#[verifier::external_body]
fn decode_cause(bits: u64) -> (r: Option<Cause>)
    requires
        usize::BITS == 64,
    ensures
        r == cause_of(bits),
{
    let trap: Result<Trap<Interrupt, Exception>, _> = Mcause::from_bits(bits as usize).cause().try_into();
    match trap {
        Ok(Trap::Interrupt(i)) => Some(Cause::Interrupt(i.number())),
        Ok(Trap::Exception(e)) => Some(Cause::Exception(e.number())),
        Err(_) => None,
    }
}

/// What the handler does about a trap.
#[derive(Clone, Copy, Debug, PartialEq, Eq, Structural)]
pub enum TrapAction {
    /// Claim the external interrupt, serve it and complete it.
    External,
    /// Beat the heart.
    Heartbeat,
    /// Report the fault and stop.
    Fault,
    /// Return.
    Ignore,
}

/// What a trap with this cause register leads to.
pub open spec fn action_of(bits: u64) -> TrapAction {
    if bits == 0x8000_0000_0000_000b {
        TrapAction::External
    } else if bits == 0x8000_0000_0000_0007 {
        TrapAction::Heartbeat
    } else if bits == 5 || bits == 7 {
        TrapAction::Fault
    } else {
        TrapAction::Ignore
    }
}

/// What a trap leads to: external and timer interrupts are served, access faults stop the core,
/// all else is ignored. The cause register is as wide as an address.
pub fn rust_trap_handler(mcause: u64) -> (r: TrapAction)
    requires
        usize::BITS == 64,
    ensures
        r == action_of(mcause),
{
    match decode_cause(mcause) {
        Some(Cause::Interrupt(code)) => {
            if code == MACHINE_EXTERNAL {
                TrapAction::External
            } else if code == MACHINE_TIMER {
                TrapAction::Heartbeat
            } else {
                TrapAction::Ignore
            }
        },
        Some(Cause::Exception(code)) => {
            if code == LOAD_FAULT || code == STORE_FAULT {
                TrapAction::Fault
            } else {
                TrapAction::Ignore
            }
        },
        None => TrapAction::Ignore,
    }
}

/// Who serves an external interrupt.
#[derive(Clone, Copy, Debug, PartialEq, Eq, Structural)]
pub enum ExternalSource {
    Mailbox,
    Usb,
    Unknown,
}

/// Who serves a claimed source.
pub fn external_source(src: u32) -> (r: ExternalSource)
    ensures
        r == (if src == MBOX_IRQ_SRC {
            ExternalSource::Mailbox
        } else if src == USB_IRQ_SRC {
            ExternalSource::Usb
        } else {
            ExternalSource::Unknown
        }),
{
    if src == MBOX_IRQ_SRC {
        ExternalSource::Mailbox
    } else if src == USB_IRQ_SRC {
        ExternalSource::Usb
    } else {
        ExternalSource::Unknown
    }
}

/// The top bit of the cause register tells interrupts from exceptions: of interrupts 11 is served
/// as external and 7 beats the heart, of exceptions 5 and 7 are faults; every other cause is
/// ignored.
pub proof fn law_causes_are_told_apart(code: u64)
    requires
        code < 0x8000_0000_0000_0000,
    ensures
        ({
            let interrupt = action_of((0x8000_0000_0000_0000 + code) as u64);
            let exception = action_of(code);
            &&& interrupt == TrapAction::External <==> code == 11
            &&& interrupt == TrapAction::Heartbeat <==> code == 7
            &&& interrupt != TrapAction::Fault
            &&& exception == TrapAction::Fault <==> code == 5 || code == 7
            &&& exception == TrapAction::Fault || exception == TrapAction::Ignore
        }),
{
}

} // verus!
