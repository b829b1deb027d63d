//! What is left behind when the firmware stops.

use crate::hw::HwOp;
use crate::ipc::write_script;
use crate::text::{bytes_of, prefixed_hex, push_hex, push_str};
use vstd::prelude::*;

verus! {

/// Where the line of a panic is shown.
pub const PANIC_LINE_PA: usize = 0x0190_0420;

/// Where the beginning of the file name of a panic is shown.
pub const PANIC_FILE_PA: usize = 0x0190_0424;

/// The frame count that stands for a panic.
pub const PANIC_COUNT: u32 = 0xFFFF_FFFF;

pub const MSG_FAULT: &'static str = "\n!!! C906L FAULT: mcause=";

pub const MSG_MEPC: &'static str = " mepc=";

pub const MSG_MTVAL: &'static str = " mtval=";

pub const MSG_END: &'static str = " !!!\n";

/// Byte `k` of a file name, or nothing.
pub open spec fn name_byte(file: Seq<u8>, k: int) -> int {
    if k < file.len() {
        file[k] as int
    } else {
        0
    }
}

/// The first four bytes of a file name as a word, the first one lowest.
pub open spec fn name_word(file: Seq<u8>) -> u32 {
    (name_byte(file, 0) + 0x100 * name_byte(file, 1) + 0x1_0000 * name_byte(file, 2) + 0x100_0000
        * name_byte(file, 3)) as u32
}

/// Byte `k` of a file name, or nothing.
fn byte_at(file: &[u8], k: usize) -> (r: u32)
    ensures
        r == name_byte(file@, k as int),
{
    if k < file.len() {
        file[k] as u32
    } else {
        0
    }
}

/// Leaves the place of a panic, where it is known, and marks the mailbox.
pub fn panic_script(location: Option<(&[u8], u32)>) -> (ops: Vec<HwOp>)
    ensures
        ops@ == (match location {
            Some((file, line)) => seq![
                HwOp::Write { addr: PANIC_LINE_PA, value: line },
                HwOp::Write { addr: PANIC_FILE_PA, value: name_word(file@) },
            ],
            None => Seq::<HwOp>::empty(),
        }) + write_script(PANIC_COUNT, 0, 0),
{
    let mut ops: Vec<HwOp> = Vec::new();
    if let Some((file, line)) = location {
        let f4: u32 = byte_at(file, 0) + 0x100 * byte_at(file, 1) + 0x1_0000 * byte_at(file, 2)
            + 0x100_0000 * byte_at(file, 3);
        ops.push(HwOp::Write { addr: PANIC_LINE_PA, value: line });
        ops.push(HwOp::Write { addr: PANIC_FILE_PA, value: f4 });
    }
    let mut mark: Vec<HwOp> = crate::ipc::write(PANIC_COUNT, 0, 0);
    ops.append(&mut mark);
    ops
}

/// The line that reports an access fault.
pub fn fault_line(mcause: u64, mepc: u64, mtval: u64) -> (line: Vec<u8>)
    ensures
        line@ == bytes_of(MSG_FAULT) + prefixed_hex(mcause as nat) + bytes_of(MSG_MEPC)
            + prefixed_hex(mepc as nat) + bytes_of(MSG_MTVAL) + prefixed_hex(mtval as nat)
            + bytes_of(MSG_END),
{
    let mut line: Vec<u8> = Vec::new();
    push_str(&mut line, MSG_FAULT);
    push_hex(&mut line, mcause);
    push_str(&mut line, MSG_MEPC);
    push_hex(&mut line, mepc);
    push_str(&mut line, MSG_MTVAL);
    push_hex(&mut line, mtval);
    push_str(&mut line, MSG_END);
    assert(line@ =~= bytes_of(MSG_FAULT) + prefixed_hex(mcause as nat) + bytes_of(MSG_MEPC)
        + prefixed_hex(mepc as nat) + bytes_of(MSG_MTVAL) + prefixed_hex(mtval as nat) + bytes_of(
        MSG_END,
    ));
    line
}

/// The word that a panic leaves of a file name has its first byte lowest; a shorter name is filled
/// up with zeros.
pub proof fn law_name_word(a: u8, b: u8, c: u8, d: u8, rest: Seq<u8>)
    ensures
        name_word(seq![a, b, c, d] + rest) == a + 256 * (b + 256 * (c + 256 * d)),
        name_word(seq![a, b, c]) == a + 256 * (b + 256 * c),
        name_word(seq![a, b]) == a + 256 * b,
        name_word(seq![a]) == a,
        name_word(Seq::empty()) == 0,
{
}

} // verus!
