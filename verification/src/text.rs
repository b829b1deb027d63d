//! Numbers and strings as bytes of console text.

use vstd::prelude::*;

verus! {

/// The bytes of a string.
pub open spec fn bytes_of(s: &str) -> Seq<u8> {
    vstd::utf8::encode_utf8(s@)
}

/// `n` in decimal.
pub open spec fn dec_digits(n: nat) -> Seq<u8>
    decreases n,
{
    if n < 10 {
        seq![(48 + n) as u8]
    } else {
        dec_digits(n / 10).push((48 + n % 10) as u8)
    }
}

/// A digit below sixteen.
pub open spec fn hex_digit(n: nat) -> u8 {
    if n < 10 {
        (48 + n) as u8
    } else {
        (87 + n) as u8
    }
}

/// `n` in hexadecimal, without a prefix.
pub open spec fn hex_digits(n: nat) -> Seq<u8>
    decreases n,
{
    if n < 16 {
        seq![hex_digit(n)]
    } else {
        hex_digits(n / 16).push(hex_digit(n % 16))
    }
}

/// `n` in hexadecimal behind `0x`.
pub open spec fn prefixed_hex(n: nat) -> Seq<u8> {
    seq![48u8, 120u8] + hex_digits(n)
}

/// `n` in hexadecimal behind `0x`, filled up with zeros to eight digits.
pub open spec fn wide_hex(n: nat) -> Seq<u8> {
    let d = hex_digits(n);
    seq![48u8, 120u8] + Seq::new(
        if d.len() < 8 {
            (8 - d.len()) as nat
        } else {
            0
        },
        |k: int| 48u8,
    ) + d
}

/// `n` below a hundred in two decimal digits.
pub open spec fn two_digits(n: nat) -> Seq<u8> {
    if n < 10 {
        seq![48u8] + dec_digits(n)
    } else {
        dec_digits(n)
    }
}

/// The number that decimal digits stand for.
pub open spec fn dec_value(s: Seq<u8>) -> nat
    decreases s.len(),
{
    if s.len() == 0 {
        0
    } else {
        10 * dec_value(s.drop_last()) + (s.last() - 48) as nat
    }
}

/// Reading decimal digits gives back the number, and there is always a digit.
pub proof fn law_dec_round_trip(n: nat)
    ensures
        dec_value(dec_digits(n)) == n,
        dec_digits(n).len() >= 1,
        forall|k: int| 0 <= k < dec_digits(n).len() ==> 48 <= #[trigger] dec_digits(n)[k] <= 57,
    decreases n,
{
    let d = dec_digits(n);
    if n >= 10 {
        law_dec_round_trip(n / 10);
        assert(d.drop_last() =~= dec_digits(n / 10));
    } else {
        assert(d.drop_last() =~= Seq::<u8>::empty());
        assert(dec_value(d.drop_last()) == 0);
    }
}

/// The number that a hexadecimal digit stands for.
pub open spec fn nibble(c: u8) -> nat {
    if c < 58 {
        (c - 48) as nat
    } else {
        (c - 87) as nat
    }
}

/// The number that hexadecimal digits stand for.
pub open spec fn hex_value(s: Seq<u8>) -> nat
    decreases s.len(),
{
    if s.len() == 0 {
        0
    } else {
        16 * hex_value(s.drop_last()) + nibble(s.last())
    }
}

/// Reading hexadecimal digits gives back the number.
pub proof fn law_hex_round_trip(n: nat)
    ensures
        hex_value(hex_digits(n)) == n,
        hex_digits(n).len() >= 1,
    decreases n,
{
    let d = hex_digits(n);
    if n >= 16 {
        law_hex_round_trip(n / 16);
        assert(d.drop_last() =~= hex_digits(n / 16));
    } else {
        assert(d.drop_last() =~= Seq::<u8>::empty());
        assert(hex_value(d.drop_last()) == 0);
    }
}

/// Appends a string.
pub fn push_str(out: &mut Vec<u8>, s: &str)
    ensures
        final(out)@ == old(out)@ + bytes_of(s),
{
    let ghost before = out@;
    let b: &[u8] = s.as_bytes();
    let mut k: usize = 0;
    while k < b.len()
        invariant
            k <= b@.len(),
            b@ == bytes_of(s),
            out@ == before + b@.take(k as int),
        decreases b@.len() - k,
    {
        out.push(b[k]);
        k = k + 1;
        assert(out@ =~= before + b@.take(k as int));
    }
    assert(b@.take(k as int) =~= b@);
}

/// Appends the reverse of `tail`.
fn push_reversed(out: &mut Vec<u8>, tail: &Vec<u8>)
    ensures
        final(out)@ == old(out)@ + tail@.reverse(),
{
    let ghost before = out@;
    let mut k: usize = tail.len();
    while k > 0
        invariant
            k <= tail@.len(),
            out@ == before + tail@.reverse().take(tail@.len() - k),
        decreases k,
    {
        k = k - 1;
        out.push(tail[k]);
        assert(out@ =~= before + tail@.reverse().take(tail@.len() - k));
    }
    assert(tail@.reverse().take(tail@.len() as int) =~= tail@.reverse());
}

/// Appends a number in decimal.
pub fn push_dec(out: &mut Vec<u8>, n: u64)
    ensures
        final(out)@ == old(out)@ + dec_digits(n as nat),
{
    let mut tail: Vec<u8> = Vec::new();
    let mut left: u64 = n;
    assert(dec_digits(n as nat) + tail@.reverse() =~= dec_digits(n as nat));
    while left >= 10
        invariant
            dec_digits(n as nat) == dec_digits(left as nat) + tail@.reverse(),
        decreases left,
    {
        let ghost before = tail@;
        tail.push((48 + left % 10) as u8);
        proof {
            assert(tail@.reverse() =~= seq![(48 + left % 10) as u8] + before.reverse());
            assert(dec_digits(left as nat) + before.reverse() =~= dec_digits((left / 10) as nat)
                + tail@.reverse());
        }
        left = left / 10;
    }
    out.push((48 + left) as u8);
    push_reversed(out, &tail);
    assert(out@ =~= old(out)@ + dec_digits(n as nat));
}

/// A digit below sixteen.
fn digit16(n: u64) -> (r: u8)
    requires
        n < 16,
    ensures
        r == hex_digit(n as nat),
{
    if n < 10 {
        (48 + n) as u8
    } else {
        (87 + n) as u8
    }
}

/// The hexadecimal digits of a number, the last one first.
fn hex_tail(n: u64) -> (tail: Vec<u8>)
    ensures
        tail@.reverse() == hex_digits(n as nat),
{
    let mut tail: Vec<u8> = Vec::new();
    let mut left: u64 = n;
    assert(hex_digits(n as nat) + tail@.reverse() =~= hex_digits(n as nat));
    while left >= 16
        invariant
            hex_digits(n as nat) == hex_digits(left as nat) + tail@.reverse(),
        decreases left,
    {
        let ghost before = tail@;
        tail.push(digit16(left % 16));
        proof {
            assert(tail@.reverse() =~= seq![hex_digit((left % 16) as nat)] + before.reverse());
            assert(hex_digits(left as nat) + before.reverse() =~= hex_digits((left / 16) as nat)
                + tail@.reverse());
        }
        left = left / 16;
    }
    let ghost before = tail@;
    tail.push(digit16(left));
    proof {
        assert(tail@.reverse() =~= seq![hex_digit(left as nat)] + before.reverse());
    }
    tail
}

/// Appends a number in hexadecimal behind `0x`.
pub fn push_hex(out: &mut Vec<u8>, n: u64)
    ensures
        final(out)@ == old(out)@ + prefixed_hex(n as nat),
{
    out.push(48);
    out.push(120);
    let tail: Vec<u8> = hex_tail(n);
    push_reversed(out, &tail);
    assert(out@ =~= old(out)@ + prefixed_hex(n as nat));
}

/// Appends a number in hexadecimal behind `0x`, in at least eight digits.
pub fn push_wide_hex(out: &mut Vec<u8>, n: u64)
    ensures
        final(out)@ == old(out)@ + wide_hex(n as nat),
{
    let ghost start = out@;
    out.push(48);
    out.push(120);
    let tail: Vec<u8> = hex_tail(n);
    let ghost zeros = Seq::new(
        if tail@.len() < 8 {
            (8 - tail@.len()) as nat
        } else {
            0
        },
        |k: int| 48u8,
    );
    let ghost head = out@;
    assert(hex_digits(n as nat).len() == tail@.len());
    let mut k: usize = tail.len();
    assert(head + zeros.take(0) =~= head);
    while k < 8
        invariant
            tail@.len() <= k,
            k <= 8 || k == tail@.len(),
            zeros == Seq::new(
                if tail@.len() < 8 {
                    (8 - tail@.len()) as nat
                } else {
                    0
                },
                |k: int| 48u8,
            ),
            out@ == head + zeros.take(k - tail@.len()),
        decreases 8 - k,
    {
        out.push(48);
        k = k + 1;
        assert(out@ =~= head + zeros.take(k - tail@.len()));
    }
    assert(zeros.take(k - tail@.len()) =~= zeros);
    push_reversed(out, &tail);
    assert(out@ =~= start + wide_hex(n as nat));
}

/// Appends a number below a hundred in two decimal digits.
pub fn push_two(out: &mut Vec<u8>, n: u64)
    ensures
        final(out)@ == old(out)@ + two_digits(n as nat),
{
    if n < 10 {
        out.push(48);
    }
    push_dec(out, n);
    assert(out@ =~= old(out)@ + two_digits(n as nat));
}

/// Digits are written out from the right: the last is the remainder by ten, and those before it
/// are the digits of the quotient; a number below ten has one digit.
pub proof fn law_decimal_digits(n: nat)
    ensures
        dec_digits(n).last() == 48 + n % 10,
        n < 10 ==> dec_digits(n).len() == 1,
        n >= 10 ==> dec_digits(n).drop_last() == dec_digits(n / 10),
        n < 100 ==> two_digits(n) =~= seq![(48 + n / 10) as u8, (48 + n % 10) as u8],
{
    if n >= 10 {
        assert(dec_digits(n).drop_last() =~= dec_digits(n / 10));
    }
}

/// Hexadecimal digits run from `0` to `9` and from `a` to `f`, the last is the remainder by
/// sixteen, and those before it are the digits of the quotient. Behind a prefix the digits stand
/// alone, or filled up with zeros to eight.
pub proof fn law_hexadecimal_digits(n: nat)
    ensures
        n % 16 < 10 ==> hex_digits(n).last() == 48 + n % 16,
        n % 16 >= 10 ==> hex_digits(n).last() == 97 + (n % 16 - 10),
        n < 16 ==> hex_digits(n).len() == 1,
        n >= 16 ==> hex_digits(n).drop_last() == hex_digits(n / 16),
        prefixed_hex(n).take(2) =~= seq![48u8, 120u8],
        prefixed_hex(n).skip(2) =~= hex_digits(n),
        wide_hex(n).take(2) =~= seq![48u8, 120u8],
        hex_digits(n).len() <= 8 ==> wide_hex(n).len() == 10,
        forall|k: int|
            2 <= k < wide_hex(n).len() - hex_digits(n).len() ==> #[trigger] wide_hex(n)[k] == 48,
        wide_hex(n).skip(wide_hex(n).len() - hex_digits(n).len()) =~= hex_digits(n),
{
    law_hex_round_trip(n);
    if n >= 16 {
        assert(hex_digits(n).drop_last() =~= hex_digits(n / 16));
    }
}

} // verus!
