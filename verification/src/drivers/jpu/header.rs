//! JPEG header parsing: SOF, DHT, DQT, DRI and SOS segments, as ITU-T T.81 lays them out.
//!
//! A segment is `FF xx` followed by a big-endian 16-bit length that counts itself but not the
//! marker. The walk below goes from marker to marker until it reaches the start of scan.
use vstd::arithmetic::power2::{lemma2_to64, lemma_pow2_unfold, pow2};
use vstd::prelude::*;

verus! {

broadcast use vstd::array::group_array_axioms;

/// Pixel format 4:2:0.
pub const FORMAT_420: u32 = 0;

/// Pixel format 4:2:2.
pub const FORMAT_422: u32 = 1;

/// Pixel format 2:2:4 (vertical subsampling only).
pub const FORMAT_224: u32 = 2;

/// Pixel format 4:4:4.
pub const FORMAT_444: u32 = 3;

/// Grey scale.
pub const FORMAT_400: u32 = 4;

/// Number of Huffman code lengths.
pub const HUFF_LENGTH_COUNT: usize = 16;

/// Number of coefficients of a quantisation table.
pub const DQT_TABLE_ENTRIES: usize = 64;

/// Number of components of a baseline colour image.
pub const NUM_JPEG_COMPS: usize = 3;

/// Code stored for a length that has no codes.
pub const HUFF_NO_CODE: u32 = 0xFFFF;

/// Value pointer stored for a length that has no codes.
pub const HUFF_NO_PTR: u8 = 0xFF;

/// Fill for the upper half of a negative 16-bit table entry.
pub const NEG_FILL_16: u32 = 0xFFFF;

/// Fill for the upper 24 bits of a negative 8-bit table entry.
pub const NEG_FILL_24: u32 = 0xFFFFFF;

/// The header was searched to its end without a start of scan.
pub const ERR_NO_SOS: &'static str = "SOS not found";

/// A frame header is cut off.
pub const ERR_SOF_SHORT: &'static str = "SOF too short";

// ---------------------------------------------------------------------------
// Markers
// ---------------------------------------------------------------------------
/// Kind of a JPEG marker.
#[derive(Clone, Copy, Debug, PartialEq, Eq, Structural)]
pub enum Marker {
    /// `FF FF`: a fill byte; the second `FF` may begin the real marker.
    Fill,
    /// `FF 00`: an escaped data byte.
    Stuffing,
    /// Start of image.
    Soi,
    /// End of image.
    Eoi,
    /// Baseline frame.
    Sof0,
    /// Progressive frame.
    Sof2,
    /// Huffman tables.
    Dht,
    /// Start of scan.
    Sos,
    /// Quantisation tables.
    Dqt,
    /// Restart interval.
    Dri,
    /// Any other marker from `C0` up: it has a length field and is skipped.
    OtherWithLength,
    /// Any other marker below `C0`: it has no length field.
    Other,
}

impl Marker {
    /// What the byte behind an `FF` means.
    pub open spec fn of(b: u8) -> Marker {
        if b == 0xFF {
            Marker::Fill
        } else if b == 0x00 {
            Marker::Stuffing
        } else if b == 0xD8 {
            Marker::Soi
        } else if b == 0xD9 {
            Marker::Eoi
        } else if b == 0xC0 {
            Marker::Sof0
        } else if b == 0xC2 {
            Marker::Sof2
        } else if b == 0xC4 {
            Marker::Dht
        } else if b == 0xDA {
            Marker::Sos
        } else if b == 0xDB {
            Marker::Dqt
        } else if b == 0xDD {
            Marker::Dri
        } else if b >= 0xC0 {
            Marker::OtherWithLength
        } else {
            Marker::Other
        }
    }

    /// Classifies the byte behind an `FF`.
    pub fn from_byte(b: u8) -> (m: Marker)
        ensures
            m == Marker::of(b),
    {
        match b {
            0xFF => Marker::Fill,
            0x00 => Marker::Stuffing,
            0xD8 => Marker::Soi,
            0xD9 => Marker::Eoi,
            0xC0 => Marker::Sof0,
            0xC2 => Marker::Sof2,
            0xC4 => Marker::Dht,
            0xDA => Marker::Sos,
            0xDB => Marker::Dqt,
            0xDD => Marker::Dri,
            _ => {
                if b >= 0xC0 {
                    Marker::OtherWithLength
                } else {
                    Marker::Other
                }
            },
        }
    }
}

// ---------------------------------------------------------------------------
// Bytes
// ---------------------------------------------------------------------------
/// Upper four bits.
pub fn high_nibble(b: u8) -> (r: u8)
    ensures
        r == b / 16,
{
    b / 16
}

/// Lower four bits.
pub fn low_nibble(b: u8) -> (r: u8)
    ensures
        r == b % 16,
{
    b % 16
}

/// The table slot that holds class `tc`, destination `th`.
pub open spec fn huff_slot_of(tc: u8, th: u8) -> int {
    2 * (th % 2) + tc % 2
}

/// Slot of a Huffman table: bit 1 is the lowest bit of the destination, bit 0 the lowest bit of
/// the class.
pub fn huff_slot(tc: u8, th: u8) -> (r: usize)
    ensures
        r == huff_slot_of(tc, th),
        r < 4,
{
    (2 * (th % 2) + tc % 2) as usize
}

/// The big-endian 16-bit number at `off`.
pub open spec fn be16_at(d: Seq<u8>, off: int) -> int {
    256 * d[off] + d[off + 1]
}

/// Reads the big-endian 16-bit number at `off`.
pub fn be16(data: &[u8], off: usize) -> (r: usize)
    requires
        off + 1 < data@.len(),
    ensures
        r == be16_at(data@, off as int),
        r <= 0xFFFF,
{
    256 * (data[off] as usize) + data[off + 1] as usize
}

/// The length field of the segment whose `FF` is at `i`, where the data reaches that far.
pub open spec fn seg_length_at(d: Seq<u8>, i: int) -> Option<int> {
    if i + 3 < d.len() {
        Some(be16_at(d, i + 2))
    } else {
        None
    }
}

/// Reads the length field of the segment whose `FF` is at `i`; `None` where the data ends before
/// it does.
pub fn seg_length(data: &[u8], i: usize) -> (r: Option<usize>)
    requires
        i < data@.len() <= isize::MAX,
    ensures
        r is Some <==> seg_length_at(data@, i as int) is Some,
        r matches Some(n) ==> n == seg_length_at(data@, i as int)->0 && n <= 0xFFFF,
{
    let off: usize = i + 2;
    if off + 1 < data.len() {
        Some(be16(data, off))
    } else {
        None
    }
}

/// Sum of a sequence of bytes.
pub open spec fn sum_bytes(s: Seq<u8>) -> nat
    decreases s.len(),
{
    if s.len() == 0 {
        0
    } else {
        sum_bytes(s.drop_last()) + s.last() as nat
    }
}

/// A byte at the end adds itself.
proof fn lemma_sum_push(s: Seq<u8>, b: u8)
    ensures
        sum_bytes(s.push(b)) == sum_bytes(s) + b,
{
    assert(s.push(b).drop_last() =~= s);
}

// ---------------------------------------------------------------------------
// Huffman tables
// ---------------------------------------------------------------------------
/// A Huffman table: the code counts and values of the DHT segment, and what the decoder derives
/// from them.
pub struct HuffTable {
    /// Number of codes of each length, from one bit up.
    pub bits: [u8; 16],
    /// The values, in code order.
    pub values: [u8; 256],
    /// Number of values that the segment announced.
    pub num_values: usize,
    /// First code of each length.
    pub min_codes: [u32; 16],
    /// Last code of each length.
    pub max_codes: [u32; 16],
    /// Index of the first value of each length.
    pub ptrs: [u8; 16],
}

/// Contents of a [`HuffTable`].
#[verifier::ext_equal]
pub struct HuffView {
    pub bits: Seq<u8>,
    pub values: Seq<u8>,
    pub num_values: nat,
    pub min_codes: Seq<u32>,
    pub max_codes: Seq<u32>,
    pub ptrs: Seq<u8>,
}

impl View for HuffTable {
    type V = HuffView;

    open spec fn view(&self) -> HuffView {
        HuffView {
            bits: self.bits@,
            values: self.values@,
            num_values: self.num_values as nat,
            min_codes: self.min_codes@,
            max_codes: self.max_codes@,
            ptrs: self.ptrs@,
        }
    }
}

/// The first code of length `i + 1` in a canonical Huffman code with these counts.
pub open spec fn first_code(bits: Seq<u8>, i: int) -> nat
    decreases i,
{
    if i <= 0 {
        0
    } else {
        2 * (first_code(bits, i - 1) + bits[i - 1] as nat)
    }
}

/// Index of the first value of length `i + 1`.
pub open spec fn first_value(bits: Seq<u8>, i: int) -> nat {
    sum_bytes(bits.take(i))
}

/// Least code of every length.
pub open spec fn min_codes_of(bits: Seq<u8>) -> Seq<u32> {
    Seq::new(
        16,
        |i: int|
            if bits[i] != 0 {
                first_code(bits, i) as u32
            } else {
                HUFF_NO_CODE
            },
    )
}

/// Greatest code of every length.
pub open spec fn max_codes_of(bits: Seq<u8>) -> Seq<u32> {
    Seq::new(
        16,
        |i: int|
            if bits[i] != 0 {
                (first_code(bits, i) + bits[i] - 1) as u32
            } else {
                HUFF_NO_CODE
            },
    )
}

/// Index of the first value of every length, cut to a byte.
pub open spec fn ptrs_of(bits: Seq<u8>) -> Seq<u8> {
    Seq::new(
        16,
        |i: int|
            if bits[i] != 0 {
                (first_value(bits, i) % 256) as u8
            } else {
                HUFF_NO_PTR
            },
    )
}

/// The table with its derived columns computed from its counts.
pub open spec fn generated(t: HuffView) -> HuffView {
    HuffView {
        min_codes: min_codes_of(t.bits),
        max_codes: max_codes_of(t.bits),
        ptrs: ptrs_of(t.bits),
        ..t
    }
}

proof fn lemma_first_code_bound(bits: Seq<u8>, i: int)
    requires
        0 <= i <= bits.len(),
    ensures
        first_code(bits, i) + 510 <= 510 * pow2(i as nat),
    decreases i,
{
    if i > 0 {
        lemma_first_code_bound(bits, i - 1);
        lemma_pow2_unfold(i as nat);
    } else {
        lemma2_to64();
    }
}

/// No code of a canonical table is longer than the table can number: the first code of every
/// length, and the one behind its last, fit 26 bits.
pub proof fn lemma_codes_fit(bits: Seq<u8>, i: int)
    requires
        bits.len() == 16,
        0 <= i < 16,
    ensures
        first_code(bits, i) + bits[i] <= 0x3FFFFFF,
        first_code(bits, i) <= 0x3FFFFFF,
{
    lemma_first_code_bound(bits, i);
    lemma_pow2_mono(i as nat, 16);
    lemma2_to64();
}

proof fn lemma_pow2_mono(a: nat, b: nat)
    requires
        a <= b,
    ensures
        pow2(a) <= pow2(b),
    decreases b,
{
    if a < b {
        lemma_pow2_mono(a, (b - 1) as nat);
        lemma_pow2_unfold(b);
    }
}

/// Canonical codes are prefix free: every code of a longer length, cut to a shorter length, lies
/// behind all codes of that shorter length.
pub proof fn lemma_codes_prefix_free(bits: Seq<u8>, i: int, j: int)
    requires
        0 <= i < j <= bits.len(),
    ensures
        (first_code(bits, i) + bits[i]) * pow2((j - i) as nat) <= first_code(bits, j),
    decreases j,
{
    lemma2_to64();
    let c: int = first_code(bits, i) + bits[i];
    if j > i + 1 {
        lemma_codes_prefix_free(bits, i, j - 1);
        lemma_pow2_unfold((j - i) as nat);
        let p: int = pow2((j - 1 - i) as nat) as int;
        assert((j - i) as nat - 1 == (j - 1 - i) as nat);
        assert(c * (2 * p) == 2 * (c * p)) by (nonlinear_arith);
    } else {
        assert(c * 2 == 2 * c);
    }
}

/// What fills the word above an entry: `fill` where the entry has its top bit.
pub open spec fn fill_above(entry: u32, top: u32, fill: u32) -> u32 {
    if entry & top != 0 {
        fill
    } else {
        0
    }
}

/// An entry with its fill above it stands for the same number as the entry in two's complement, in a whole
/// word.
pub proof fn law_fill_keeps_the_number(wide: u16, narrow: u8)
    ensures
        0x1_0000 * fill_above(wide as u32, 0x8000, NEG_FILL_16) + wide == (if wide < 0x8000 {
            wide as int
        } else {
            0x1_0000_0000 - (0x1_0000 - wide)
        }),
        0x100 * fill_above(narrow as u32, 0x80, NEG_FILL_24) + narrow == (if narrow < 0x80 {
            narrow as int
        } else {
            0x1_0000_0000 - (0x100 - narrow)
        }),
{
    assert(((wide as u32) & 0x8000 != 0 <==> wide >= 0x8000) && ((narrow as u32) & 0x80 != 0 <==> narrow
        >= 0x80)) by (bit_vector);
}

impl HuffTable {
    /// The empty table.
    pub open spec fn empty() -> HuffView {
        HuffView {
            bits: Seq::new(16, |i: int| 0u8),
            values: Seq::new(256, |i: int| 0u8),
            num_values: 0,
            min_codes: Seq::new(16, |i: int| HUFF_NO_CODE),
            max_codes: Seq::new(16, |i: int| HUFF_NO_CODE),
            ptrs: Seq::new(16, |i: int| HUFF_NO_PTR),
        }
    }

    /// A table without codes.
    pub fn new() -> (t: HuffTable)
        ensures
            t@ == HuffTable::empty(),
    {
        let t = HuffTable {
            bits: [0u8; 16],
            values: [0u8; 256],
            num_values: 0,
            min_codes: [HUFF_NO_CODE; 16],
            max_codes: [HUFF_NO_CODE; 16],
            ptrs: [HUFF_NO_PTR; 16],
        };
        assert(t@ =~= HuffTable::empty());
        t
    }

    /// Fill of the upper half of a 16-bit entry: all ones where its top bit is set.
    pub fn sign_extend_16(huff_data: u32) -> (r: u32)
        ensures
            r == fill_above(huff_data, 0x8000, NEG_FILL_16),
            r == (if huff_data & 0x8000 != 0 {
                NEG_FILL_16
            } else {
                0
            }),
    {
        if huff_data & 0x8000 != 0 {
            NEG_FILL_16
        } else {
            0
        }
    }

    /// Fill of the upper 24 bits of an 8-bit entry: all ones where its top bit is set.
    pub fn sign_extend_8(huff_data: u32) -> (r: u32)
        ensures
            r == fill_above(huff_data, 0x80, NEG_FILL_24),
            r == (if huff_data & 0x80 != 0 {
                NEG_FILL_24
            } else {
                0
            }),
    {
        if huff_data & 0x80 != 0 {
            NEG_FILL_24
        } else {
            0
        }
    }

    /// Derives the code ranges and value pointers of every length from the counts.
    pub fn generate(&mut self)
        ensures
            final(self)@ == generated(old(self)@),
    {
        let ghost bits = self.bits@;
        let ghost start = *self;
        let mut ptr_cnt: usize = 0;
        let mut huff_code: u32 = 0;
        let mut i: usize = 0;
        while i < HUFF_LENGTH_COUNT
            invariant
                i <= 16,
                bits.len() == 16,
                self.bits@ == bits,
                self.values == start.values,
                self.num_values == start.num_values,
                ptr_cnt == first_value(bits, i as int),
                ptr_cnt <= 255 * i,
                huff_code == first_code(bits, i as int),
                forall|k: int| 0 <= k < i ==> self.min_codes@[k] == min_codes_of(bits)[k],
                forall|k: int| 0 <= k < i ==> self.max_codes@[k] == max_codes_of(bits)[k],
                forall|k: int| 0 <= k < i ==> self.ptrs@[k] == ptrs_of(bits)[k],
            decreases 16 - i,
        {
            let n: u8 = self.bits[i];
            proof {
                lemma_codes_fit(bits, i as int);
                assert(bits.take(i + 1) =~= bits.take(i as int).push(bits[i as int]));
                lemma_sum_push(bits.take(i as int), bits[i as int]);
            }
            if n != 0 {
                self.ptrs[i] = (ptr_cnt % 256) as u8;
                ptr_cnt = ptr_cnt + n as usize;
                self.min_codes[i] = huff_code;
                self.max_codes[i] = huff_code + (n as u32 - 1);
            } else {
                self.ptrs[i] = HUFF_NO_PTR;
                self.min_codes[i] = HUFF_NO_CODE;
                self.max_codes[i] = HUFF_NO_CODE;
            }
            huff_code = 2 * (huff_code + n as u32);
            i = i + 1;
        }
        assert(self@ =~= generated(start@));
    }
}

// ---------------------------------------------------------------------------
// DHT: loading a Huffman table
// ---------------------------------------------------------------------------
/// The smaller of two numbers.
pub open spec fn min_of(a: int, b: int) -> int {
    if a <= b {
        a
    } else {
        b
    }
}

/// Number of bytes from `off` to the end.
pub open spec fn bytes_left(d: Seq<u8>, off: int) -> int {
    if off <= d.len() {
        d.len() - off
    } else {
        0
    }
}

/// Number of values that the table at `off` announces: the sum of its counts, as far as the data
/// holds them.
pub open spec fn dht_num_values(d: Seq<u8>, off: int) -> nat {
    sum_bytes(d.subrange(off + 1, min_of(off + 17, d.len() as int)))
}

/// Whether the values present in the data fit a table.
pub open spec fn dht_fits(d: Seq<u8>, off: int) -> bool {
    dht_num_values(d, off) <= 256 || off + 17 + 256 >= d.len()
}

/// The table `t` after the table at `off` was loaded into it; where the data ends early, the rest
/// keeps its old contents.
pub open spec fn dht_loaded(d: Seq<u8>, off: int, t: HuffView) -> HuffView {
    generated(
        HuffView {
            bits: Seq::new(
                16,
                |j: int|
                    if off + 1 + j < d.len() {
                        d[off + 1 + j]
                    } else {
                        t.bits[j]
                    },
            ),
            values: Seq::new(
                256,
                |j: int|
                    if j < dht_num_values(d, off) && off + 17 + j < d.len() {
                        d[off + 17 + j]
                    } else {
                        t.values[j]
                    },
            ),
            num_values: dht_num_values(d, off),
            ..t
        },
    )
}

impl HuffTable {
    /// Loads the table whose class and destination byte is at `offset`, and derives its codes.
    /// Returns the number of values it announces, or `None` where more than 256 of them are
    /// present.
    fn load(&mut self, data: &[u8], offset: usize) -> (r: Option<usize>)
        requires
            offset + 1 < data@.len() <= isize::MAX,
        ensures
            r is Some <==> dht_fits(data@, offset as int),
            r matches Some(n) ==> {
                &&& n == dht_num_values(data@, offset as int)
                &&& n <= 4080
                &&& final(self)@ == dht_loaded(data@, offset as int, old(self)@)
            },
    {
        let ghost d = data@;
        let ghost off = offset as int;
        let ghost start = self@;
        let mut num_values: usize = 0;
        let mut j: usize = 0;
        assert(d.subrange(off + 1, off + 1) =~= Seq::empty());
        while j < HUFF_LENGTH_COUNT
            invariant
                j <= 16,
                d == data@,
                off == offset,
                offset + 1 < data@.len() <= isize::MAX,
                num_values <= 255 * j,
                num_values == sum_bytes(d.subrange(off + 1, min_of(off + 1 + j, d.len() as int))),
                self.values@ == start.values,
                self.num_values as nat == start.num_values,
                self.min_codes@ == start.min_codes,
                self.max_codes@ == start.max_codes,
                self.ptrs@ == start.ptrs,
                forall|k: int|
                    0 <= k < 16 ==> self.bits@[k] == (if k < j && off + 1 + k < d.len() {
                        d[off + 1 + k]
                    } else {
                        start.bits[k]
                    }),
            decreases 16 - j,
        {
            if offset + 1 + j < data.len() {
                let b: u8 = data[offset + 1 + j];
                self.bits[j] = b;
                num_values = num_values + b as usize;
                proof {
                    assert(d.subrange(off + 1, off + 2 + j) =~= d.subrange(
                        off + 1,
                        off + 1 + j,
                    ).push(b));
                    lemma_sum_push(d.subrange(off + 1, off + 1 + j), b);
                }
            }
            j = j + 1;
        }
        if num_values > 256 && offset + 17 + 256 < data.len() {
            return None;
        }
        j = 0;
        while j < num_values
            invariant
                j <= num_values <= 4080,
                d == data@,
                off == offset,
                offset + 1 < data@.len() <= isize::MAX,
                num_values <= 256 || offset + 17 + 256 >= data@.len(),
                self.bits@ =~= dht_loaded(d, off, start).bits,
                self.min_codes@ == start.min_codes,
                self.max_codes@ == start.max_codes,
                self.ptrs@ == start.ptrs,
                forall|k: int|
                    0 <= k < 256 ==> self.values@[k] == (if k < j && off + 17 + k < d.len() {
                        d[off + 17 + k]
                    } else {
                        start.values[k]
                    }),
            decreases num_values - j,
        {
            if offset + 17 + j < data.len() {
                self.values[j] = data[offset + 17 + j];
            }
            j = j + 1;
        }
        self.num_values = num_values;
        self.generate();
        assert(self@ =~= dht_loaded(d, off, start));
        Some(num_values)
    }
}

// ---------------------------------------------------------------------------
// DQT: loading a quantisation table
// ---------------------------------------------------------------------------
/// A quantisation table, in the order of the data.
pub struct QuantTable {
    pub values: [u16; 64],
}

impl View for QuantTable {
    type V = Seq<u16>;

    open spec fn view(&self) -> Seq<u16> {
        self.values@
    }
}

/// The table `t` after the table at `off` was loaded into it: one byte for each coefficient, or
/// two in big-endian order where `wide`.
pub open spec fn dqt_loaded(d: Seq<u8>, off: int, wide: bool, t: Seq<u16>) -> Seq<u16> {
    Seq::new(
        64,
        |j: int|
            if wide {
                if off + 2 + 2 * j < d.len() {
                    be16_at(d, off + 1 + 2 * j) as u16
                } else {
                    t[j]
                }
            } else {
                if off + 1 + j < d.len() {
                    d[off + 1 + j] as u16
                } else {
                    t[j]
                }
            },
    )
}

impl QuantTable {
    /// A table of zeros.
    pub fn new() -> (t: QuantTable)
        ensures
            t@ == Seq::new(64, |i: int| 0u16),
    {
        let t = QuantTable { values: [0u16; 64] };
        assert(t@ =~= Seq::new(64, |i: int| 0u16));
        t
    }

    /// Loads the coefficients behind the precision and destination byte at `offset`.
    fn load(&mut self, data: &[u8], offset: usize, wide: bool)
        requires
            offset + 1 < data@.len() <= isize::MAX,
        ensures
            final(self)@ == dqt_loaded(data@, offset as int, wide, old(self)@),
    {
        let ghost d = data@;
        let ghost off = offset as int;
        let ghost start = self@;
        let mut j: usize = 0;
        while j < DQT_TABLE_ENTRIES
            invariant
                j <= 64,
                d == data@,
                off == offset,
                offset + 1 < data@.len() <= isize::MAX,
                forall|k: int|
                    0 <= k < 64 ==> self.values@[k] == (if k < j {
                        dqt_loaded(d, off, wide, start)[k]
                    } else {
                        start[k]
                    }),
            decreases 64 - j,
        {
            if wide {
                if offset + 1 + j * 2 + 1 < data.len() {
                    self.values[j] = be16(data, offset + 1 + j * 2) as u16;
                }
            } else {
                if offset + 1 + j < data.len() {
                    self.values[j] = data[offset + 1 + j] as u16;
                }
            }
            j = j + 1;
        }
        assert(self@ =~= dqt_loaded(d, off, wide, start));
    }
}

// ---------------------------------------------------------------------------
// The header
// ---------------------------------------------------------------------------
/// What the decoder needs to know of an image.
pub struct JpegHeaderInfo {
    pub width: u32,
    pub height: u32,
    pub num_components: u32,
    /// Sampling factors `(horizontal, vertical)` of Y, Cb and Cr.
    pub sampling: [(u8, u8); 3],
    pub format: u32,
    /// Where the entropy-coded data begins.
    pub ecs_offset: usize,
    pub restart_interval: u32,
    /// DC table of each scan component.
    pub dc_huff_tbl: [usize; 3],
    /// AC table of each scan component.
    pub ac_huff_tbl: [usize; 3],
    /// Quantisation table of each component.
    pub quant_tbl: [usize; 3],
    pub huff_tables: [HuffTable; 4],
    pub quant_tables: [QuantTable; 4],
    /// One more than the greatest table destination seen.
    pub quant_table_count: usize,
}

/// Contents of a [`JpegHeaderInfo`].
#[verifier::ext_equal]
pub struct HeaderView {
    pub width: u32,
    pub height: u32,
    pub num_components: u32,
    pub sampling: Seq<(u8, u8)>,
    pub format: u32,
    pub ecs_offset: int,
    pub restart_interval: u32,
    pub dc_huff_tbl: Seq<usize>,
    pub ac_huff_tbl: Seq<usize>,
    pub quant_tbl: Seq<usize>,
    pub huff_tables: Seq<HuffView>,
    pub quant_tables: Seq<Seq<u16>>,
    pub quant_table_count: int,
}

impl View for JpegHeaderInfo {
    type V = HeaderView;

    open spec fn view(&self) -> HeaderView {
        HeaderView {
            width: self.width,
            height: self.height,
            num_components: self.num_components,
            sampling: self.sampling@,
            format: self.format,
            ecs_offset: self.ecs_offset as int,
            restart_interval: self.restart_interval,
            dc_huff_tbl: self.dc_huff_tbl@,
            ac_huff_tbl: self.ac_huff_tbl@,
            quant_tbl: self.quant_tbl@,
            huff_tables: Seq::new(4, |k: int| self.huff_tables@[k]@),
            quant_tables: Seq::new(4, |k: int| self.quant_tables@[k]@),
            quant_table_count: self.quant_table_count as int,
        }
    }
}

/// The header before anything was read.
pub open spec fn blank_header() -> HeaderView {
    HeaderView {
        width: 0,
        height: 0,
        num_components: 0,
        sampling: seq![(2u8, 2u8), (1u8, 1u8), (1u8, 1u8)],
        format: FORMAT_420,
        ecs_offset: 0,
        restart_interval: 0,
        dc_huff_tbl: seq![0usize, 0usize, 0usize],
        ac_huff_tbl: seq![0usize, 0usize, 0usize],
        quant_tbl: seq![0usize, 0usize, 0usize],
        huff_tables: Seq::new(4, |k: int| HuffTable::empty()),
        quant_tables: Seq::new(4, |k: int| Seq::new(64, |i: int| 0u16)),
        quant_table_count: 0,
    }
}

impl JpegHeaderInfo {
    /// A header without contents.
    pub fn new() -> (h: JpegHeaderInfo)
        ensures
            h@ == blank_header(),
    {
        let h = JpegHeaderInfo {
            width: 0,
            height: 0,
            num_components: 0,
            sampling: [(2, 2), (1, 1), (1, 1)],
            format: FORMAT_420,
            ecs_offset: 0,
            restart_interval: 0,
            dc_huff_tbl: [0usize; 3],
            ac_huff_tbl: [0usize; 3],
            quant_tbl: [0usize; 3],
            huff_tables: [HuffTable::new(), HuffTable::new(), HuffTable::new(), HuffTable::new()],
            quant_tables: [
                QuantTable::new(),
                QuantTable::new(),
                QuantTable::new(),
                QuantTable::new(),
            ],
            quant_table_count: 0,
        };
        assert(h@ =~~= blank_header());
        h
    }
}

/// What a DHT segment does to the header: its tables are loaded one behind the other. `None`
/// where a table does not fit.
pub open spec fn dht_applied(d: Seq<u8>, off: int, end: int, h: HeaderView) -> Option<HeaderView>
    decreases bytes_left(d, off),
{
    if off < end && off + 1 < d.len() {
        if dht_fits(d, off) {
            let slot = huff_slot_of(d[off] / 16, d[off] % 16);
            dht_applied(
                d,
                off + 17 + dht_num_values(d, off),
                end,
                HeaderView {
                    huff_tables: h.huff_tables.update(
                        slot,
                        dht_loaded(d, off, h.huff_tables[slot]),
                    ),
                    ..h
                },
            )
        } else {
            None
        }
    } else {
        Some(h)
    }
}

/// What a DQT segment does to the header. `None` where a table would go to a destination that
/// does not exist.
pub open spec fn dqt_applied(d: Seq<u8>, off: int, end: int, h: HeaderView) -> Option<HeaderView>
    decreases bytes_left(d, off),
{
    if off < end && off + 1 < d.len() {
        let tq = (d[off] % 16) as int;
        let wide = d[off] / 16 != 0;
        if tq >= 4 && (!wide || off + 2 < d.len()) {
            None
        } else {
            dqt_applied(
                d,
                off + 1 + (if wide {
                    128int
                } else {
                    64int
                }),
                end,
                HeaderView {
                    quant_tables: if tq < 4 {
                        h.quant_tables.update(tq, dqt_loaded(d, off, wide, h.quant_tables[tq]))
                    } else {
                        h.quant_tables
                    },
                    quant_table_count: if tq >= h.quant_table_count {
                        tq + 1
                    } else {
                        h.quant_table_count
                    },
                    ..h
                },
            )
        }
    } else {
        Some(h)
    }
}

/// Loads the tables of a DHT segment; `false` where one does not fit.
fn parse_dht(data: &[u8], start: usize, end: usize, header_info: &mut JpegHeaderInfo) -> (r: bool)
    requires
        start <= data@.len() + 4,
        data@.len() <= isize::MAX,
    ensures
        r <==> dht_applied(data@, start as int, end as int, old(header_info)@) is Some,
        r ==> final(header_info)@ == dht_applied(
            data@,
            start as int,
            end as int,
            old(header_info)@,
        )->0,
{
    let ghost d = data@;
    let mut offset: usize = start;
    while offset < end && offset + 1 < data.len()
        invariant
            d == data@,
            data@.len() <= isize::MAX,
            offset <= isize::MAX + 4100,
            dht_applied(d, start as int, end as int, old(header_info)@) == dht_applied(
                d,
                offset as int,
                end as int,
                header_info@,
            ),
        decreases bytes_left(d, offset as int),
    {
        let tc_th: u8 = data[offset];
        let table_idx: usize = huff_slot(high_nibble(tc_th), low_nibble(tc_th));
        let ghost before = header_info@;
        let loaded = header_info.huff_tables[table_idx].load(data, offset);
        match loaded {
            None => {
                return false;
            },
            Some(num_values) => {
                proof {
                    assert(header_info@ =~~= HeaderView {
                        huff_tables: before.huff_tables.update(
                            table_idx as int,
                            dht_loaded(d, offset as int, before.huff_tables[table_idx as int]),
                        ),
                        ..before
                    });
                }
                offset = offset + 17 + num_values;
            },
        }
    }
    true
}

/// Loads the tables of a DQT segment; `false` where one has no destination.
fn parse_dqt(data: &[u8], start: usize, end: usize, header_info: &mut JpegHeaderInfo) -> (r: bool)
    requires
        start <= data@.len() + 4,
        data@.len() <= isize::MAX,
    ensures
        r <==> dqt_applied(data@, start as int, end as int, old(header_info)@) is Some,
        r ==> final(header_info)@ == dqt_applied(
            data@,
            start as int,
            end as int,
            old(header_info)@,
        )->0,
{
    let ghost d = data@;
    let mut offset: usize = start;
    while offset < end && offset + 1 < data.len()
        invariant
            d == data@,
            data@.len() <= isize::MAX,
            offset <= isize::MAX + 200,
            dqt_applied(d, start as int, end as int, old(header_info)@) == dqt_applied(
                d,
                offset as int,
                end as int,
                header_info@,
            ),
        decreases bytes_left(d, offset as int),
    {
        let pq_tq: u8 = data[offset];
        let tq: usize = low_nibble(pq_tq) as usize;
        let wide: bool = high_nibble(pq_tq) != 0;
        let ghost before = header_info@;
        if tq >= 4 {
            if !wide || offset + 2 < data.len() {
                return false;
            }
        } else {
            header_info.quant_tables[tq].load(data, offset, wide);
        }
        if tq >= header_info.quant_table_count {
            header_info.quant_table_count = tq + 1;
        }
        proof {
            assert(header_info@ =~~= HeaderView {
                quant_tables: if tq < 4 {
                    before.quant_tables.update(
                        tq as int,
                        dqt_loaded(d, offset as int, wide, before.quant_tables[tq as int]),
                    )
                } else {
                    before.quant_tables
                },
                quant_table_count: if tq >= before.quant_table_count {
                    tq + 1
                } else {
                    before.quant_table_count
                },
                ..before
            });
        }
        offset = offset + 1 + (if wide {
            128
        } else {
            64
        });
    }
    true
}

/// The pixel format that the sampling factors of Y and Cb stand for.
pub open spec fn format_of(y: (u8, u8), cb: (u8, u8)) -> u32 {
    if y == (2u8, 2u8) && cb == (1u8, 1u8) {
        FORMAT_420
    } else if y == (2u8, 1u8) {
        FORMAT_422
    } else if y == (1u8, 2u8) {
        FORMAT_224
    } else {
        FORMAT_444
    }
}

/// The component entries behind a frame header, where all three are present.
pub open spec fn sof_sampling(d: Seq<u8>, i: int) -> Seq<(u8, u8)> {
    Seq::new(3, |c: int| (d[i + 11 + 3 * c] / 16, d[i + 11 + 3 * c] % 16))
}

/// What the frame header at `i` does to the header. A colour image whose component entries are
/// cut off keeps the sampling it had; anything but three components counts as grey.
pub open spec fn sof_applied(d: Seq<u8>, i: int, h: HeaderView) -> HeaderView {
    let sized = HeaderView {
        height: be16_at(d, i + 5) as u32,
        width: be16_at(d, i + 7) as u32,
        num_components: d[i + 9] as u32,
        ..h
    };
    if d[i + 9] == 3 {
        if i + 19 <= d.len() {
            HeaderView {
                sampling: sof_sampling(d, i),
                quant_tbl: Seq::new(3, |c: int| d[i + 12 + 3 * c] as usize),
                format: format_of(sof_sampling(d, i)[0], sof_sampling(d, i)[1]),
                ..sized
            }
        } else {
            sized
        }
    } else {
        HeaderView {
            sampling: seq![(1u8, 1u8), (1u8, 1u8), (1u8, 1u8)],
            format: FORMAT_400,
            ..sized
        }
    }
}

/// Whether the scan header at `i` names the tables of component `k`.
pub open spec fn scan_names(d: Seq<u8>, i: int, k: int) -> bool {
    i + 7 + 2 * k <= d.len() && k < d[i + 4]
}

/// What the scan header at `i`, of length `length`, does to the header.
pub open spec fn sos_applied(d: Seq<u8>, i: int, length: int, h: HeaderView) -> HeaderView {
    HeaderView {
        dc_huff_tbl: Seq::new(
            3,
            |k: int|
                if scan_names(d, i, k) {
                    (d[i + 6 + 2 * k] / 16) as usize
                } else {
                    h.dc_huff_tbl[k]
                },
        ),
        ac_huff_tbl: Seq::new(
            3,
            |k: int|
                if scan_names(d, i, k) {
                    (d[i + 6 + 2 * k] % 16) as usize
                } else {
                    h.ac_huff_tbl[k]
                },
        ),
        ecs_offset: i + 2 + length,
        ..h
    }
}

/// What the restart interval segment at `i` does to the header.
pub open spec fn dri_applied(d: Seq<u8>, i: int, h: HeaderView) -> HeaderView {
    if i + 6 <= d.len() {
        HeaderView { restart_interval: be16_at(d, i + 4) as u32, ..h }
    } else {
        h
    }
}

/// Outcome of a header search.
pub enum Parsed {
    /// The start of scan was reached.
    Header(HeaderView),
    /// The header is not usable.
    Fail(&'static str),
    /// A table has no room or no destination.
    OutOfRange,
}

/// The search from position `i` on, with what is known so far.
pub open spec fn walk(d: Seq<u8>, i: int, h: HeaderView) -> Parsed
    decreases bytes_left(d, i),
{
    if i + 1 >= d.len() {
        Parsed::Fail(ERR_NO_SOS)
    } else if d[i] != 0xFF {
        walk(d, i + 1, h)
    } else {
        match Marker::of(d[i + 1]) {
            Marker::Fill => walk(d, i + 1, h),
            Marker::Stuffing | Marker::Soi | Marker::Other => walk(d, i + 2, h),
            Marker::Eoi => Parsed::Fail(ERR_NO_SOS),
            Marker::Sof0 | Marker::Sof2 => {
                if i + 10 >= d.len() {
                    Parsed::Fail(ERR_SOF_SHORT)
                } else {
                    walk(d, i + 2 + be16_at(d, i + 2), sof_applied(d, i, h))
                }
            },
            Marker::Dht => match seg_length_at(d, i) {
                None => walk(d, i + 1, h),
                Some(length) => match dht_applied(d, i + 4, i + 2 + length, h) {
                    None => Parsed::OutOfRange,
                    Some(h2) => walk(d, i + 2 + length, h2),
                },
            },
            Marker::Sos => match seg_length_at(d, i) {
                None => walk(d, i + 1, h),
                Some(length) => Parsed::Header(sos_applied(d, i, length, h)),
            },
            Marker::Dqt => match seg_length_at(d, i) {
                None => walk(d, i + 1, h),
                Some(length) => match dqt_applied(d, i + 4, i + 2 + length, h) {
                    None => Parsed::OutOfRange,
                    Some(h2) => walk(d, i + 2 + length, h2),
                },
            },
            Marker::Dri => match seg_length_at(d, i) {
                None => walk(d, i + 1, dri_applied(d, i, h)),
                Some(length) => walk(d, i + 2 + length, dri_applied(d, i, h)),
            },
            Marker::OtherWithLength => match seg_length_at(d, i) {
                None => walk(d, i + 2, h),
                Some(length) => walk(d, i + 2 + length, h),
            },
        }
    }
}

/// The outcome of parsing `d`.
pub open spec fn parsed(d: Seq<u8>) -> Parsed {
    walk(d, 0, blank_header())
}

/// Whether the numbers of a header are within what its fields in the data can hold.
pub open spec fn header_bounded(h: HeaderView) -> bool {
    &&& h.width <= 0xFFFF
    &&& h.height <= 0xFFFF
    &&& h.num_components <= 0xFF
    &&& h.format <= FORMAT_400
    &&& h.restart_interval <= 0xFFFF
    &&& h.sampling.len() == 3
    &&& forall|c: int| 0 <= c < 3 ==> (#[trigger] h.sampling[c]).0 <= 15 && h.sampling[c].1 <= 15
    &&& forall|c: int| 0 <= c < 3 ==> #[trigger] h.dc_huff_tbl[c] <= 15
    &&& forall|c: int| 0 <= c < 3 ==> #[trigger] h.ac_huff_tbl[c] <= 15
    &&& forall|c: int| 0 <= c < 3 ==> #[trigger] h.quant_tbl[c] <= 0xFF
    &&& 0 <= h.quant_table_count <= 16
    &&& h.huff_tables.len() == 4
    &&& h.quant_tables.len() == 4
}

/// Huffman tables leave the rest of the header alone.
proof fn lemma_dht_bounded(d: Seq<u8>, off: int, end: int, h: HeaderView)
    requires
        header_bounded(h),
    ensures
        dht_applied(d, off, end, h) matches Some(h2) ==> header_bounded(h2),
    decreases bytes_left(d, off),
{
    if off < end && off + 1 < d.len() && dht_fits(d, off) {
        let slot = huff_slot_of(d[off] / 16, d[off] % 16);
        let next = HeaderView {
            huff_tables: h.huff_tables.update(slot, dht_loaded(d, off, h.huff_tables[slot])),
            ..h
        };
        lemma_dht_bounded(d, off + 17 + dht_num_values(d, off), end, next);
    }
}

/// Quantisation tables leave the rest of the header alone.
proof fn lemma_dqt_bounded(d: Seq<u8>, off: int, end: int, h: HeaderView)
    requires
        header_bounded(h),
    ensures
        dqt_applied(d, off, end, h) matches Some(h2) ==> header_bounded(h2),
    decreases bytes_left(d, off),
{
    if off < end && off + 1 < d.len() {
        let tq = (d[off] % 16) as int;
        let wide = d[off] / 16 != 0;
        if !(tq >= 4 && (!wide || off + 2 < d.len())) {
            let next = HeaderView {
                quant_tables: if tq < 4 {
                    h.quant_tables.update(tq, dqt_loaded(d, off, wide, h.quant_tables[tq]))
                } else {
                    h.quant_tables
                },
                quant_table_count: if tq >= h.quant_table_count {
                    tq + 1
                } else {
                    h.quant_table_count
                },
                ..h
            };
            let step = if wide {
                128int
            } else {
                64int
            };
            lemma_dqt_bounded(d, off + 1 + step, end, next);
        }
    }
}

/// Whether position `p` holds a start of scan behind whose header the data begins at `ecs`.
pub open spec fn scan_at(d: Seq<u8>, p: int, ecs: int) -> bool {
    0 <= p && p + 3 < d.len() && d[p] == 0xFF && d[p + 1] == 0xDA && ecs == p + 2 + be16_at(
        d,
        p + 2,
    )
}

/// The search keeps the header bounded and ends at a start of scan.
proof fn lemma_walk(d: Seq<u8>, i: int, h: HeaderView)
    requires
        0 <= i,
        header_bounded(h),
    ensures
        walk(d, i, h) matches Parsed::Header(h2) ==> header_bounded(h2) && exists|p: int|
            #[trigger] scan_at(d, p, h2.ecs_offset),
    decreases bytes_left(d, i),
{
    if i + 1 < d.len() {
        if d[i] != 0xFF {
            lemma_walk(d, i + 1, h);
        } else {
            match Marker::of(d[i + 1]) {
                Marker::Fill => lemma_walk(d, i + 1, h),
                Marker::Stuffing | Marker::Soi | Marker::Other => lemma_walk(d, i + 2, h),
                Marker::Eoi => {},
                Marker::Sof0 | Marker::Sof2 => {
                    if i + 10 < d.len() {
                        lemma_walk(d, i + 2 + be16_at(d, i + 2), sof_applied(d, i, h));
                    }
                },
                Marker::Dht => match seg_length_at(d, i) {
                    None => lemma_walk(d, i + 1, h),
                    Some(length) => {
                        lemma_dht_bounded(d, i + 4, i + 2 + length, h);
                        if let Some(h2) = dht_applied(d, i + 4, i + 2 + length, h) {
                            lemma_walk(d, i + 2 + length, h2);
                        }
                    },
                },
                Marker::Sos => match seg_length_at(d, i) {
                    None => lemma_walk(d, i + 1, h),
                    Some(length) => {
                        assert(scan_at(d, i, sos_applied(d, i, length, h).ecs_offset));
                        assert(header_bounded(sos_applied(d, i, length, h)));
                    },
                },
                Marker::Dqt => match seg_length_at(d, i) {
                    None => lemma_walk(d, i + 1, h),
                    Some(length) => {
                        lemma_dqt_bounded(d, i + 4, i + 2 + length, h);
                        if let Some(h2) = dqt_applied(d, i + 4, i + 2 + length, h) {
                            lemma_walk(d, i + 2 + length, h2);
                        }
                    },
                },
                Marker::Dri => match seg_length_at(d, i) {
                    None => lemma_walk(d, i + 1, dri_applied(d, i, h)),
                    Some(length) => lemma_walk(d, i + 2 + length, dri_applied(d, i, h)),
                },
                Marker::OtherWithLength => match seg_length_at(d, i) {
                    None => lemma_walk(d, i + 2, h),
                    Some(length) => lemma_walk(d, i + 2 + length, h),
                },
            }
        }
    }
}

/// A header that was parsed is bounded: sizes are below 65536, sampling factors and table numbers
/// are four bits wide, and the format is a known one.
pub proof fn law_header_is_bounded(d: Seq<u8>)
    ensures
        parsed(d) matches Parsed::Header(h) ==> header_bounded(h),
{
    lemma_walk(d, 0, blank_header());
}

/// A header is only found where the data holds a start of scan, and the entropy-coded data begins
/// right behind its header.
pub proof fn law_data_follows_scan_header(d: Seq<u8>)
    ensures
        parsed(d) matches Parsed::Header(h) ==> exists|p: int| #[trigger]
            scan_at(d, p, h.ecs_offset),
{
    lemma_walk(d, 0, blank_header());
}

/// Whether `r` is what a search with outcome `p` returns.
pub open spec fn parse_returns(
    r: Result<JpegHeaderInfo, &'static str>,
    p: Parsed,
) -> bool {
    match p {
        Parsed::Header(h) => r matches Ok(info) && info@ == h,
        Parsed::Fail(e) => r == Err::<JpegHeaderInfo, &'static str>(e),
        Parsed::OutOfRange => false,
    }
}

/// Reads the frame header at `i`.
fn parse_sof(data: &[u8], i: usize, header_info: &mut JpegHeaderInfo)
    requires
        i + 10 < data@.len() <= isize::MAX,
    ensures
        final(header_info)@ == sof_applied(data@, i as int, old(header_info)@),
{
    let ghost d = data@;
    let ghost before = header_info@;
    header_info.height = be16(data, i + 5) as u32;
    header_info.width = be16(data, i + 7) as u32;
    header_info.num_components = data[i + 9] as u32;
    if header_info.num_components == 3 {
        let comps: usize = i + 10;
        if comps + 9 <= data.len() {
            let ghost sized = header_info@;
            let mut c: usize = 0;
            while c < NUM_JPEG_COMPS
                invariant
                    c <= 3,
                    d == data@,
                    comps == i + 10,
                    comps + 9 <= d.len() <= isize::MAX,
                    header_info@ == (HeaderView {
                        sampling: header_info.sampling@,
                        quant_tbl: header_info.quant_tbl@,
                        ..sized
                    }),
                    forall|k: int|
                        0 <= k < c ==> header_info.sampling@[k] == sof_sampling(d, i as int)[k],
                    forall|k: int|
                        0 <= k < c ==> header_info.quant_tbl@[k] == d[i + 12 + 3 * k] as usize,
                decreases 3 - c,
            {
                let hv: u8 = data[comps + c * 3 + 1];
                let q: u8 = data[comps + c * 3 + 2];
                header_info.sampling[c] = (high_nibble(hv), low_nibble(hv));
                header_info.quant_tbl[c] = q as usize;
                assert(header_info@ =~~= (HeaderView {
                    sampling: header_info.sampling@,
                    quant_tbl: header_info.quant_tbl@,
                    ..sized
                }));
                c = c + 1;
            }
            assert(header_info.sampling@ =~= sof_sampling(d, i as int));
            let (h1, v1) = header_info.sampling[0];
            let (h2, v2) = header_info.sampling[1];
            header_info.format =
            if h1 == 2 && v1 == 2 && h2 == 1 && v2 == 1 {
                FORMAT_420
            } else if h1 == 2 && v1 == 1 {
                FORMAT_422
            } else if h1 == 1 && v1 == 2 {
                FORMAT_224
            } else {
                FORMAT_444
            };
        }
    } else {
        header_info.sampling = [(1, 1), (1, 1), (1, 1)];
        header_info.format = FORMAT_400;
    }
    assert(header_info@ =~~= sof_applied(d, i as int, before));
}

/// Reads the scan header at `i`.
fn parse_sos(data: &[u8], i: usize, sos_length: usize, header_info: &mut JpegHeaderInfo)
    requires
        i + 3 < data@.len() <= isize::MAX,
        sos_length <= 0xFFFF,
    ensures
        final(header_info)@ == sos_applied(
            data@,
            i as int,
            sos_length as int,
            old(header_info)@,
        ),
{
    let ghost d = data@;
    let ghost before = header_info@;
    if i + 5 < data.len() {
        let named: usize = data[i + 4] as usize;
        let mut k: usize = 0;
        while k < NUM_JPEG_COMPS
            invariant
                k <= 3,
                d == data@,
                i + 5 < d.len() <= isize::MAX,
                named == d[i + 4],
                header_info@ == (HeaderView {
                    dc_huff_tbl: header_info.dc_huff_tbl@,
                    ac_huff_tbl: header_info.ac_huff_tbl@,
                    ..before
                }),
                forall|c: int|
                    0 <= c < 3 ==> header_info.dc_huff_tbl@[c] == (if c < k {
                        sos_applied(d, i as int, 0, before).dc_huff_tbl[c]
                    } else {
                        before.dc_huff_tbl[c]
                    }),
                forall|c: int|
                    0 <= c < 3 ==> header_info.ac_huff_tbl@[c] == (if c < k {
                        sos_applied(d, i as int, 0, before).ac_huff_tbl[c]
                    } else {
                        before.ac_huff_tbl[c]
                    }),
            decreases 3 - k,
        {
            if k < named && i + 5 + k * 2 + 2 <= data.len() {
                let tables: u8 = data[i + 5 + k * 2 + 1];
                header_info.dc_huff_tbl[k] = high_nibble(tables) as usize;
                header_info.ac_huff_tbl[k] = low_nibble(tables) as usize;
                assert(header_info@ =~~= (HeaderView {
                    dc_huff_tbl: header_info.dc_huff_tbl@,
                    ac_huff_tbl: header_info.ac_huff_tbl@,
                    ..before
                }));
            }
            k = k + 1;
        }
    }
    header_info.ecs_offset = i + 2 + sos_length;
    assert(header_info@ =~~= sos_applied(d, i as int, sos_length as int, before));
}

/// Parses a JPEG header up to its start of scan. `None` where a table has no room or no
/// destination.
pub fn try_parse_jpeg_header(data: &[u8]) -> (r: Option<Result<JpegHeaderInfo, &'static str>>)
    requires
        data@.len() <= isize::MAX,
    ensures
        r is None <==> parsed(data@) is OutOfRange,
        r matches Some(res) ==> parse_returns(res, parsed(data@)),
{
    let ghost d = data@;
    let mut i: usize = 0;
    let mut header_info = JpegHeaderInfo::new();
    while i + 1 < data.len()
        invariant
            d == data@,
            data@.len() <= isize::MAX,
            i <= isize::MAX + 0x10001,
            walk(d, i as int, header_info@) == parsed(d),
        decreases bytes_left(d, i as int),
    {
        if data[i] != 0xFF {
            i = i + 1;
            continue;
        }
        match Marker::from_byte(data[i + 1]) {
            Marker::Fill => {
                i = i + 1;
            },
            Marker::Stuffing | Marker::Soi | Marker::Other => {
                i = i + 2;
            },
            Marker::Eoi => {
                return Some(Err(ERR_NO_SOS));
            },
            Marker::Sof0 | Marker::Sof2 => {
                if i + 10 >= data.len() {
                    return Some(Err(ERR_SOF_SHORT));
                }
                parse_sof(data, i, &mut header_info);
                let length: usize = be16(data, i + 2);
                i = i + 2 + length;
            },
            Marker::Dht => match seg_length(data, i) {
                None => {
                    i = i + 1;
                },
                Some(length) => {
                    if !parse_dht(data, i + 4, i + 2 + length, &mut header_info) {
                        return None;
                    }
                    i = i + 2 + length;
                },
            },
            Marker::Sos => match seg_length(data, i) {
                None => {
                    i = i + 1;
                },
                Some(sos_length) => {
                    parse_sos(data, i, sos_length, &mut header_info);
                    return Some(Ok(header_info));
                },
            },
            Marker::Dqt => match seg_length(data, i) {
                None => {
                    i = i + 1;
                },
                Some(length) => {
                    if !parse_dqt(data, i + 4, i + 2 + length, &mut header_info) {
                        return None;
                    }
                    i = i + 2 + length;
                },
            },
            Marker::Dri => {
                let ghost before = header_info@;
                if i + 6 <= data.len() {
                    header_info.restart_interval = be16(data, i + 4) as u32;
                }
                assert(header_info@ =~~= dri_applied(d, i as int, before));
                match seg_length(data, i) {
                    None => {
                        i = i + 1;
                    },
                    Some(length) => {
                        i = i + 2 + length;
                    },
                }
            },
            Marker::OtherWithLength => match seg_length(data, i) {
                None => {
                    i = i + 2;
                },
                Some(length) => {
                    i = i + 2 + length;
                },
            },
        }
    }
    Some(Err(ERR_NO_SOS))
}

/// Parses a JPEG header up to its start of scan.
pub fn parse_jpeg_header(data: &[u8]) -> (r: Result<JpegHeaderInfo, &'static str>)
    requires
        data@.len() <= isize::MAX,
        !(parsed(data@) is OutOfRange),
    ensures
        parse_returns(r, parsed(data@)),
{
    match try_parse_jpeg_header(data) {
        Some(r) => r,
        None => Err(ERR_NO_SOS),
    }
}

} // verus!
