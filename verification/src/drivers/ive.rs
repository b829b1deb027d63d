//! The image engine: converting a frame from YUV to RGB.

use crate::hw::HwOp;
use crate::platform::IVE_BASE;
use crate::registers::{field_val, high32, low32, placed};
use vstd::prelude::*;

verus! {

pub const TOP_CTRL1: usize = IVE_BASE + 0x004;

pub const TOP_SIZE: usize = IVE_BASE + 0x008;

pub const TOP_ENABLE: usize = IVE_BASE + 0x010;

pub const TOP_STATUS: usize = IVE_BASE + 0x090;

pub const TOP_INT_EN: usize = IVE_BASE + 0x094;

pub const TOP_INT_ST: usize = IVE_BASE + 0x098;

pub const IMG_IN_CTRL: usize = IVE_BASE + 0x400;

pub const IMG_IN_SIZE: usize = IVE_BASE + 0x408;

pub const Y_PITCH: usize = IVE_BASE + 0x40c;

pub const C_PITCH: usize = IVE_BASE + 0x410;

pub const IMG_UPD: usize = IVE_BASE + 0x414;

pub const Y_BASE_LO: usize = IVE_BASE + 0x424;

pub const U_BASE_LO: usize = IVE_BASE + 0x42c;

pub const V_BASE_LO: usize = IVE_BASE + 0x434;

pub const IMG_IN_IP: usize = IVE_BASE + 0x468;

pub const FOP_MODE: usize = IVE_BASE + 0x2010;

pub const FOP_EN: usize = IVE_BASE + 0x2014;

pub const ODMA_CTRL: usize = IVE_BASE + 0x2120;

pub const R_BASE_LO: usize = IVE_BASE + 0x2124;

pub const G_BASE_LO: usize = IVE_BASE + 0x212c;

pub const B_BASE_LO: usize = IVE_BASE + 0x2134;

pub const OUT_Y_PITCH: usize = IVE_BASE + 0x213c;

pub const OUT_C_PITCH: usize = IVE_BASE + 0x2140;

pub const OUT_W_M1: usize = IVE_BASE + 0x2148;

pub const OUT_H_M1: usize = IVE_BASE + 0x214c;

pub const COEF_UPD: usize = IVE_BASE + 0x2194;

/// First of twelve coefficient registers.
pub const CSC_C00: usize = IVE_BASE + 0x2198;

pub const CSC_CTRL: usize = IVE_BASE + 0x21c8;

pub const TOP_CTRL1_SOFTRST: (u32, u32) = (1, 0);

/// Starts a conversion.
pub const TOP_CTRL1_FMT_VLD_FG: (u32, u32) = (1, 4);

/// Width less one.
pub const SIZE_W_M1: (u32, u32) = (0x1FFF, 0);

/// Height less one.
pub const SIZE_H_M1: (u32, u32) = (0x1FFF, 16);

pub const TOP_ENABLE_IMG_IN: (u32, u32) = (1, 0);

pub const TOP_ENABLE_CSC: (u32, u32) = (1, 3);

pub const TOP_ENABLE_FILTEROP: (u32, u32) = (1, 15);

pub const IMG_IN_SRC_SEL: (u32, u32) = (3, 0);

pub const SRC_DRAM: u32 = 2;

pub const IMG_IN_FMT_SEL: (u32, u32) = (0xF, 4);

/// The input format that stands for planar 4:2:0.
pub const FMT_YUV420P: u32 = 0;

pub const IMG_IN_BURST: (u32, u32) = (0xF, 8);

/// A bit of unknown meaning that has to be set.
pub const IMG_IN_UNDOC16: (u32, u32) = (1, 16);

/// Shadow registers take effect at once.
pub const IMG_UPD_SHRD_SEL: (u32, u32) = (1, 2);

pub const IMG_IN_IP_CLR: (u32, u32) = (1, 18);

pub const FOP_MODE_MODE: (u32, u32) = (0xF, 0);

pub const FOP_MODE_CSC: u32 = 1;

pub const COEF_UPD_SW: (u32, u32) = (1, 16);

pub const CSC_CTRL_ENMODE: (u32, u32) = (0xF, 0);

pub const CSC_CTRL_ENABLE: (u32, u32) = (1, 4);

pub const ODMA_BLEN: (u32, u32) = (1, 0);

pub const ODMA_FMT_SEL: (u32, u32) = (0xF, 8);

pub const ODMA_RGB888_PLANAR: u32 = 2;

pub const ODMA_DMA_EN: (u32, u32) = (1, 12);

/// BT.601 coefficients of limited range: three factors and an offset for each of R, G and B.
pub const CSC_COEF_BT601_LIMIT: [u32; 12] = [
    1024,
    0,
    1404,
    179188,
    1024,
    344,
    715,
    136040,
    1024,
    1774,
    0,
    226505,
];

/// Coefficients are 19 bits wide.
pub const COEF_MASK: u32 = 0x7_FFFF;

/// Nanoseconds between raising and lowering a reset bit.
pub const RESET_NANOS: u64 = 10_000;

/// Nanoseconds that a conversion may take.
pub const CSC_TIMEOUT_NANOS: u64 = 1_000_000_000;

pub const ERR_CSC_TIMEOUT: &'static str = "IVE CSC timeout";

/// The number that asks for the default input format.
pub const FMT_DEFAULT: u32 = 0xFFFF_FFFF;

/// The input format that the engine is told, as far as it was chosen.
#[derive(Clone, Copy, Debug, PartialEq, Eq, Structural)]
pub struct InputFmt {
    pub chosen: u32,
}

impl InputFmt {
    /// The default format.
    pub fn new() -> (f: InputFmt)
        ensures
            f.chosen == FMT_DEFAULT,
    {
        InputFmt { chosen: FMT_DEFAULT }
    }
}

/// The format in force.
pub open spec fn fmt_in_force(f: InputFmt) -> u32 {
    if f.chosen == FMT_DEFAULT {
        FMT_YUV420P
    } else {
        f.chosen & 0xF
    }
}

/// Chooses the input format; the greatest number goes back to the default.
pub fn set_input_fmt(f: &mut InputFmt, fmt: u32)
    ensures
        final(f).chosen == fmt,
{
    f.chosen = fmt;
}

/// The format in force.
pub fn input_fmt(f: InputFmt) -> (r: u32)
    ensures
        r == fmt_in_force(f),
{
    if f.chosen == FMT_DEFAULT {
        FMT_YUV420P
    } else {
        f.chosen & 0xF
    }
}

/// A write.
pub open spec fn put(addr: int, value: u32) -> HwOp {
    HwOp::Write { addr: addr as usize, value }
}

/// Writing an address to a pair of registers, lower half first.
pub open spec fn base_script(lo: usize, pa: usize) -> Seq<HwOp> {
    seq![
        put(lo as int, (pa as int % 0x1_0000_0000) as u32),
        put(lo + 4, (pa as int / 0x1_0000_0000) as u32),
    ]
}

/// One less, but never less than nothing.
pub open spec fn less_one(n: u32) -> u32 {
    if n == 0 {
        0
    } else {
        (n - 1) as u32
    }
}

/// The size field of an image.
pub open spec fn size_word(width: u32, height: u32) -> u32 {
    placed(SIZE_W_M1, less_one(width)) | placed(SIZE_H_M1, less_one(height))
}

/// Loading the coefficients.
pub open spec fn coef_script() -> Seq<HwOp> {
    Seq::new(12, |k: int| put(CSC_C00 + 4 * k, CSC_COEF_BT601_LIMIT[k] & COEF_MASK))
}

/// Resetting the engine and making it a colour converter for frames of this size.
pub open spec fn convert_setup_script(width: u32, height: u32) -> Seq<HwOp> {
    seq![
        put(TOP_CTRL1 as int, placed(TOP_CTRL1_SOFTRST, 1)),
        HwOp::Delay { nanos: RESET_NANOS },
        put(TOP_CTRL1 as int, placed(TOP_CTRL1_SOFTRST, 0)),
        put(TOP_SIZE as int, size_word(width, height)),
        put(FOP_MODE as int, placed(FOP_MODE_MODE, FOP_MODE_CSC)),
        put(FOP_EN as int, 0),
    ] + coef_script() + seq![
        put(COEF_UPD as int, placed(COEF_UPD_SW, 1)),
        put(CSC_CTRL as int, placed(CSC_CTRL_ENABLE, 1) | placed(CSC_CTRL_ENMODE, 0)),
    ]
}

/// Telling the engine where its input lies.
pub open spec fn input_script(
    fmt: u32,
    y: usize,
    u: usize,
    v: usize,
    y_pitch: u32,
    c_pitch: u32,
    width: u32,
    height: u32,
) -> Seq<HwOp> {
    seq![
        put(IMG_IN_IP as int, placed(IMG_IN_IP_CLR, 1)),
        HwOp::Delay { nanos: RESET_NANOS },
        put(IMG_IN_IP as int, 0),
        put(Y_PITCH as int, y_pitch),
        put(C_PITCH as int, c_pitch),
        put(IMG_IN_SIZE as int, size_word(width, height)),
        put(
            IMG_IN_CTRL as int,
            placed(IMG_IN_SRC_SEL, SRC_DRAM) | placed(IMG_IN_FMT_SEL, fmt) | placed(
                IMG_IN_BURST,
                8,
            ) | placed(IMG_IN_UNDOC16, 1),
        ),
    ] + base_script(Y_BASE_LO, y) + base_script(U_BASE_LO, u) + base_script(V_BASE_LO, v) + seq![
        put(IMG_UPD as int, placed(IMG_UPD_SHRD_SEL, 1)),
        put(
            TOP_ENABLE as int,
            placed(TOP_ENABLE_IMG_IN, 1) | placed(TOP_ENABLE_CSC, 1) | placed(
                TOP_ENABLE_FILTEROP,
                1,
            ),
        ),
    ]
}

/// Telling the engine where its output goes, and starting it.
pub open spec fn output_script(
    r: usize,
    g: usize,
    b: usize,
    pitch: u32,
    width: u32,
    height: u32,
) -> Seq<HwOp> {
    seq![
        put(OUT_Y_PITCH as int, pitch),
        put(OUT_C_PITCH as int, pitch),
        put(OUT_W_M1 as int, placed(SIZE_W_M1, less_one(width))),
        put(OUT_H_M1 as int, placed(SIZE_H_M1, less_one(height))),
    ] + base_script(R_BASE_LO, r) + base_script(G_BASE_LO, g) + base_script(B_BASE_LO, b) + seq![
        put(
            ODMA_CTRL as int,
            placed(ODMA_FMT_SEL, ODMA_RGB888_PLANAR) | placed(ODMA_BLEN, 1) | placed(
                ODMA_DMA_EN,
                1,
            ),
        ),
        put(TOP_INT_ST as int, 0),
        put(TOP_INT_EN as int, 0),
        put(TOP_CTRL1 as int, placed(TOP_CTRL1_FMT_VLD_FG, 1)),
    ]
}

/// Adds the writes of an address to a pair of registers.
fn write_base(ops: &mut Vec<HwOp>, lo: usize, pa: usize)
    requires
        lo + 4 <= usize::MAX,
    ensures
        final(ops)@ == old(ops)@ + base_script(lo, pa),
{
    ops.push(HwOp::Write { addr: lo, value: low32(pa as u64) });
    ops.push(HwOp::Write { addr: lo + 4, value: high32(pa as u64) });
    assert(ops@ =~= old(ops)@ + base_script(lo, pa));
}

/// Adds the loading of the coefficients.
fn write_coefs(ops: &mut Vec<HwOp>)
    ensures
        final(ops)@ == old(ops)@ + coef_script(),
{
    let ghost before = ops@;
    let mut k: usize = 0;
    while k < 12
        invariant
            k <= 12,
            ops@ == before + coef_script().take(k as int),
        decreases 12 - k,
    {
        ops.push(
            HwOp::Write { addr: CSC_C00 + 4 * k, value: CSC_COEF_BT601_LIMIT[k] & COEF_MASK },
        );
        k = k + 1;
        assert(ops@ =~= before + coef_script().take(k as int));
    }
    assert(coef_script().take(12) =~= coef_script());
}

/// The size field of an image.
fn size_of_image(width: u32, height: u32) -> (r: u32)
    ensures
        r == size_word(width, height),
{
    field_val(SIZE_W_M1, width.saturating_sub(1)) | field_val(SIZE_H_M1, height.saturating_sub(1))
}

/// Sets up and starts one conversion from YUV to RGB.
#[verifier::rlimit(40)]
pub fn csc_yuv420_to_rgb888(
    fmt: InputFmt,
    y_pa: usize,
    u_pa: usize,
    v_pa: usize,
    y_pitch: u32,
    c_pitch: u32,
    r_pa: usize,
    g_pa: usize,
    b_pa: usize,
    r_pitch: u32,
    width: u32,
    height: u32,
) -> (ops: Vec<HwOp>)
    ensures
        ops@ == convert_setup_script(width, height) + input_script(
            fmt_in_force(fmt),
            y_pa,
            u_pa,
            v_pa,
            y_pitch,
            c_pitch,
            width,
            height,
        ) + output_script(r_pa, g_pa, b_pa, r_pitch, width, height),
{
    let mut ops: Vec<HwOp> = Vec::new();
    let size: u32 = size_of_image(width, height);
    ops.push(HwOp::Write { addr: TOP_CTRL1, value: field_val(TOP_CTRL1_SOFTRST, 1) });
    ops.push(HwOp::Delay { nanos: RESET_NANOS });
    ops.push(HwOp::Write { addr: TOP_CTRL1, value: field_val(TOP_CTRL1_SOFTRST, 0) });
    ops.push(HwOp::Write { addr: TOP_SIZE, value: size });
    ops.push(HwOp::Write { addr: FOP_MODE, value: field_val(FOP_MODE_MODE, FOP_MODE_CSC) });
    ops.push(HwOp::Write { addr: FOP_EN, value: 0 });
    write_coefs(&mut ops);
    ops.push(HwOp::Write { addr: COEF_UPD, value: field_val(COEF_UPD_SW, 1) });
    ops.push(
        HwOp::Write {
            addr: CSC_CTRL,
            value: field_val(CSC_CTRL_ENABLE, 1) | field_val(CSC_CTRL_ENMODE, 0),
        },
    );
    let ghost setup = convert_setup_script(width, height);
    assert(ops@ =~= setup);
    ops.push(HwOp::Write { addr: IMG_IN_IP, value: field_val(IMG_IN_IP_CLR, 1) });
    ops.push(HwOp::Delay { nanos: RESET_NANOS });
    ops.push(HwOp::Write { addr: IMG_IN_IP, value: 0 });
    ops.push(HwOp::Write { addr: Y_PITCH, value: y_pitch });
    ops.push(HwOp::Write { addr: C_PITCH, value: c_pitch });
    ops.push(HwOp::Write { addr: IMG_IN_SIZE, value: size });
    ops.push(
        HwOp::Write {
            addr: IMG_IN_CTRL,
            value: field_val(IMG_IN_SRC_SEL, SRC_DRAM) | field_val(IMG_IN_FMT_SEL, input_fmt(fmt))
                | field_val(IMG_IN_BURST, 8) | field_val(IMG_IN_UNDOC16, 1),
        },
    );
    write_base(&mut ops, Y_BASE_LO, y_pa);
    write_base(&mut ops, U_BASE_LO, u_pa);
    write_base(&mut ops, V_BASE_LO, v_pa);
    ops.push(HwOp::Write { addr: IMG_UPD, value: field_val(IMG_UPD_SHRD_SEL, 1) });
    ops.push(
        HwOp::Write {
            addr: TOP_ENABLE,
            value: field_val(TOP_ENABLE_IMG_IN, 1) | field_val(TOP_ENABLE_CSC, 1) | field_val(
                TOP_ENABLE_FILTEROP,
                1,
            ),
        },
    );
    let ghost input = input_script(
        fmt_in_force(fmt),
        y_pa,
        u_pa,
        v_pa,
        y_pitch,
        c_pitch,
        width,
        height,
    );
    assert(ops@ =~= setup + input);
    ops.push(HwOp::Write { addr: OUT_Y_PITCH, value: r_pitch });
    ops.push(HwOp::Write { addr: OUT_C_PITCH, value: r_pitch });
    ops.push(
        HwOp::Write { addr: OUT_W_M1, value: field_val(SIZE_W_M1, width.saturating_sub(1)) },
    );
    ops.push(
        HwOp::Write { addr: OUT_H_M1, value: field_val(SIZE_H_M1, height.saturating_sub(1)) },
    );
    write_base(&mut ops, R_BASE_LO, r_pa);
    write_base(&mut ops, G_BASE_LO, g_pa);
    write_base(&mut ops, B_BASE_LO, b_pa);
    ops.push(
        HwOp::Write {
            addr: ODMA_CTRL,
            value: field_val(ODMA_FMT_SEL, ODMA_RGB888_PLANAR) | field_val(ODMA_BLEN, 1)
                | field_val(ODMA_DMA_EN, 1),
        },
    );
    ops.push(HwOp::Write { addr: TOP_INT_ST, value: 0 });
    ops.push(HwOp::Write { addr: TOP_INT_EN, value: 0 });
    ops.push(HwOp::Write { addr: TOP_CTRL1, value: field_val(TOP_CTRL1_FMT_VLD_FG, 1) });
    assert(ops@ =~= setup + input + output_script(r_pa, g_pa, b_pa, r_pitch, width, height));
    ops
}

/// One look at a running conversion: `None` to look again. Any bit of the status means that it is
/// done, and comes before the clock.
pub fn csc_poll(top_status: u32, elapsed_nanos: u64) -> (r: Option<Result<(), &'static str>>)
    ensures
        r == (if top_status != 0 {
            Some(Ok::<(), &'static str>(()))
        } else if elapsed_nanos >= CSC_TIMEOUT_NANOS {
            Some(Err::<(), &'static str>(ERR_CSC_TIMEOUT))
        } else {
            None
        }),
{
    if top_status != 0 {
        return Some(Ok(()));
    }
    if elapsed_nanos >= CSC_TIMEOUT_NANOS {
        return Some(Err(ERR_CSC_TIMEOUT));
    }
    None
}

// ---------------------------------------------------------------------------
// What the engine is told
// ---------------------------------------------------------------------------
/// The size of an image is told as its last column in bits 0 to 12 and its last line in bits 16 to
/// 28.
pub proof fn law_size_is_last_column_and_line(width: u32, height: u32)
    requires
        0 < width <= 8192,
        0 < height <= 8192,
    ensures
        size_word(width, height) & 0x1fff == width - 1,
        (size_word(width, height) >> 16u32) & 0x1fff == height - 1,
        size_word(width, height) & 0xe000_e000 == 0,
{
    let (w, h) = ((width - 1) as u32, (height - 1) as u32);
    let s = ((w & 0x1FFF) << 0u32) | ((h & 0x1FFF) << 16u32);
    assert(s & 0x1fff == w && (s >> 16u32) & 0x1fff == h && s & 0xe000_e000 == 0) by (bit_vector)
        requires
            w < 8192,
            h < 8192,
            s == ((w & 0x1FFF) << 0u32) | ((h & 0x1FFF) << 16u32),
    ;
}

/// The input is told by the pitch of its planes, its size, and the place of each plane, whose two
/// halves give the whole address; the image comes from memory in the format that was asked for.
pub proof fn law_input_planes(
    fmt: u32,
    y: usize,
    u: usize,
    v: usize,
    y_pitch: u32,
    c_pitch: u32,
    width: u32,
    height: u32,
)
    requires
        fmt < 16,
    ensures
        ({
            let s = input_script(fmt, y, u, v, y_pitch, c_pitch, width, height);
            let word = |k: int| s[k]->Write_value;
            &&& s.len() == 15
            &&& s[3] == put(0x0A0A_040C, y_pitch)
            &&& s[4] == put(0x0A0A_0410, c_pitch)
            &&& s[5] == put(0x0A0A_0408, size_word(width, height))
            &&& s[6] == put(0x0A0A_0400, (0x1_0802 + 0x10 * fmt) as u32)
            &&& s[7]->Write_addr == 0x0A0A_0424 && s[8]->Write_addr == 0x0A0A_0428
            &&& word(7) + 0x1_0000_0000 * word(8) == y
            &&& s[9]->Write_addr == 0x0A0A_042C && s[10]->Write_addr == 0x0A0A_0430
            &&& word(9) + 0x1_0000_0000 * word(10) == u
            &&& s[11]->Write_addr == 0x0A0A_0434 && s[12]->Write_addr == 0x0A0A_0438
            &&& word(11) + 0x1_0000_0000 * word(12) == v
            &&& s[13] == put(0x0A0A_0414, 0x4)
            &&& s[14] == put(0x0A0A_0010, 0x8009)
        }),
{
    assert(((2u32 & 3) << 0u32) | ((fmt & 0xF) << 4u32) | ((8u32 & 0xF) << 8u32) | ((1u32 & 1)
        << 16u32) == 0x1_0802 + 0x10 * fmt && (1u32 & 1) << 2u32 == 0x4 && (((1u32 & 1) << 0u32) | ((
    1u32 & 1) << 3u32) | ((1u32 & 1) << 15u32)) == 0x8009) by (bit_vector)
        requires
            fmt < 16,
    ;
}

/// The output is told by its pitch, its last column and line, and the place of each plane; three
/// planes of bytes are asked for, and the start comes last.
pub proof fn law_output_planes(r: usize, g: usize, b: usize, pitch: u32, width: u32, height: u32)
    requires
        0 < width <= 8192,
        0 < height <= 8192,
    ensures
        ({
            let s = output_script(r, g, b, pitch, width, height);
            let word = |k: int| s[k]->Write_value;
            &&& s.len() == 14
            &&& s[0] == put(0x0A0A_213C, pitch)
            &&& s[1] == put(0x0A0A_2140, pitch)
            &&& s[2] == put(0x0A0A_2148, (width - 1) as u32)
            &&& s[3] == put(0x0A0A_214C, (0x1_0000 * (height - 1)) as u32)
            &&& s[4]->Write_addr == 0x0A0A_2124 && s[5]->Write_addr == 0x0A0A_2128
            &&& word(4) + 0x1_0000_0000 * word(5) == r
            &&& s[6]->Write_addr == 0x0A0A_212C && s[7]->Write_addr == 0x0A0A_2130
            &&& word(6) + 0x1_0000_0000 * word(7) == g
            &&& s[8]->Write_addr == 0x0A0A_2134 && s[9]->Write_addr == 0x0A0A_2138
            &&& word(8) + 0x1_0000_0000 * word(9) == b
            &&& s[10] == put(0x0A0A_2120, 0x1201)
            &&& s[11] == put(0x0A0A_0098, 0)
            &&& s[12] == put(0x0A0A_0094, 0)
            &&& s[13] == put(0x0A0A_0004, 0x10)
        }),
{
    let (w, h) = ((width - 1) as u32, (height - 1) as u32);
    assert((w & 0x1FFF) << 0u32 == w && (h & 0x1FFF) << 16u32 == 0x1_0000 * h && (((2u32 & 0xF)
        << 8u32) | ((1u32 & 1) << 0u32) | ((1u32 & 1) << 12u32)) == 0x1201 && (1u32 & 1) << 4u32
        == 0x10) by (bit_vector)
        requires
            w < 8192,
            h < 8192,
    ;
}

/// The engine is reset, told the size, and made a colour converter with the coefficients of
/// limited BT.601, twelve words in a row: each colour is the brightness and its share of the
/// colour differences, less an offset.
pub proof fn law_conversion_is_limited_bt601(width: u32, height: u32, k: int)
    requires
        0 <= k < 12,
    ensures
        ({
            let s = convert_setup_script(width, height);
            let coefs = seq![1024u32, 0, 1404, 179188, 1024, 344, 715, 136040, 1024, 1774, 0, 226505];
            &&& s.len() == 20
            &&& s[0] == put(0x0A0A_0004, 1)
            &&& s[1] == (HwOp::Delay { nanos: 10_000 })
            &&& s[2] == put(0x0A0A_0004, 0)
            &&& s[3] == put(0x0A0A_0008, size_word(width, height))
            &&& s[4] == put(0x0A0A_2010, 1)
            &&& s[5] == put(0x0A0A_2014, 0)
            &&& s[6 + k] == put(0x0A0A_2198 + 4 * k, coefs[k])
            &&& s[18] == put(0x0A0A_2194, 0x1_0000)
            &&& s[19] == put(0x0A0A_21C8, 0x10)
        }),
{
    let c = CSC_COEF_BT601_LIMIT[k];
    assert(c & 0x7_FFFF == c && (1u32 & 1) << 0u32 == 1 && (0u32 & 1) << 0u32 == 0 && (1u32 & 0xF) << 0u32 == 1 && (1u32
        & 1) << 16u32 == 0x1_0000 && ((1u32 & 1) << 4u32) | ((0u32 & 0xF) << 0u32) == 0x10)
        by (bit_vector)
        requires
            c < 0x8_0000,
    ;
    assert(convert_setup_script(width, height)[6 + k] == coef_script()[k]);
}

/// The input format is 0 unless another was chosen, of which the lower four bits count; the
/// greatest number chooses none.
pub proof fn law_input_format(f: InputFmt)
    ensures
        f.chosen == u32::MAX ==> fmt_in_force(f) == 0,
        f.chosen < u32::MAX ==> fmt_in_force(f) == f.chosen % 16,
{
    let c = f.chosen;
    assert(c & 0xF == c % 16) by (bit_vector);
}

} // verus!
