//! Addresses of the SoC and the bring-up of the board.

use crate::drivers::gpio::{Pin, GPIO};
use crate::drivers::pinmux::{vbus_pin_to_gpio, FMUX_USB_VBUS_DET, FSEL_VAL, FSEL_XGPIOB_6};
use crate::hw::HwOp;
use crate::registers::placed;
use vstd::prelude::*;

verus! {

/// Control registers of the chip.
pub const TOP_BASE: usize = 0x0300_0000;

/// The pin multiplexer.
pub const FMUX_BASE: usize = 0x0300_1000;

/// Pads of the first group.
pub const IOBLK_G1_BASE: usize = 0x0300_1800;

/// The clock generator.
pub const CLKGEN_BASE: usize = 0x0300_2000;

/// The PHY of the USB controller.
pub const CV182X_USB2_PHY_BASE: usize = 0x0300_6000;

/// The watchdog.
pub const WDT_BASE: usize = 0x0301_0000;

/// The second port controller.
pub const GPIO1_BASE: usize = 0x0302_1000;

/// The USB controller.
pub const DWC2_BASE: usize = 0x0434_0000;

/// The image engine.
pub const IVE_BASE: usize = 0x0A0A_0000;

/// The JPEG unit.
pub const JPU_REG_BASE: usize = 0x0B00_0000;

/// Power of the codec blocks.
pub const VC_REG_BASE: usize = 0x0B03_0000;

/// Where the decoded frame goes.
pub const YUV_BUF_PA: usize = 0x8FE8_8000;

/// Room for a decoded frame.
pub const YUV_BUF_SIZE: usize = 614400;

/// Memory for the JPEG unit.
pub const JPU_POOL_PA: usize = 0x8FF1_E000;

/// Size of the memory for the JPEG unit.
pub const JPU_POOL_SIZE: usize = 0x000E_0000;

/// Where the converted frame goes.
pub const RGB_BUF_PA: usize = 0x8FF5_E000;

/// Clock gates of the USB blocks.
pub const CLKGEN_EN1: usize = CLKGEN_BASE + 0x004;

pub const CLKGEN_EN2: usize = CLKGEN_BASE + 0x008;

/// Clocks that bypass their divider.
pub const CLKGEN_BYP0: usize = CLKGEN_BASE + 0x030;

/// Reset lines.
pub const TOP_RST: usize = TOP_BASE + 0x3000;

/// Role and ID pad of the USB port.
pub const TOP_USB_PIN: usize = TOP_BASE + 0x48;

pub const TOP_ECO: usize = TOP_BASE + 0xB4;

/// Pad of the VBUS detection pin.
pub const IOBLK_VBUS_DET: usize = IOBLK_G1_BASE + 0x020;

/// The four clocks of the USB blocks.
pub const USB_CLOCKS: u32 = 0xF000_0000;

/// The bypass bits of the USB clocks.
pub const USB_BYPASS: u32 = 0x0006_0000;

/// The reset line of the USB block.
pub const USB_RESET: u32 = 0x800;

/// The ID pad of the PHY.
pub const PHY_ID: u32 = 0xC0;

/// The strongest drive of a pad.
pub const PAD_DRIVE_MAX: u32 = 0xE0;

/// The pin that switches VBUS, and the level that switches it on.
pub const VBUS_GPIO_PIN: u8 = 6;

pub const VBUS_GPIO_ACTIVE_HIGH: bool = true;

/// Switching the USB clocks on.
pub open spec fn clocks_script() -> Seq<HwOp> {
    seq![
        HwOp::Modify { addr: CLKGEN_EN1, mask: USB_CLOCKS, value: USB_CLOCKS },
        HwOp::Modify { addr: CLKGEN_EN2, mask: 1, value: 1 },
        HwOp::Modify { addr: CLKGEN_BYP0, mask: USB_BYPASS, value: 0 },
    ]
}

/// Pulsing the reset of the USB block in a register that held `rst`.
pub open spec fn reset_script(rst: u32) -> Seq<HwOp> {
    seq![
        HwOp::Write { addr: TOP_RST, value: rst & !USB_RESET },
        HwOp::Delay { nanos: 50_000 },
        HwOp::Write { addr: TOP_RST, value: rst | USB_RESET },
        HwOp::Delay { nanos: 50_000 },
    ]
}

/// Making the port a host, in a register that held `pin`: it has to be a device first.
pub open spec fn host_script(pin: u32) -> Seq<HwOp> {
    seq![
        HwOp::Write { addr: TOP_USB_PIN, value: (pin & !PHY_ID) | 0xC0 | 0x01 },
        HwOp::Delay { nanos: 1_000_000 },
        HwOp::Write { addr: TOP_USB_PIN, value: (pin & !PHY_ID) | 0x40 | 0x01 },
        HwOp::Delay { nanos: 1_000_000 },
        HwOp::Modify { addr: TOP_ECO, mask: 0x80, value: 0x80 },
    ]
}

/// Switching VBUS on.
pub open spec fn vbus_script() -> Seq<HwOp> {
    seq![
        HwOp::Write { addr: FMUX_USB_VBUS_DET, value: placed(FSEL_VAL, FSEL_XGPIOB_6) },
        HwOp::Modify { addr: IOBLK_VBUS_DET, mask: PAD_DRIVE_MAX, value: PAD_DRIVE_MAX },
        HwOp::Modify {
            addr: (GPIO1_BASE + 4) as usize,
            mask: 0xFFFF_FFFF,
            value: 1u32 << (VBUS_GPIO_PIN as u32),
        },
        HwOp::Modify {
            addr: GPIO1_BASE,
            mask: 0xFFFF_FFFF,
            value: 1u32 << (VBUS_GPIO_PIN as u32),
        },
        HwOp::Delay { nanos: 200_000_000 },
    ]
}

/// Brings the board up as far as the host pins: `rst` is what the reset register holds.
pub fn platform_init(rst: u32) -> (ops: Vec<HwOp>)
    ensures
        ops@ == clocks_script() + reset_script(rst),
{
    let mut ops: Vec<HwOp> = Vec::new();
    ops.push(HwOp::Modify { addr: CLKGEN_EN1, mask: USB_CLOCKS, value: USB_CLOCKS });
    ops.push(HwOp::Modify { addr: CLKGEN_EN2, mask: 1, value: 1 });
    ops.push(HwOp::Modify { addr: CLKGEN_BYP0, mask: USB_BYPASS, value: 0 });
    ops.push(HwOp::Write { addr: TOP_RST, value: rst & !USB_RESET });
    ops.push(HwOp::Delay { nanos: 50_000 });
    ops.push(HwOp::Write { addr: TOP_RST, value: rst | USB_RESET });
    ops.push(HwOp::Delay { nanos: 50_000 });
    assert(ops@ =~= clocks_script() + reset_script(rst));
    ops
}

/// Brings up the rest of the board: `pin` is what the pin register holds after
/// [`platform_init`].
pub fn platform_init_port(pin: u32) -> (ops: Vec<HwOp>)
    ensures
        ops@ == host_script(pin) + vbus_script(),
{
    let mut ops: Vec<HwOp> = Vec::new();
    ops.push(HwOp::Write { addr: TOP_USB_PIN, value: (pin & !PHY_ID) | 0xC0 | 0x01 });
    ops.push(HwOp::Delay { nanos: 1_000_000 });
    ops.push(HwOp::Write { addr: TOP_USB_PIN, value: (pin & !PHY_ID) | 0x40 | 0x01 });
    ops.push(HwOp::Delay { nanos: 1_000_000 });
    ops.push(HwOp::Modify { addr: TOP_ECO, mask: 0x80, value: 0x80 });
    ops.push(vbus_pin_to_gpio());
    ops.push(HwOp::Modify { addr: IOBLK_VBUS_DET, mask: PAD_DRIVE_MAX, value: PAD_DRIVE_MAX });
    let gpio = GPIO::new(GPIO1_BASE);
    let vbus: Pin = gpio.pin(VBUS_GPIO_PIN);
    ops.push(vbus.set_output_direction());
    ops.push(vbus.set(VBUS_GPIO_ACTIVE_HIGH));
    ops.push(HwOp::Delay { nanos: 200_000_000 });
    assert(ops@ =~= host_script(pin) + vbus_script());
    ops
}

/// The USB clocks are switched on and taken off their bypass, with every other clock left alone.
pub proof fn law_usb_clocks()
    ensures
        clocks_script() =~= seq![
            HwOp::Modify { addr: 0x0300_2004, mask: 0xF000_0000, value: 0xF000_0000 },
            HwOp::Modify { addr: 0x0300_2008, mask: 1, value: 1 },
            HwOp::Modify { addr: 0x0300_2030, mask: 0x0006_0000, value: 0 },
        ],
{
}

/// The reset line of the USB block, bit 11, is lowered for 50 microseconds and raised for as long;
/// every other line stays as it was. The port becomes a device for a millisecond and then a host,
/// by bits 6 and 7, with bit 0 set, and every other bit of the register stays as it was.
pub proof fn law_reset_and_role(rst: u32, pin: u32)
    ensures
        ({
            let r = reset_script(rst);
            let (low, high) = (r[0]->Write_value, r[2]->Write_value);
            &&& r.len() == 4
            &&& r[0]->Write_addr == 0x0300_3000 && r[2]->Write_addr == 0x0300_3000
            &&& low & 0x800 == 0 && high & 0x800 != 0
            &&& low | 0x800 == rst | 0x800 && high | 0x800 == rst | 0x800
            &&& r[1] == (HwOp::Delay { nanos: 50_000 }) && r[3] == (HwOp::Delay { nanos: 50_000 })
        }),
        ({
            let s = host_script(pin);
            let (device, host) = (s[0]->Write_value, s[2]->Write_value);
            &&& s.len() == 5
            &&& s[0]->Write_addr == 0x0300_0048 && s[2]->Write_addr == 0x0300_0048
            &&& device & 0xc1 == 0xc1 && host & 0xc1 == 0x41
            &&& device | 0xc1 == pin | 0xc1 && host | 0xc1 == pin | 0xc1
            &&& s[1] == (HwOp::Delay { nanos: 1_000_000 })
            &&& s[3] == (HwOp::Delay { nanos: 1_000_000 })
            &&& s[4] == (HwOp::Modify { addr: 0x0300_00B4, mask: 0x80, value: 0x80 })
        }),
{
    assert((rst & !0x800u32) & 0x800 == 0 && (rst | 0x800) & 0x800 != 0 && (rst & !0x800u32) | 0x800
        == rst | 0x800 && (rst | 0x800) | 0x800 == rst | 0x800 && ((pin & !0xC0u32) | 0xC0 | 0x01)
        & 0xc1 == 0xc1 && ((pin & !0xC0u32) | 0x40 | 0x01) & 0xc1 == 0x41 && ((pin & !0xC0u32) | 0xC0
        | 0x01) | 0xc1 == pin | 0xc1 && ((pin & !0xC0u32) | 0x40 | 0x01) | 0xc1 == pin | 0xc1)
        by (bit_vector);
}

/// Pin 6 of the second port controller drives VBUS: the pad is handed to it, given its strongest
/// drive, made an output and raised, and the supply is given a fifth of a second.
pub proof fn law_vbus_is_switched_on()
    ensures
        vbus_script() =~= seq![
            HwOp::Write { addr: 0x0300_10FC, value: 3 },
            HwOp::Modify { addr: 0x0300_1820, mask: 0xE0, value: 0xE0 },
            HwOp::Modify { addr: 0x0302_1004, mask: 0xFFFF_FFFF, value: 0x40 },
            HwOp::Modify { addr: 0x0302_1000, mask: 0xFFFF_FFFF, value: 0x40 },
            HwOp::Delay { nanos: 200_000_000 },
        ],
{
    assert((3u32 & 7) << 0u32 == 3 && 1u32 << 6u32 == 0x40) by (bit_vector);
}

} // verus!
