//! Registers of the controller: addresses and fields.

use crate::platform::DWC2_BASE;
use vstd::prelude::*;

verus! {

pub const GOTGCTL: usize = DWC2_BASE;

pub const GAHBCFG: usize = DWC2_BASE + 0x008;

pub const GUSBCFG: usize = DWC2_BASE + 0x00c;

pub const GRSTCTL: usize = DWC2_BASE + 0x010;

pub const GINTSTS: usize = DWC2_BASE + 0x014;

pub const GINTMSK: usize = DWC2_BASE + 0x018;

pub const GRXFSIZ: usize = DWC2_BASE + 0x024;

pub const GNPTXFSIZ: usize = DWC2_BASE + 0x028;

pub const GSNPSID: usize = DWC2_BASE + 0x040;

pub const GHWCFG2: usize = DWC2_BASE + 0x048;

pub const GHWCFG3: usize = DWC2_BASE + 0x04c;

pub const GHWCFG4: usize = DWC2_BASE + 0x050;

pub const GDFIFOCFG: usize = DWC2_BASE + 0x05c;

pub const HPTXFSIZ: usize = DWC2_BASE + 0x100;

pub const HCFG: usize = DWC2_BASE + 0x400;

pub const HFNUM: usize = DWC2_BASE + 0x408;

pub const HAINT: usize = DWC2_BASE + 0x414;

pub const HAINTMSK: usize = DWC2_BASE + 0x418;

pub const HPRT0: usize = DWC2_BASE + 0x440;

/// Registers of channel 0; those of the next channel follow 0x20 further.
pub const HC_BASE: usize = DWC2_BASE + 0x500;

pub const PCGCTL: usize = DWC2_BASE + 0xe00;

/// Version in the product register.
pub const GSNPSID_VERSION: (u32, u32) = (0xFFFF, 0);

pub const GAHBCFG_GLBL_INTR_EN: (u32, u32) = (1, 0);

pub const GAHBCFG_HBSTLEN: (u32, u32) = (0xF, 1);

pub const GAHBCFG_DMA_EN: (u32, u32) = (1, 5);

pub const GUSBCFG_TOUTCAL: (u32, u32) = (7, 0);

pub const GUSBCFG_PHYIF16: (u32, u32) = (1, 3);

pub const GUSBCFG_ULPI_UTMI_SEL: (u32, u32) = (1, 4);

pub const GUSBCFG_FORCEHOSTMODE: (u32, u32) = (1, 29);

pub const GRSTCTL_CSFTRST: (u32, u32) = (1, 0);

pub const GRSTCTL_RXFFLSH: (u32, u32) = (1, 4);

pub const GRSTCTL_TXFFLSH: (u32, u32) = (1, 5);

pub const GRSTCTL_TXFNUM: (u32, u32) = (0x1F, 6);

pub const GRSTCTL_CSFTRST_DONE: (u32, u32) = (1, 29);

pub const GRSTCTL_AHBIDLE: (u32, u32) = (1, 31);

pub const GINTSTS_CURMODE_HOST: (u32, u32) = (1, 0);

pub const GINTSTS_HCHINT: (u32, u32) = (1, 25);

pub const GINTMSK_HCHINT: (u32, u32) = (1, 25);

pub const GOTGCTL_VBVALOEN: (u32, u32) = (1, 2);

pub const GOTGCTL_VBVALOVAL: (u32, u32) = (1, 3);

pub const GOTGCTL_AVALOEN: (u32, u32) = (1, 4);

pub const GOTGCTL_AVALOVAL: (u32, u32) = (1, 5);

pub const GOTGCTL_DBNCE_FLTR_BYPASS: (u32, u32) = (1, 15);

pub const GHWCFG2_ARCH: (u32, u32) = (3, 3);

pub const GHWCFG2_NUM_HOST_CHAN: (u32, u32) = (0xF, 14);

pub const GHWCFG3_DFIFO_DEPTH: (u32, u32) = (0xFFFF, 16);

pub const GHWCFG4_UTMI_PHY_DATA_WIDTH: (u32, u32) = (3, 14);

pub const GHWCFG4_DED_FIFO_EN: (u32, u32) = (1, 25);

pub const GDFIFOCFG_EPINFOBASE: (u32, u32) = (0xFFFF, 16);

pub const GRXFSIZ_RXFDEP: (u32, u32) = (0xFFFF, 0);

pub const GNPTXFSIZ_NPTXFSTADDR: (u32, u32) = (0xFFFF, 0);

pub const GNPTXFSIZ_NPTXFDEP: (u32, u32) = (0xFFFF, 16);

pub const HPTXFSIZ_PTXFSTADDR: (u32, u32) = (0xFFFF, 0);

pub const HPTXFSIZ_PTXFDEP: (u32, u32) = (0xFFFF, 16);

pub const HCFG_FSLSPCLKSEL: (u32, u32) = (3, 0);

pub const HCFG_FSLSSUPP: (u32, u32) = (1, 2);

pub const HPRT0_CONNSTS: (u32, u32) = (1, 0);

pub const HPRT0_CONNDET: (u32, u32) = (1, 1);

pub const HPRT0_ENA: (u32, u32) = (1, 2);

pub const HPRT0_ENACHG: (u32, u32) = (1, 3);

pub const HPRT0_OVRCURCHG: (u32, u32) = (1, 5);

pub const HPRT0_RST: (u32, u32) = (1, 8);

pub const HPRT0_PWR: (u32, u32) = (1, 12);

pub const HPRT0_SPD: (u32, u32) = (3, 17);

pub const HFNUM_FRNUM: (u32, u32) = (0xFFFF, 0);

pub const HCCHAR_MPS: (u32, u32) = (0x7FF, 0);

pub const HCCHAR_EPNUM: (u32, u32) = (0xF, 11);

pub const HCCHAR_EPDIR: (u32, u32) = (1, 15);

pub const HCCHAR_EPTYPE: (u32, u32) = (3, 18);

pub const HCCHAR_MC: (u32, u32) = (3, 20);

pub const HCCHAR_DEVADDR: (u32, u32) = (0x7F, 22);

pub const HCCHAR_ODDFRM: (u32, u32) = (1, 29);

pub const HCCHAR_CHENA: (u32, u32) = (1, 31);

/// Endpoint type of control endpoints.
pub const EPTYPE_CONTROL: u32 = 0;

/// Endpoint type of isochronous endpoints.
pub const EPTYPE_ISOCHRONOUS: u32 = 1;

pub const HCINT_XFERCOMPL: (u32, u32) = (1, 0);

pub const HCINT_CHHLTD: (u32, u32) = (1, 1);

pub const HCINT_AHBERR: (u32, u32) = (1, 2);

pub const HCINT_STALL: (u32, u32) = (1, 3);

pub const HCINT_NAK: (u32, u32) = (1, 4);

pub const HCINT_NYET: (u32, u32) = (1, 6);

pub const HCINT_XACTERR: (u32, u32) = (1, 7);

pub const HCINT_BBLERR: (u32, u32) = (1, 8);

pub const HCINT_FRMOVRN: (u32, u32) = (1, 9);

pub const HCINT_DATATGLERR: (u32, u32) = (1, 10);

pub const HCTSIZ_XFERSIZE: (u32, u32) = (0x7_FFFF, 0);

pub const HCTSIZ_PKTCNT: (u32, u32) = (0x3FF, 19);

pub const HCTSIZ_PID: (u32, u32) = (3, 29);

pub const PID_DATA0: u32 = 0;

pub const PID_DATA1: u32 = 2;

pub const PID_SETUP: u32 = 3;

} // verus!
