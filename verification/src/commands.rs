//! SH8601 command set.
use vstd::prelude::*;

verus! {

pub const NOP: u8 = 0x00;
pub const SWRESET: u8 = 0x01;
/// Read Display Identification Information
pub const RDDIDIF: u8 = 0x04;
/// Read Display Power Mode
pub const RDDPM: u8 = 0x0A;
/// Read Display MADCTL
pub const RDDMADCTL: u8 = 0x0B;
/// Read Display Pixel Format
pub const RDDCOLMOD: u8 = 0x0C;
/// Read Display Self-Diagnostic Result
pub const RDDSDR: u8 = 0x0F;
pub const SLPIN: u8 = 0x10;
pub const SLPOUT: u8 = 0x11;
/// Partial Display Mode On
pub const PTLON: u8 = 0x12;
/// Normal Display Mode On
pub const NORON: u8 = 0x13;
/// Display Inversion Off
pub const INVOFF: u8 = 0x20;
/// Display Inversion On
pub const INVON: u8 = 0x21;
pub const DISPOFF: u8 = 0x28;
pub const DISPON: u8 = 0x29;
/// Column Address Set
pub const CASET: u8 = 0x2A;
/// Page Address Set
pub const PASET: u8 = 0x2B;
/// Memory Write Start
pub const RAMWR: u8 = 0x2C;
/// Partial Area Row Set
pub const PTLAR: u8 = 0x30;
/// Tearing Effect Off
pub const TEOFF: u8 = 0x34;
/// Tearing Effect On
pub const TEON: u8 = 0x35;
/// Memory Data Access Control
pub const MADCTL: u8 = 0x36;
/// Idle Mode Off
pub const IDMOFF: u8 = 0x38;
/// Idle Mode On
pub const IDMON: u8 = 0x39;
/// Control Interface Pixel Format
pub const COLMOD: u8 = 0x3A;
/// Memory Write Continue
pub const RAMWRC: u8 = 0x3C;
/// Set Tear Scan Line
pub const TESCAN: u8 = 0x44;
/// Write Display Brightness Value
pub const WRDISBV: u8 = 0x51;
/// Read Display Brightness Value
pub const RDDISBV: u8 = 0x52;
/// Write CTRL Display 1
pub const WRCTRLD1: u8 = 0x53;
/// Read CTRL Display 1
pub const RDCTRLD1: u8 = 0x54;

} // verus!
