use vstd::prelude::*;

verus! {

/// Bell.
pub const BEL: u8 = 0x07;
/// Backspace.
pub const BS: u8 = 0x08;
/// Horizontal tab.
pub const HT: u8 = 0x09;
/// Line feed.
pub const LF: u8 = 0x0a;
/// Vertical tab.
pub const VT: u8 = 0x0b;
/// Form feed.
pub const FF: u8 = 0x0c;
/// Carriage return.
pub const CR: u8 = 0x0d;
/// Substitute.
pub const SUB: u8 = 0x1a;

} // verus!
