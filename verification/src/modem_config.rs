//! Fields of the LoRa modem configuration registers.
use vstd::prelude::*;

verus! {

pub const BW125: u8 = 0b0111_0000;
pub const CODING_RATE_4_5: u8 = 0b0000_0010;
pub const SF7: u8 = 0x70;
pub const SF8: u8 = 0x80;
pub const SF9: u8 = 0x90;
pub const AUTO_AGC_ON: u8 = 0b0000_0100;
pub const RX_PAYLOAD_CRC: u8 = 0b0000_0100;

} // verus!
