//! Values of the operating-mode register (RegOpMode).
use vstd::prelude::*;

verus! {

pub const SLEEP: u8 = 0b000;
pub const STANDBY: u8 = 0b001;
pub const TRANSMIT: u8 = 0b011;
pub const RECEIVE_CONTINUOUS: u8 = 0b101;
/// Long-range (LoRa) mode bit; without it the chip runs its FSK/OOK modem.
pub const LORA: u8 = 0b1000_0000;

} // verus!
