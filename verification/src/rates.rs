//! Data rates of the LoRa and FSK modems, and the EU868 channel frequencies.
use vstd::prelude::*;

use crate::modem_config;

verus! {

/// EU868 channel 0, 868.1 MHz, as the three RegFrf bytes (MSB first).
pub const FREQ_CH0: [u8; 3] = [0xD9, 0x06, 0x8B];
/// EU868 channel 1, 868.3 MHz.
pub const FREQ_CH1: [u8; 3] = [0xD9, 0x13, 0x58];
/// EU868 channel 2, 868.5 MHz.
pub const FREQ_CH2: [u8; 3] = [0xD9, 0x20, 0x24];

/// LoRa data rates: spreading factor at 125 kHz bandwidth.
#[derive(Copy, Clone, Debug, PartialEq, Eq, Structural)]
pub enum DataRate {
    SF7BW125,
    SF8BW125,
    SF9BW125,
}

/// The spreading-factor field of RegModemConfig2 for a LoRa data rate.
pub open spec fn spreading_factor_bits(rate: DataRate) -> u8 {
    match rate {
        DataRate::SF7BW125 => modem_config::SF7,
        DataRate::SF8BW125 => modem_config::SF8,
        DataRate::SF9BW125 => modem_config::SF9,
    }
}

impl DataRate {
    /// RegModemConfig1: 125 kHz bandwidth, coding rate 4/5, explicit header.
    pub fn modem_config_1(&self) -> (r: u8)
        ensures
            r == modem_config::BW125 | modem_config::CODING_RATE_4_5,
            r == 0x72,
    {
        assert(0b0111_0000u8 | 0b0000_0010u8 == 0x72u8) by (bit_vector);
        modem_config::BW125 | modem_config::CODING_RATE_4_5
    }

    /// RegModemConfig2 without the CRC bit: the spreading factor.
    pub fn modem_config_2(&self) -> (r: u8)
        ensures
            r == spreading_factor_bits(*self),
    {
        match self {
            DataRate::SF7BW125 => modem_config::SF7,
            DataRate::SF8BW125 => modem_config::SF8,
            DataRate::SF9BW125 => modem_config::SF9,
        }
    }

    /// RegModemConfig3: automatic gain control on.
    pub fn modem_config_3(&self) -> (r: u8)
        ensures
            r == modem_config::AUTO_AGC_ON,
    {
        modem_config::AUTO_AGC_ON
    }
}


/// FSK data rates: bit rate and frequency deviation.
#[derive(Copy, Clone, Debug, PartialEq, Eq, Structural)]
pub enum FskDataRate {
    BR50kFd25k,
    BR100kFd50k,
    BR150kFd75k,
}

/// Crystal oscillator frequency of the module, in Hz.
pub open spec fn fxosc_hz() -> int {
    32_000_000
}

/// The bit rate of an FSK data rate, in bit/s.
pub open spec fn bitrate_hz(rate: FskDataRate) -> int {
    match rate {
        FskDataRate::BR50kFd25k => 50_000,
        FskDataRate::BR100kFd50k => 100_000,
        FskDataRate::BR150kFd75k => 150_000,
    }
}

/// The frequency deviation of an FSK data rate, in Hz.
pub open spec fn fdev_hz(rate: FskDataRate) -> int {
    match rate {
        FskDataRate::BR50kFd25k => 25_000,
        FskDataRate::BR100kFd50k => 50_000,
        FskDataRate::BR150kFd75k => 75_000,
    }
}

/// The 16-bit value held by a big-endian register pair.
pub open spec fn word(msb: u8, lsb: u8) -> int {
    msb * 256 + lsb
}

/// RegBitrate: the oscillator frequency divided by the bit rate, rounded down.
pub open spec fn bitrate_word(rate: FskDataRate) -> int {
    fxosc_hz() / bitrate_hz(rate)
}

/// RegFdev: the deviation in steps of FSTEP = FXOSC / 2^19, rounded to nearest.
pub open spec fn fdev_word(rate: FskDataRate) -> int {
    (fdev_hz(rate) * 524_288 + fxosc_hz() / 2) / fxosc_hz()
}

impl FskDataRate {
    /// RegBitrateMsb and RegBitrateLsb for this rate.
    pub fn bitrate_registers(&self) -> (r: [u8; 2])
        ensures
            word(r[0], r[1]) == bitrate_word(*self),
            r@ == match *self {
                FskDataRate::BR50kFd25k => seq![0x02u8, 0x80u8],
                FskDataRate::BR100kFd50k => seq![0x01u8, 0x40u8],
                FskDataRate::BR150kFd75k => seq![0x00u8, 0xD5u8],
            },
    {
        match self {
            FskDataRate::BR50kFd25k => [0x02, 0x80],
            FskDataRate::BR100kFd50k => [0x01, 0x40],
            FskDataRate::BR150kFd75k => [0x00, 0xD5],
        }
    }

    /// RegFdevMsb and RegFdevLsb for this rate.
    pub fn fdev_registers(&self) -> (r: [u8; 2])
        ensures
            word(r[0], r[1]) == fdev_word(*self),
            r@ == match *self {
                FskDataRate::BR50kFd25k => seq![0x01u8, 0x9Au8],
                FskDataRate::BR100kFd50k => seq![0x03u8, 0x33u8],
                FskDataRate::BR150kFd75k => seq![0x04u8, 0xCDu8],
            },
    {
        match self {
            FskDataRate::BR50kFd25k => [0x01, 0x9A],
            FskDataRate::BR100kFd50k => [0x03, 0x33],
            FskDataRate::BR150kFd75k => [0x04, 0xCD],
        }
    }
}

} // verus!
