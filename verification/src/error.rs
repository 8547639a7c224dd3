use vstd::prelude::*;

verus! {

/// Everything that can go wrong while driving the radio.
#[derive(Debug, Copy, Clone, PartialEq, Eq, Structural)]
pub enum RFMError {
    /// The silicon version register did not read `0x12`.
    InvalidVersion { version: u8 },
    /// The operating mode read back after a mode change was not the one written.
    ModeChangeFailed { old: u8, new: u8, set: u8 },
    /// The transmit-done flag did not come up within the polling budget.
    TransmissionTimedOut,
    /// An SPI transfer failed.
    Spi,
    /// A GPIO pin could not be driven or sampled.
    Gpio,
    /// A packet was empty, longer than 255 bytes, or did not fit the buffer.
    InvalidPacketSize,
}

} // verus!
