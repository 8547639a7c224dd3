//! The register map and the SPI command bytes that address it.
use vstd::prelude::*;

verus! {

/// The registers the driver touches.
#[allow(non_camel_case_types)]
#[derive(Copy, Clone, Debug, PartialEq, Eq, Structural)]
pub enum Register {
    FIFO,
    OpMode,
    FSKBitrateMSB,
    FSKBitrateLSB,
    FSKFdevMSB,
    FSKFdevLSB,
    FRFMSB,
    FRFMID,
    FRFLSB,
    PAConfig,
    FIFOAddressPointer,
    FIFOTXBaseAddress,
    FIFORXBaseAddress,
    IRQFlags,
    PayloadLength,
    ModemConfig1,
    ModemConfig2,
    ModemConfig3,
    FSKSyncConfig,
    FSKSyncValue1,
    PreambleLengthMSB,
    PreambleLengthLSB,
    SymbolTimeoutLSB,
    FSKPacketConfig1,
    FSKPacketConfig2,
    FSKPayloadLength,
    FSKFifoThreshold,
    Timer1Coefficient,
    FSKIRQFlags1,
    FSKIRQFlags2,
    DIOMapping1,
    Version,
}

/// The 7-bit address of a register.
pub open spec fn spec_address(reg: Register) -> u8 {
    match reg {
        Register::FIFO => 0x00,
        Register::OpMode => 0x01,
        Register::FSKBitrateMSB => 0x02,
        Register::FSKBitrateLSB => 0x03,
        Register::FSKFdevMSB => 0x04,
        Register::FSKFdevLSB => 0x05,
        Register::FRFMSB => 0x06,
        Register::FRFMID => 0x07,
        Register::FRFLSB => 0x08,
        Register::PAConfig => 0x09,
        Register::FIFOAddressPointer => 0x0D,
        Register::FIFOTXBaseAddress => 0x0E,
        Register::FIFORXBaseAddress => 0x0F,
        Register::IRQFlags => 0x12,
        Register::PayloadLength => 0x22,
        Register::ModemConfig1 => 0x1D,
        Register::ModemConfig2 => 0x1E,
        Register::ModemConfig3 => 0x26,
        Register::FSKSyncConfig => 0x27,
        Register::FSKSyncValue1 => 0x28,
        Register::PreambleLengthMSB => 0x20,
        Register::PreambleLengthLSB => 0x21,
        Register::SymbolTimeoutLSB => 0x1F,
        Register::FSKPacketConfig1 => 0x30,
        Register::FSKPacketConfig2 => 0x31,
        Register::FSKPayloadLength => 0x32,
        Register::FSKFifoThreshold => 0x35,
        Register::Timer1Coefficient => 0x39,
        Register::FSKIRQFlags1 => 0x3E,
        Register::FSKIRQFlags2 => 0x3F,
        Register::DIOMapping1 => 0x40,
        Register::Version => 0x42,
    }
}

/// The command byte that reads a register: its address, bit 7 clear.
pub open spec fn spec_read_command(reg: Register) -> u8 {
    spec_address(reg)
}

/// The command byte that writes a register: its address with bit 7 set.
pub open spec fn spec_write_command(reg: Register) -> u8 {
    (spec_address(reg) + 0x80) as u8
}

impl Register {
    /// The register's address.
    pub fn address(self) -> (a: u8)
        ensures
            a == spec_address(self),
            a < 0x80,
    {
        match self {
            Register::FIFO => 0x00,
            Register::OpMode => 0x01,
            Register::FSKBitrateMSB => 0x02,
            Register::FSKBitrateLSB => 0x03,
            Register::FSKFdevMSB => 0x04,
            Register::FSKFdevLSB => 0x05,
            Register::FRFMSB => 0x06,
            Register::FRFMID => 0x07,
            Register::FRFLSB => 0x08,
            Register::PAConfig => 0x09,
            Register::FIFOAddressPointer => 0x0D,
            Register::FIFOTXBaseAddress => 0x0E,
            Register::FIFORXBaseAddress => 0x0F,
            Register::IRQFlags => 0x12,
            Register::PayloadLength => 0x22,
            Register::ModemConfig1 => 0x1D,
            Register::ModemConfig2 => 0x1E,
            Register::ModemConfig3 => 0x26,
            Register::FSKSyncConfig => 0x27,
            Register::FSKSyncValue1 => 0x28,
            Register::PreambleLengthMSB => 0x20,
            Register::PreambleLengthLSB => 0x21,
            Register::SymbolTimeoutLSB => 0x1F,
            Register::FSKPacketConfig1 => 0x30,
            Register::FSKPacketConfig2 => 0x31,
            Register::FSKPayloadLength => 0x32,
            Register::FSKFifoThreshold => 0x35,
            Register::Timer1Coefficient => 0x39,
            Register::FSKIRQFlags1 => 0x3E,
            Register::FSKIRQFlags2 => 0x3F,
            Register::DIOMapping1 => 0x40,
            Register::Version => 0x42,
        }
    }

    /// The command byte of a register read.
    pub fn read_command(self) -> (c: u8)
        ensures
            c == spec_read_command(self),
            c == spec_address(self) & 0x7F,
            c & 0x80 == 0,
    {
        let a = self.address();
        assert(a < 0x80 ==> a & 0x7F == a && (a & 0x7F) & 0x80 == 0) by (bit_vector);
        a & 0x7F
    }

    /// The command byte of a register write.
    pub fn write_command(self) -> (c: u8)
        ensures
            c == spec_write_command(self),
            c == spec_address(self) | 0x80,
            c & 0x80 == 0x80,
            c & 0x7F == spec_address(self),
    {
        let a = self.address();
        assert(a < 0x80 ==> (a | 0x80) & 0x80 == 0x80 && (a | 0x80) & 0x7F == a && (a | 0x80) == a
            + 0x80) by (bit_vector);
        a | 0x80
    }
}

} // verus!
