//! Each operation of the driver as a sequence of bus instructions.
//!
//! A program is a list of [`Instr`]s that the state machine in
//! [`crate::machine`] runs one after the other. The spec functions here state
//! what each operation sends; the builders produce exactly those lists.
use vstd::prelude::*;

use crate::mode;
use crate::modem_config;
use crate::rates::{spreading_factor_bits, DataRate, FskDataRate};
use crate::register::Register;

verus! {

/// One step of a driver operation.
#[derive(Copy, Clone, Debug, PartialEq, Eq, Structural)]
pub enum Instr {
    /// Write `value` to `reg`.
    Write { reg: Register, value: u8 },
    /// Switch the operating mode: read RegOpMode and, unless it already holds
    /// `mode`, write `mode`, wait 10 ms and check that it reads back.
    SetMode { mode: u8 },
    /// Drive the reset line high or low.
    DriveReset { high: bool },
    /// Wait `ms` milliseconds.
    Wait { ms: u32 },
    /// Read the silicon version and insist on `0x12`.
    CheckVersion,
    /// Up to 100 rounds of: wait 10 ms, read `reg`, stop once a bit of `mask` is set.
    AwaitFlag { reg: Register, mask: u8 },
    /// Read `reg` and keep the byte for the result.
    Read { reg: Register },
    /// Sample the DIO0 line and keep the level for the result.
    SampleDio0,
    /// Read a variable-length FSK packet (length byte, then payload) from the
    /// FIFO into a buffer of `capacity` bytes.
    ReadPacket { capacity: usize },
}

/// The silicon version that [`Instr::CheckVersion`] expects.
pub const CHIP_VERSION: u8 = 0x12;

/// Number of polling rounds of [`Instr::AwaitFlag`].
pub const POLL_ROUNDS: u8 = 100;

/// Milliseconds waited before each poll and after each mode write.
pub const SETTLE_MS: u32 = 10;

/// The TxDone flag of RegIrqFlags (LoRa) and PacketSent of RegIrqFlags2 (FSK).
pub const TX_DONE_MASK: u8 = 0b0000_1000;

/// The PayloadReady flag of RegIrqFlags2.
pub const PAYLOAD_READY_MASK: u8 = 0b0000_0100;

/// The numeric values of the combined mode and modem configuration words.
pub proof fn lemma_config_words()
    ensures
        mode::LORA | mode::SLEEP == 0x80,
        mode::SLEEP | mode::LORA == 0x80,
        mode::LORA | mode::STANDBY == 0x81,
        mode::LORA | mode::TRANSMIT == 0x83,
        mode::LORA | mode::RECEIVE_CONTINUOUS == 0x85,
        modem_config::BW125 | modem_config::CODING_RATE_4_5 == 0x72,
        modem_config::SF7 | modem_config::RX_PAYLOAD_CRC == 0x74,
        modem_config::SF8 | modem_config::RX_PAYLOAD_CRC == 0x84,
        modem_config::SF9 | modem_config::RX_PAYLOAD_CRC == 0x94,
{
    assert(0x80u8 | 0u8 == 0x80u8 && 0u8 | 0x80u8 == 0x80u8 && 0x80u8 | 1u8 == 0x81u8 && 0x80u8
        | 3u8 == 0x83u8 && 0x80u8 | 5u8 == 0x85u8 && 0x70u8 | 2u8 == 0x72u8 && 0x70u8 | 4u8
        == 0x74u8 && 0x80u8 | 4u8 == 0x84u8 && 0x90u8 | 4u8 == 0x94u8) by (bit_vector);
}

pub open spec fn write_instr(reg: Register, value: u8) -> Instr {
    Instr::Write { reg, value }
}

/// Hard reset, version check, LoRa sleep mode and the base configuration.
pub open spec fn reset_program() -> Seq<Instr> {
    seq![
        Instr::DriveReset { high: false },
        Instr::Wait { ms: 10 },
        Instr::DriveReset { high: true },
        Instr::Wait { ms: 10 },
        Instr::CheckVersion,
        Instr::SetMode { mode: mode::SLEEP },
        Instr::SetMode { mode: mode::SLEEP | mode::LORA },
        write_instr(Register::PAConfig, 0xFF),
        write_instr(Register::SymbolTimeoutLSB, 0x25),
        write_instr(Register::PreambleLengthMSB, 0x00),
        write_instr(Register::PreambleLengthLSB, 0x08),
        write_instr(Register::Timer1Coefficient, 0x34),
        write_instr(Register::FIFOTXBaseAddress, 0x80),
        write_instr(Register::FIFORXBaseAddress, 0x00),
    ]
}

/// The carrier frequency, as the three RegFrf bytes.
pub open spec fn frequency_writes(freq: [u8; 3]) -> Seq<Instr> {
    seq![
        write_instr(Register::FRFMSB, freq[0]),
        write_instr(Register::FRFMID, freq[1]),
        write_instr(Register::FRFLSB, freq[2]),
    ]
}

/// RegModemConfig2: the spreading factor, with the payload CRC bit when asked for.
pub open spec fn modem_config_2_value(rate: DataRate, enable_crc: bool) -> u8 {
    if enable_crc {
        spreading_factor_bits(rate) | modem_config::RX_PAYLOAD_CRC
    } else {
        spreading_factor_bits(rate)
    }
}

/// The three LoRa modem configuration registers.
pub open spec fn data_rate_writes(rate: DataRate, enable_crc: bool) -> Seq<Instr> {
    seq![
        write_instr(Register::ModemConfig1, modem_config::BW125 | modem_config::CODING_RATE_4_5),
        write_instr(Register::ModemConfig2, modem_config_2_value(rate, enable_crc)),
        write_instr(Register::ModemConfig3, modem_config::AUTO_AGC_ON),
    ]
}

/// FSK bit rate and frequency deviation registers.
pub open spec fn fsk_data_rate_writes(rate: FskDataRate) -> Seq<Instr> {
    let (b0, b1, f0, f1) = match rate {
        FskDataRate::BR50kFd25k => (0x02u8, 0x80u8, 0x01u8, 0x9Au8),
        FskDataRate::BR100kFd50k => (0x01u8, 0x40u8, 0x03u8, 0x33u8),
        FskDataRate::BR150kFd75k => (0x00u8, 0xD5u8, 0x04u8, 0xCDu8),
    };
    seq![
        write_instr(Register::FSKBitrateMSB, b0),
        write_instr(Register::FSKBitrateLSB, b1),
        write_instr(Register::FSKFdevMSB, f0),
        write_instr(Register::FSKFdevLSB, f1),
    ]
}

/// FSK packet engine: variable length with CRC, 15-byte FIFO threshold,
/// one sync byte `0x34`.
pub open spec fn fsk_packet_engine_writes() -> Seq<Instr> {
    seq![
        write_instr(Register::FSKPacketConfig1, 0b1001_0000),
        write_instr(Register::FSKPacketConfig2, 0x00),
        write_instr(Register::FSKPayloadLength, 0xFF),
        write_instr(Register::FSKFifoThreshold, 0x8F),
        write_instr(Register::FSKSyncConfig, 0x88),
        write_instr(Register::FSKSyncValue1, 0x34),
    ]
}

/// One FIFO write per payload byte, in order.
pub open spec fn payload_writes(packet: Seq<u8>) -> Seq<Instr> {
    Seq::new(packet.len(), |i: int| write_instr(Register::FIFO, packet[i]))
}

/// A packet the radio can carry: 1 to 255 bytes.
pub open spec fn valid_packet_size(len: int) -> bool {
    1 <= len <= 255
}

/// LoRa transmission of a packet of valid size.
pub open spec fn send_packet_program(packet: Seq<u8>, freq: [u8; 3], rate: DataRate) -> Seq<Instr> {
    seq![
        Instr::SetMode { mode: mode::LORA | mode::STANDBY },
        write_instr(Register::DIOMapping1, 0x40),
    ] + frequency_writes(freq) + data_rate_writes(rate, true) + seq![
        write_instr(Register::PayloadLength, packet.len() as u8),
        write_instr(Register::FIFOAddressPointer, 0x80),
    ] + payload_writes(packet) + seq![
        write_instr(Register::IRQFlags, 0xFF),
        Instr::SetMode { mode: mode::LORA | mode::TRANSMIT },
        Instr::AwaitFlag { reg: Register::IRQFlags, mask: TX_DONE_MASK },
        write_instr(Register::IRQFlags, 0xFF),
        Instr::SetMode { mode: mode::LORA | mode::STANDBY },
    ]
}

/// LoRa continuous reception.
pub open spec fn enter_receive_mode_program(freq: [u8; 3], rate: DataRate) -> Seq<Instr> {
    seq![Instr::SetMode { mode: mode::LORA | mode::STANDBY }] + frequency_writes(freq)
        + data_rate_writes(rate, true) + seq![
        write_instr(Register::DIOMapping1, 0x00),
        Instr::SetMode { mode: mode::LORA | mode::RECEIVE_CONTINUOUS },
    ]
}

/// FSK transmission of a variable-length packet of valid size.
pub open spec fn send_fsk_packet_program(packet: Seq<u8>, freq: [u8; 3], rate: FskDataRate) -> Seq<
    Instr,
> {
    seq![Instr::SetMode { mode: mode::STANDBY }] + frequency_writes(freq) + fsk_data_rate_writes(
        rate,
    ) + fsk_packet_engine_writes() + seq![
        write_instr(Register::DIOMapping1, 0x40),
        write_instr(Register::FIFO, packet.len() as u8),
    ] + payload_writes(packet) + seq![
        Instr::SetMode { mode: mode::TRANSMIT },
        Instr::AwaitFlag { reg: Register::FSKIRQFlags2, mask: TX_DONE_MASK },
        Instr::SetMode { mode: mode::STANDBY },
    ]
}

/// FSK continuous reception.
pub open spec fn enter_fsk_receive_mode_program(freq: [u8; 3], rate: FskDataRate) -> Seq<Instr> {
    seq![Instr::SetMode { mode: mode::STANDBY }] + frequency_writes(freq) + fsk_data_rate_writes(
        rate,
    ) + fsk_packet_engine_writes() + seq![
        write_instr(Register::DIOMapping1, 0x00),
        Instr::SetMode { mode: mode::RECEIVE_CONTINUOUS },
    ]
}

fn push_write(v: &mut Vec<Instr>, reg: Register, value: u8)
    ensures
        final(v)@ == old(v)@.push(write_instr(reg, value)),
{
    v.push(Instr::Write { reg, value });
}

fn append_frequency(v: &mut Vec<Instr>, freq: [u8; 3])
    ensures
        final(v)@ == old(v)@ + frequency_writes(freq),
{
    push_write(v, Register::FRFMSB, freq[0]);
    push_write(v, Register::FRFMID, freq[1]);
    push_write(v, Register::FRFLSB, freq[2]);
    assert(v@ =~= old(v)@ + frequency_writes(freq));
}

fn append_data_rate(v: &mut Vec<Instr>, rate: DataRate, enable_crc: bool)
    ensures
        final(v)@ == old(v)@ + data_rate_writes(rate, enable_crc),
{
    let mut config_2 = rate.modem_config_2();
    if enable_crc {
        config_2 = config_2 | modem_config::RX_PAYLOAD_CRC;
    }
    push_write(v, Register::ModemConfig1, rate.modem_config_1());
    push_write(v, Register::ModemConfig2, config_2);
    push_write(v, Register::ModemConfig3, rate.modem_config_3());
    assert(v@ =~= old(v)@ + data_rate_writes(rate, enable_crc));
}

fn append_fsk_data_rate(v: &mut Vec<Instr>, rate: FskDataRate)
    ensures
        final(v)@ == old(v)@ + fsk_data_rate_writes(rate),
{
    let bitrate = rate.bitrate_registers();
    let fdev = rate.fdev_registers();
    push_write(v, Register::FSKBitrateMSB, bitrate[0]);
    push_write(v, Register::FSKBitrateLSB, bitrate[1]);
    push_write(v, Register::FSKFdevMSB, fdev[0]);
    push_write(v, Register::FSKFdevLSB, fdev[1]);
    assert(v@ =~= old(v)@ + fsk_data_rate_writes(rate));
}

fn append_fsk_packet_engine(v: &mut Vec<Instr>)
    ensures
        final(v)@ == old(v)@ + fsk_packet_engine_writes(),
{
    push_write(v, Register::FSKPacketConfig1, 0b1001_0000);
    push_write(v, Register::FSKPacketConfig2, 0x00);
    push_write(v, Register::FSKPayloadLength, 0xFF);
    push_write(v, Register::FSKFifoThreshold, 0x8F);
    push_write(v, Register::FSKSyncConfig, 0x88);
    push_write(v, Register::FSKSyncValue1, 0x34);
    assert(v@ =~= old(v)@ + fsk_packet_engine_writes());
}

fn append_payload(v: &mut Vec<Instr>, packet: &[u8])
    ensures
        final(v)@ == old(v)@ + payload_writes(packet@),
{
    let ghost start = v@;
    let mut i: usize = 0;
    while i < packet.len()
        invariant
            i <= packet@.len(),
            v@ == start + payload_writes(packet@.subrange(0, i as int)),
        decreases packet@.len() - i,
    {
        push_write(v, Register::FIFO, packet[i]);
        assert(payload_writes(packet@.subrange(0, i + 1)) =~= payload_writes(
            packet@.subrange(0, i as int),
        ).push(write_instr(Register::FIFO, packet@[i as int])));
        i = i + 1;
    }
    assert(packet@.subrange(0, i as int) =~= packet@);
}

pub(crate) fn build_reset_program() -> (v: Vec<Instr>)
    ensures
        v@ == reset_program(),
{
    let mut v: Vec<Instr> = Vec::new();
    v.push(Instr::DriveReset { high: false });
    v.push(Instr::Wait { ms: SETTLE_MS });
    v.push(Instr::DriveReset { high: true });
    v.push(Instr::Wait { ms: SETTLE_MS });
    v.push(Instr::CheckVersion);
    v.push(Instr::SetMode { mode: mode::SLEEP });
    v.push(Instr::SetMode { mode: mode::SLEEP | mode::LORA });
    push_write(&mut v, Register::PAConfig, 0xFF);
    push_write(&mut v, Register::SymbolTimeoutLSB, 0x25);
    push_write(&mut v, Register::PreambleLengthMSB, 0x00);
    push_write(&mut v, Register::PreambleLengthLSB, 0x08);
    push_write(&mut v, Register::Timer1Coefficient, 0x34);
    push_write(&mut v, Register::FIFOTXBaseAddress, 0x80);
    push_write(&mut v, Register::FIFORXBaseAddress, 0x00);
    assert(v@ =~= reset_program());
    v
}

pub(crate) fn build_send_packet_program(packet: &[u8], freq: [u8; 3], rate: DataRate) -> (v: Vec<
    Instr,
>)
    requires
        valid_packet_size(packet@.len() as int),
    ensures
        v@ == send_packet_program(packet@, freq, rate),
{
    let mut v: Vec<Instr> = Vec::new();
    v.push(Instr::SetMode { mode: mode::LORA | mode::STANDBY });
    push_write(&mut v, Register::DIOMapping1, 0x40);
    append_frequency(&mut v, freq);
    append_data_rate(&mut v, rate, true);
    push_write(&mut v, Register::PayloadLength, packet.len() as u8);
    push_write(&mut v, Register::FIFOAddressPointer, 0x80);
    append_payload(&mut v, packet);
    push_write(&mut v, Register::IRQFlags, 0xFF);
    v.push(Instr::SetMode { mode: mode::LORA | mode::TRANSMIT });
    v.push(Instr::AwaitFlag { reg: Register::IRQFlags, mask: TX_DONE_MASK });
    push_write(&mut v, Register::IRQFlags, 0xFF);
    v.push(Instr::SetMode { mode: mode::LORA | mode::STANDBY });
    assert(v@ =~= send_packet_program(packet@, freq, rate));
    v
}

pub(crate) fn build_enter_receive_mode_program(freq: [u8; 3], rate: DataRate) -> (v: Vec<Instr>)
    ensures
        v@ == enter_receive_mode_program(freq, rate),
{
    let mut v: Vec<Instr> = Vec::new();
    v.push(Instr::SetMode { mode: mode::LORA | mode::STANDBY });
    append_frequency(&mut v, freq);
    append_data_rate(&mut v, rate, true);
    push_write(&mut v, Register::DIOMapping1, 0x00);
    v.push(Instr::SetMode { mode: mode::LORA | mode::RECEIVE_CONTINUOUS });
    assert(v@ =~= enter_receive_mode_program(freq, rate));
    v
}

pub(crate) fn build_send_fsk_packet_program(packet: &[u8], freq: [u8; 3], rate: FskDataRate) -> (v:
    Vec<Instr>)
    requires
        valid_packet_size(packet@.len() as int),
    ensures
        v@ == send_fsk_packet_program(packet@, freq, rate),
{
    let mut v: Vec<Instr> = Vec::new();
    v.push(Instr::SetMode { mode: mode::STANDBY });
    append_frequency(&mut v, freq);
    append_fsk_data_rate(&mut v, rate);
    append_fsk_packet_engine(&mut v);
    push_write(&mut v, Register::DIOMapping1, 0x40);
    push_write(&mut v, Register::FIFO, packet.len() as u8);
    append_payload(&mut v, packet);
    v.push(Instr::SetMode { mode: mode::TRANSMIT });
    v.push(Instr::AwaitFlag { reg: Register::FSKIRQFlags2, mask: TX_DONE_MASK });
    v.push(Instr::SetMode { mode: mode::STANDBY });
    assert(v@ =~= send_fsk_packet_program(packet@, freq, rate));
    v
}

pub(crate) fn build_enter_fsk_receive_mode_program(freq: [u8; 3], rate: FskDataRate) -> (v: Vec<
    Instr,
>)
    ensures
        v@ == enter_fsk_receive_mode_program(freq, rate),
{
    let mut v: Vec<Instr> = Vec::new();
    v.push(Instr::SetMode { mode: mode::STANDBY });
    append_frequency(&mut v, freq);
    append_fsk_data_rate(&mut v, rate);
    append_fsk_packet_engine(&mut v);
    push_write(&mut v, Register::DIOMapping1, 0x00);
    v.push(Instr::SetMode { mode: mode::RECEIVE_CONTINUOUS });
    assert(v@ =~= enter_fsk_receive_mode_program(freq, rate));
    v
}

} // verus!
