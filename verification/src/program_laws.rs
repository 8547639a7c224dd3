//! What each configuring operation sends, stated against its arguments.
//!
//! Every law here speaks of the instruction list that an operation runs (the
//! starters of [`crate::machine::RFM95`] run exactly these lists) and says,
//! register by register, which values the operation writes, in terms of the
//! frequency, data rate and packet it was given, and where these writes stand
//! relative to the payload and to the final mode switch.
use vstd::prelude::*;

use crate::mode;
use crate::modem_config;
use crate::program::{
    enter_fsk_receive_mode_program, enter_receive_mode_program, lemma_config_words,
    send_fsk_packet_program, send_packet_program, valid_packet_size, Instr, TX_DONE_MASK,
};
use crate::rates::{bitrate_word, fdev_word, spreading_factor_bits, word, DataRate, FskDataRate};
use crate::register::Register;

verus! {

/// Whether `p` writes `value` to `reg` at position `i`.
pub open spec fn writes_at(p: Seq<Instr>, i: int, reg: Register, value: u8) -> bool {
    0 <= i < p.len() && p[i] == (Instr::Write { reg, value })
}

/// Whether an instruction, if it writes `reg`, writes `value`.
pub open spec fn keeps_to(x: Instr, reg: Register, value: u8) -> bool {
    match x {
        Instr::Write { reg: r, value: v } => r == reg ==> v == value,
        _ => true,
    }
}

/// Whether every write of `reg` in `p` writes `value`.
pub open spec fn writes_only(p: Seq<Instr>, reg: Register, value: u8) -> bool {
    forall|i: int| 0 <= i < p.len() ==> keeps_to(#[trigger] p[i], reg, value)
}

/// Whether `p` switches to `mode`, and position `i` comes before every such switch.
pub open spec fn before_switch(p: Seq<Instr>, i: int, mode: u8) -> bool {
    &&& exists|t: int| 0 <= t < p.len() && #[trigger] p[t] == (Instr::SetMode { mode })
    &&& forall|t: int| 0 <= t < p.len() && #[trigger] p[t] == (Instr::SetMode { mode }) ==> i < t
}

/// Whether an instruction writes `reg`.
pub open spec fn is_write_to(x: Instr, reg: Register) -> bool {
    match x {
        Instr::Write { reg: r, .. } => r == reg,
        _ => false,
    }
}

/// The three RegFrf bytes of `freq` are written, in order, before `limit`,
/// and no other value is ever written to RegFrf.
pub open spec fn sets_frequency(p: Seq<Instr>, freq: [u8; 3], limit: int) -> bool {
    &&& writes_only(p, Register::FRFMSB, freq[0])
    &&& writes_only(p, Register::FRFMID, freq[1])
    &&& writes_only(p, Register::FRFLSB, freq[2])
    &&& exists|i: int|
        #![trigger writes_at(p, i, Register::FRFMSB, freq[0])]
        writes_at(p, i, Register::FRFMSB, freq[0]) && writes_at(p, i + 1, Register::FRFMID, freq[1])
            && writes_at(p, i + 2, Register::FRFLSB, freq[2]) && i + 2 < limit
}

/// The LoRa modem is set to 125 kHz, coding rate 4/5, the spreading factor of
/// `rate` with the payload CRC on, and automatic gain control, before `limit`;
/// no other modem configuration is ever written.
pub open spec fn sets_lora_rate(p: Seq<Instr>, rate: DataRate, limit: int) -> bool {
    let c1 = modem_config::BW125 | modem_config::CODING_RATE_4_5;
    let c2 = spreading_factor_bits(rate) | modem_config::RX_PAYLOAD_CRC;
    let c3 = modem_config::AUTO_AGC_ON;
    &&& writes_only(p, Register::ModemConfig1, c1)
    &&& writes_only(p, Register::ModemConfig2, c2)
    &&& writes_only(p, Register::ModemConfig3, c3)
    &&& exists|i: int|
        #![trigger writes_at(p, i, Register::ModemConfig1, c1)]
        writes_at(p, i, Register::ModemConfig1, c1) && writes_at(p, i + 1, Register::ModemConfig2, c2)
            && writes_at(p, i + 2, Register::ModemConfig3, c3) && i + 2 < limit
}

/// RegBitrate holds the oscillator over the bit rate of `rate`, and RegFdev
/// the deviation of `rate` in frequency steps, both written before `limit`;
/// no other value is ever written to them.
pub open spec fn sets_fsk_rate(p: Seq<Instr>, rate: FskDataRate, limit: int) -> bool {
    exists|i: int, b0: u8, b1: u8, f0: u8, f1: u8|
        #![trigger writes_at(p, i, Register::FSKBitrateMSB, b0), writes_at(p, i + 2, Register::FSKFdevMSB, f0), writes_at(p, i + 1, Register::FSKBitrateLSB, b1), writes_at(p, i + 3, Register::FSKFdevLSB, f1)]
        {
            &&& writes_at(p, i, Register::FSKBitrateMSB, b0)
            &&& writes_at(p, i + 1, Register::FSKBitrateLSB, b1)
            &&& writes_at(p, i + 2, Register::FSKFdevMSB, f0)
            &&& writes_at(p, i + 3, Register::FSKFdevLSB, f1)
            &&& i + 3 < limit
            &&& word(b0, b1) == bitrate_word(rate)
            &&& word(f0, f1) == fdev_word(rate)
            &&& writes_only(p, Register::FSKBitrateMSB, b0)
            &&& writes_only(p, Register::FSKBitrateLSB, b1)
            &&& writes_only(p, Register::FSKFdevMSB, f0)
            &&& writes_only(p, Register::FSKFdevLSB, f1)
        }
}

/// DIO0 is mapped with `value` before `limit`, and never otherwise.
pub open spec fn maps_dio0(p: Seq<Instr>, value: u8, limit: int) -> bool {
    &&& writes_only(p, Register::DIOMapping1, value)
    &&& exists|i: int|
        #![trigger writes_at(p, i, Register::DIOMapping1, value)]
        writes_at(p, i, Register::DIOMapping1, value) && i < limit
}

/// The FSK packet engine is set up before `limit`: variable length with CRC,
/// no address filter, maximum payload 255, transmission from a 15-byte FIFO
/// level, one sync byte `0x34`.
pub open spec fn sets_fsk_packet_engine(p: Seq<Instr>, limit: int) -> bool {
    exists|i: int|
        #![trigger writes_at(p, i, Register::FSKPacketConfig1, 0b1001_0000)]
        {
            &&& writes_at(p, i, Register::FSKPacketConfig1, 0b1001_0000)
            &&& writes_at(p, i + 1, Register::FSKPacketConfig2, 0x00)
            &&& writes_at(p, i + 2, Register::FSKPayloadLength, 0xFF)
            &&& writes_at(p, i + 3, Register::FSKFifoThreshold, 0x8F)
            &&& writes_at(p, i + 4, Register::FSKSyncConfig, 0x88)
            &&& writes_at(p, i + 5, Register::FSKSyncValue1, 0x34)
            &&& i + 5 < limit
        }
}

/// The first switch to `mode` in `p`, if `p` switches to it exactly once.
pub open spec fn switches_once_at(p: Seq<Instr>, t: int, mode: u8) -> bool {
    &&& 0 <= t < p.len()
    &&& p[t] == (Instr::SetMode { mode })
    &&& forall|u: int| 0 <= u < p.len() && #[trigger] p[u] == (Instr::SetMode { mode }) ==> u == t
}

proof fn lemma_switch_bound(p: Seq<Instr>, t: int, mode: u8, i: int)
    requires
        switches_once_at(p, t, mode),
        i < t,
    ensures
        before_switch(p, i, mode),
{
    assert(p[t] == (Instr::SetMode { mode }));
}

proof fn lemma_frequency_block(p: Seq<Instr>, k: int, freq: [u8; 3], limit: int)
    requires
        writes_at(p, k, Register::FRFMSB, freq[0]),
        writes_at(p, k + 1, Register::FRFMID, freq[1]),
        writes_at(p, k + 2, Register::FRFLSB, freq[2]),
        k + 2 < limit,
        writes_only(p, Register::FRFMSB, freq[0]),
        writes_only(p, Register::FRFMID, freq[1]),
        writes_only(p, Register::FRFLSB, freq[2]),
    ensures
        sets_frequency(p, freq, limit),
{
}

/// A LoRa transmission of `packet` on `freq` at `rate`: standby first; DIO0
/// set to TxDone (0x40); the frequency and modem configuration of the
/// arguments; the payload length and FIFO pointer; the packet's bytes written
/// to the FIFO, in order and nothing else; then one switch to LoRa transmit,
/// directly followed by the wait for TxDone in RegIrqFlags; back to LoRa
/// standby at the end. All configuration comes before the payload, and the
/// payload before the transmit switch.
pub proof fn law_send_packet_configuration(packet: Seq<u8>, freq: [u8; 3], rate: DataRate)
    requires
        valid_packet_size(packet.len() as int),
    ensures
        ({
            let p = send_packet_program(packet, freq, rate);
            let n = packet.len() as int;
            let tx = mode::LORA | mode::TRANSMIT;
            exists|b: int, t: int|
                #![trigger switches_once_at(p, t, tx), writes_at(p, b, Register::FIFO, packet[0])]
                {
                    &&& switches_once_at(p, t, tx)
                    &&& writes_at(p, b, Register::FIFO, packet[0])
                    &&& b + n < t
                    &&& p[t + 1] == (Instr::AwaitFlag { reg: Register::IRQFlags, mask: TX_DONE_MASK })
                    &&& sets_frequency(p, freq, b)
                    &&& sets_lora_rate(p, rate, b)
                    &&& maps_dio0(p, 0x40, b)
                    &&& writes_only(p, Register::PayloadLength, n as u8)
                    &&& (exists|i: int| #[trigger] writes_at(p, i, Register::PayloadLength, n as u8) && i < b)
                    &&& (exists|i: int| #[trigger] writes_at(p, i, Register::FIFOAddressPointer, 0x80) && i < b)
                    &&& forall|j: int| 0 <= j < n ==> #[trigger] writes_at(p, b + j, Register::FIFO, packet[j])
                    &&& forall|u: int| 0 <= u < p.len() && is_write_to(#[trigger] p[u], Register::FIFO)
                        ==> b <= u < b + n
                    &&& p[0] == (Instr::SetMode { mode: mode::LORA | mode::STANDBY })
                    &&& p.last() == (Instr::SetMode { mode: mode::LORA | mode::STANDBY })
                }
        }),
{
    lemma_config_words();
    let p = send_packet_program(packet, freq, rate);
    let n = packet.len() as int;
    let tx = mode::LORA | mode::TRANSMIT;
    let b = 10int;
    let t = 11 + n;
    assert(p.len() == 15 + n);
    assert forall|j: int| 0 <= j < n implies #[trigger] writes_at(p, b + j, Register::FIFO, packet[j]) by {
    }
    assert forall|u: int| 0 <= u < p.len() && #[trigger] p[u] == (Instr::SetMode { mode: tx }) implies u == t by {
        if u < b {
        } else if u < b + n {
        } else {
        }
    }
    assert forall|u: int| 0 <= u < p.len() && is_write_to(#[trigger] p[u], Register::FIFO)
        implies b <= u < b + n by {
    }
    assert(writes_only(p, Register::FRFMSB, freq[0]));
    assert(writes_only(p, Register::FRFMID, freq[1]));
    assert(writes_only(p, Register::FRFLSB, freq[2]));
    lemma_frequency_block(p, 2, freq, b);
    assert(writes_only(p, Register::ModemConfig1, modem_config::BW125 | modem_config::CODING_RATE_4_5));
    assert(writes_only(p, Register::ModemConfig2, spreading_factor_bits(rate) | modem_config::RX_PAYLOAD_CRC));
    assert(writes_only(p, Register::ModemConfig3, modem_config::AUTO_AGC_ON));
    assert(writes_at(p, 5, Register::ModemConfig1, modem_config::BW125 | modem_config::CODING_RATE_4_5));
    assert(sets_lora_rate(p, rate, b));
    assert(writes_only(p, Register::DIOMapping1, 0x40));
    assert(writes_at(p, 1, Register::DIOMapping1, 0x40));
    assert(writes_only(p, Register::PayloadLength, n as u8));
    assert(writes_at(p, 8, Register::PayloadLength, n as u8));
    assert(writes_at(p, 9, Register::FIFOAddressPointer, 0x80));
    assert(switches_once_at(p, t, tx));
    assert(writes_at(p, b, Register::FIFO, packet[0]));
}

/// Entering LoRa reception on `freq` at `rate`: standby first; the frequency
/// and modem configuration of the arguments; DIO0 set to RxDone (0x00); then,
/// last and only once, the switch to LoRa continuous reception.
pub proof fn law_enter_receive_mode_configuration(freq: [u8; 3], rate: DataRate)
    ensures
        ({
            let p = enter_receive_mode_program(freq, rate);
            let t = p.len() - 1;
            &&& switches_once_at(p, t, mode::LORA | mode::RECEIVE_CONTINUOUS)
            &&& sets_frequency(p, freq, t)
            &&& sets_lora_rate(p, rate, t)
            &&& maps_dio0(p, 0x00, t)
            &&& p[0] == (Instr::SetMode { mode: mode::LORA | mode::STANDBY })
        }),
{
    lemma_config_words();
    let p = enter_receive_mode_program(freq, rate);
    assert(p.len() == 9);
    assert(writes_only(p, Register::FRFMSB, freq[0]));
    assert(writes_only(p, Register::FRFMID, freq[1]));
    assert(writes_only(p, Register::FRFLSB, freq[2]));
    lemma_frequency_block(p, 1, freq, 8);
    assert(writes_only(p, Register::ModemConfig1, modem_config::BW125 | modem_config::CODING_RATE_4_5));
    assert(writes_only(p, Register::ModemConfig2, spreading_factor_bits(rate) | modem_config::RX_PAYLOAD_CRC));
    assert(writes_only(p, Register::ModemConfig3, modem_config::AUTO_AGC_ON));
    assert(writes_at(p, 4, Register::ModemConfig1, modem_config::BW125 | modem_config::CODING_RATE_4_5));
    assert(writes_only(p, Register::DIOMapping1, 0x00));
    assert(writes_at(p, 7, Register::DIOMapping1, 0x00));
    assert forall|u: int| 0 <= u < p.len() && #[trigger] p[u] == (Instr::SetMode {
        mode: mode::LORA | mode::RECEIVE_CONTINUOUS,
    }) implies u == 8 by {}
}

proof fn lemma_fsk_rate_block(p: Seq<Instr>, k: int, rate: FskDataRate, limit: int)
    requires
        k + 3 < limit,
        0 <= k,
        k + 3 < p.len(),
        p.subrange(k, k + 4) == crate::program::fsk_data_rate_writes(rate),
        forall|u: int|
            0 <= u < p.len() && !(k <= u < k + 4) ==> !is_write_to(#[trigger] p[u], Register::FSKBitrateMSB)
                && !is_write_to(p[u], Register::FSKBitrateLSB) && !is_write_to(p[u], Register::FSKFdevMSB)
                && !is_write_to(p[u], Register::FSKFdevLSB),
    ensures
        sets_fsk_rate(p, rate, limit),
{
    let (b0, b1, f0, f1) = match rate {
        FskDataRate::BR50kFd25k => (0x02u8, 0x80u8, 0x01u8, 0x9Au8),
        FskDataRate::BR100kFd50k => (0x01u8, 0x40u8, 0x03u8, 0x33u8),
        FskDataRate::BR150kFd75k => (0x00u8, 0xD5u8, 0x04u8, 0xCDu8),
    };
    let q = p.subrange(k, k + 4);
    assert(p[k] == q[0] && p[k + 1] == q[1] && p[k + 2] == q[2] && p[k + 3] == q[3]);
    assert(writes_at(p, k, Register::FSKBitrateMSB, b0));
    assert(writes_at(p, k + 1, Register::FSKBitrateLSB, b1));
    assert(writes_at(p, k + 2, Register::FSKFdevMSB, f0));
    assert(writes_at(p, k + 3, Register::FSKFdevLSB, f1));
    assert(word(b0, b1) == bitrate_word(rate));
    assert(word(f0, f1) == fdev_word(rate));
    assert forall|u: int| 0 <= u < p.len() implies keeps_to(#[trigger] p[u], Register::FSKBitrateMSB, b0)
        && keeps_to(p[u], Register::FSKBitrateLSB, b1) && keeps_to(p[u], Register::FSKFdevMSB, f0)
        && keeps_to(p[u], Register::FSKFdevLSB, f1) by {
        if k <= u < k + 4 {
            assert(p[u] == q[u - k]);
        }
    }
}

proof fn lemma_fsk_engine_block(p: Seq<Instr>, k: int, limit: int)
    requires
        0 <= k,
        k + 5 < limit,
        k + 5 < p.len(),
        p.subrange(k, k + 6) == crate::program::fsk_packet_engine_writes(),
    ensures
        sets_fsk_packet_engine(p, limit),
{
    let q = p.subrange(k, k + 6);
    assert(p[k] == q[0] && p[k + 1] == q[1] && p[k + 2] == q[2] && p[k + 3] == q[3] && p[k + 4]
        == q[4] && p[k + 5] == q[5]);
    assert(writes_at(p, k, Register::FSKPacketConfig1, 0b1001_0000));
}

/// An FSK transmission of `packet` on `freq` at `rate`: standby first; the
/// frequency, bit rate and deviation of the arguments; the packet engine;
/// DIO0 set to PacketSent (0x40); the length byte and then the packet's bytes
/// written to the FIFO, in order and nothing else; then one switch to FSK
/// transmit, directly followed by the wait for PacketSent in RegIrqFlags2;
/// back to standby at the end.
pub proof fn law_send_fsk_packet_configuration(packet: Seq<u8>, freq: [u8; 3], rate: FskDataRate)
    requires
        valid_packet_size(packet.len() as int),
    ensures
        ({
            let p = send_fsk_packet_program(packet, freq, rate);
            let n = packet.len() as int;
            exists|b: int, t: int|
                #![trigger switches_once_at(p, t, mode::TRANSMIT), writes_at(p, b, Register::FIFO, n as u8)]
                {
                    &&& switches_once_at(p, t, mode::TRANSMIT)
                    &&& writes_at(p, b, Register::FIFO, n as u8)
                    &&& b + n < t
                    &&& p[t + 1] == (Instr::AwaitFlag { reg: Register::FSKIRQFlags2, mask: TX_DONE_MASK })
                    &&& sets_frequency(p, freq, b)
                    &&& sets_fsk_rate(p, rate, b)
                    &&& sets_fsk_packet_engine(p, b)
                    &&& maps_dio0(p, 0x40, b)
                    &&& forall|j: int| 0 <= j < n ==> #[trigger] writes_at(p, b + 1 + j, Register::FIFO, packet[j])
                    &&& forall|u: int| 0 <= u < p.len() && is_write_to(#[trigger] p[u], Register::FIFO)
                        ==> b <= u <= b + n
                    &&& p[0] == (Instr::SetMode { mode: mode::STANDBY })
                    &&& p.last() == (Instr::SetMode { mode: mode::STANDBY })
                }
        }),
{
    let p = send_fsk_packet_program(packet, freq, rate);
    let n = packet.len() as int;
    let b = 15int;
    let t = 16 + n;
    assert(p.len() == 19 + n);
    assert forall|j: int| 0 <= j < n implies #[trigger] writes_at(p, b + 1 + j, Register::FIFO, packet[j]) by {
    }
    assert forall|u: int| 0 <= u < p.len() && #[trigger] p[u] == (Instr::SetMode { mode: mode::TRANSMIT }) implies u == t by {
    }
    assert forall|u: int| 0 <= u < p.len() && is_write_to(#[trigger] p[u], Register::FIFO) implies b <= u <= b + n by {
    }
    assert(writes_only(p, Register::FRFMSB, freq[0]));
    assert(writes_only(p, Register::FRFMID, freq[1]));
    assert(writes_only(p, Register::FRFLSB, freq[2]));
    lemma_frequency_block(p, 1, freq, b);
    assert(p.subrange(4, 8) =~= crate::program::fsk_data_rate_writes(rate));
    lemma_fsk_rate_block(p, 4, rate, b);
    assert(p.subrange(8, 14) =~= crate::program::fsk_packet_engine_writes());
    lemma_fsk_engine_block(p, 8, b);
    assert(writes_only(p, Register::DIOMapping1, 0x40));
    assert(writes_at(p, 14, Register::DIOMapping1, 0x40));
    assert(switches_once_at(p, t, mode::TRANSMIT));
    assert(writes_at(p, b, Register::FIFO, n as u8));
}

/// Entering FSK reception on `freq` at `rate`: standby first; the frequency,
/// bit rate and deviation of the arguments; the packet engine; DIO0 set to
/// PayloadReady (0x00); then, last and only once, the switch to continuous
/// reception.
pub proof fn law_enter_fsk_receive_mode_configuration(freq: [u8; 3], rate: FskDataRate)
    ensures
        ({
            let p = enter_fsk_receive_mode_program(freq, rate);
            let t = p.len() - 1;
            &&& switches_once_at(p, t, mode::RECEIVE_CONTINUOUS)
            &&& sets_frequency(p, freq, t)
            &&& sets_fsk_rate(p, rate, t)
            &&& sets_fsk_packet_engine(p, t)
            &&& maps_dio0(p, 0x00, t)
            &&& p[0] == (Instr::SetMode { mode: mode::STANDBY })
        }),
{
    let p = enter_fsk_receive_mode_program(freq, rate);
    assert(p.len() == 16);
    assert(writes_only(p, Register::FRFMSB, freq[0]));
    assert(writes_only(p, Register::FRFMID, freq[1]));
    assert(writes_only(p, Register::FRFLSB, freq[2]));
    lemma_frequency_block(p, 1, freq, 15);
    assert(p.subrange(4, 8) =~= crate::program::fsk_data_rate_writes(rate));
    lemma_fsk_rate_block(p, 4, rate, 15);
    assert(p.subrange(8, 14) =~= crate::program::fsk_packet_engine_writes());
    lemma_fsk_engine_block(p, 8, 15);
    assert(writes_only(p, Register::DIOMapping1, 0x00));
    assert(writes_at(p, 14, Register::DIOMapping1, 0x00));
    assert forall|u: int| 0 <= u < p.len() && #[trigger] p[u] == (Instr::SetMode {
        mode: mode::RECEIVE_CONTINUOUS,
    }) implies u == 15 by {}
}

} // verus!
