use lora_rfm98::{
    mode, Action, DataRate, Event, FskDataRate, Output, RFMError, FREQ_CH0, FREQ_CH1, RFM95,
};
use std::collections::VecDeque;

/// A register file standing in for the chip, with a FIFO of bytes to receive.
struct MockRadio {
    registers: [u8; 256],
    rx_fifo: VecDeque<u8>,
    reset_high: bool,
    dio0: bool,
    /// Every bus action that the machine put out, in order.
    log: Vec<Action>,
    /// Fail the SPI transfer with this index (counting SPI actions from 0).
    fail_spi_at: Option<usize>,
    fail_gpio: bool,
    /// Writes to RegOpMode are ignored.
    stuck_mode: bool,
    /// Writes to RegIrqFlags are ignored.
    stuck_irq: bool,
    spi_count: usize,
    /// RegIrqFlags shows TxDone from this poll on (counting from 1).
    tx_done_at_poll: Option<usize>,
    irq_polls: usize,
}

impl MockRadio {
    fn new() -> Self {
        let mut registers = [0u8; 256];
        registers[0x42] = 0x12;
        MockRadio {
            registers,
            rx_fifo: VecDeque::new(),
            reset_high: true,
            dio0: false,
            log: Vec::new(),
            fail_spi_at: None,
            fail_gpio: false,
            stuck_mode: false,
            stuck_irq: false,
            spi_count: 0,
            tx_done_at_poll: None,
            irq_polls: 0,
        }
    }

    fn spi_fails(&mut self) -> bool {
        let n = self.spi_count;
        self.spi_count += 1;
        self.fail_spi_at == Some(n)
    }

    fn run(&mut self, machine: &mut RFM95, first: Action) -> Result<Output, RFMError> {
        let mut action = first;
        loop {
            let event = match action {
                Action::Finish(result) => return result,
                Action::Write { command, value } => {
                    self.log.push(action);
                    if self.spi_fails() {
                        Event::Failed
                    } else {
                        let reg = (command & 0x7F) as usize;
                        let ignored = (reg == 0x01 && self.stuck_mode) || (reg == 0x12 && self.stuck_irq);
                        if !ignored {
                            self.registers[reg] = value;
                        }
                        Event::Written
                    }
                }
                Action::Read { command } => {
                    self.log.push(action);
                    if self.spi_fails() {
                        Event::Failed
                    } else {
                        let reg = (command & 0x7F) as usize;
                        if reg == 0x12 && self.tx_done_at_poll.is_some() {
                            self.irq_polls += 1;
                            if Some(self.irq_polls) >= self.tx_done_at_poll {
                                Event::Byte(0x08)
                            } else {
                                Event::Byte(0x00)
                            }
                        } else if reg == 0 {
                            Event::Byte(self.rx_fifo.pop_front().unwrap_or(0))
                        } else {
                            Event::Byte(self.registers[reg])
                        }
                    }
                }
                Action::SetReset { high } => {
                    self.log.push(action);
                    if self.fail_gpio {
                        Event::Failed
                    } else {
                        self.reset_high = high;
                        Event::PinSet
                    }
                }
                Action::Delay { .. } => {
                    self.log.push(action);
                    Event::Delayed
                }
                Action::SampleDio0 => {
                    self.log.push(action);
                    if self.fail_gpio {
                        Event::Failed
                    } else {
                        Event::Level(self.dio0)
                    }
                }
            };
            assert!(machine.accepts(&event));
            action = machine.step(event);
        }
    }
}

fn reset_radio() -> (MockRadio, RFM95) {
    let mut radio = MockRadio::new();
    let mut rfm = RFM95::new();
    let first = rfm.reset();
    radio.run(&mut rfm, first).unwrap();
    radio.log.clear();
    radio.spi_count = 0;
    (radio, rfm)
}

#[test]
fn test_reset_checks_version() {
    let mut radio = MockRadio::new();
    let mut rfm = RFM95::new();
    let first = rfm.reset();
    assert!(radio.run(&mut rfm, first).is_ok());
}

#[test]
fn test_invalid_packet_size() {
    let (mut radio, mut rfm) = reset_radio();
    let empty_packet: [u8; 0] = [];
    let first = rfm.send_packet(&empty_packet, FREQ_CH0, DataRate::SF7BW125);
    let result = radio.run(&mut rfm, first);
    assert_eq!(result, Err(RFMError::InvalidPacketSize));
}

#[test]
fn lora_mode_transition_works() {
    let (mut radio, mut rfm) = reset_radio();
    let first = rfm.enter_receive_mode(FREQ_CH0, DataRate::SF7BW125);
    radio.run(&mut rfm, first).expect("failed to enter LoRa receive mode");
    assert_eq!(radio.registers[0x01], mode::LORA | mode::RECEIVE_CONTINUOUS);
}

#[test]
fn fsk_mode_transition_works() {
    let (mut radio, mut rfm) = reset_radio();
    let first = rfm.enter_fsk_receive_mode(FREQ_CH1, FskDataRate::BR50kFd25k);
    radio.run(&mut rfm, first).expect("failed to enter FSK receive mode");
    assert_eq!(radio.registers[0x01], mode::RECEIVE_CONTINUOUS);
}

#[test]
fn packet_size_validation_applies_to_lora_and_fsk() {
    let (mut radio, mut rfm) = reset_radio();
    let empty: [u8; 0] = [];
    let first = rfm.send_packet(&empty, FREQ_CH0, DataRate::SF7BW125);
    assert_eq!(radio.run(&mut rfm, first), Err(RFMError::InvalidPacketSize));
    let first = rfm.send_fsk_packet(&empty, FREQ_CH1, FskDataRate::BR100kFd50k);
    assert_eq!(radio.run(&mut rfm, first), Err(RFMError::InvalidPacketSize));
    assert!(radio.log.is_empty());
}

fn w(command: u8, value: u8) -> Action {
    Action::Write { command, value }
}

fn r(command: u8) -> Action {
    Action::Read { command }
}

const D10: Action = Action::Delay { ms: 10 };

#[test]
fn reset_runs_the_documented_sequence() {
    let mut radio = MockRadio::new();
    let mut rfm = RFM95::new();
    let first = rfm.reset();
    assert_eq!(radio.run(&mut rfm, first), Ok(Output::Unit));
    let expected = vec![
        Action::SetReset { high: false },
        D10,
        Action::SetReset { high: true },
        D10,
        r(0x42),
        // already asleep: no write
        r(0x01),
        // LoRa sleep
        r(0x01),
        w(0x81, 0x80),
        D10,
        r(0x01),
        w(0x89, 0xFF),
        w(0x9F, 0x25),
        w(0xA0, 0x00),
        w(0xA1, 0x08),
        w(0xB9, 0x34),
        w(0x8E, 0x80),
        w(0x8F, 0x00),
    ];
    assert_eq!(radio.log, expected);
    assert!(radio.reset_high);
}

#[test]
fn send_packet_writes_payload_in_order() {
    let (mut radio, mut rfm) = reset_radio();
    let first = rfm.send_packet(&[1, 2, 3], FREQ_CH0, DataRate::SF8BW125);
    assert_eq!(radio.run(&mut rfm, first), Ok(Output::Unit));
    let expected = vec![
        r(0x01),
        w(0x81, 0x81),
        D10,
        r(0x01),
        w(0xC0, 0x40),
        w(0x86, 0xD9),
        w(0x87, 0x06),
        w(0x88, 0x8B),
        w(0x9D, 0x72),
        w(0x9E, 0x84),
        w(0xA6, 0x04),
        w(0xA2, 3),
        w(0x8D, 0x80),
        w(0x80, 1),
        w(0x80, 2),
        w(0x80, 3),
        w(0x92, 0xFF),
        r(0x01),
        w(0x81, 0x83),
        D10,
        r(0x01),
        D10,
        r(0x12),
        w(0x92, 0xFF),
        r(0x01),
        w(0x81, 0x81),
        D10,
        r(0x01),
    ];
    assert_eq!(radio.log, expected);
}

#[test]
fn send_packet_accepts_255_bytes_and_refuses_256() {
    let (mut radio, mut rfm) = reset_radio();
    let big = [7u8; 256];
    let first = rfm.send_packet(&big, FREQ_CH0, DataRate::SF7BW125);
    assert_eq!(radio.run(&mut rfm, first), Err(RFMError::InvalidPacketSize));
    assert!(radio.log.is_empty());
    let first = rfm.send_packet(&big[..255], FREQ_CH0, DataRate::SF7BW125);
    assert_eq!(radio.run(&mut rfm, first), Ok(Output::Unit));
    assert_eq!(radio.registers[0x22], 255);
    let fifo_writes = radio.log.iter().filter(|a| **a == w(0x80, 7)).count();
    assert_eq!(fifo_writes, 255);
}

#[test]
fn send_fsk_packet_sends_length_then_payload() {
    let (mut radio, mut rfm) = reset_radio();
    radio.registers[0x3F] = 0b0000_1000;
    let first = rfm.send_fsk_packet(&[0xAA, 0xBB], FREQ_CH1, FskDataRate::BR150kFd75k);
    assert_eq!(radio.run(&mut rfm, first), Ok(Output::Unit));
    let writes: Vec<Action> = radio
        .log
        .iter()
        .copied()
        .filter(|a| matches!(a, Action::Write { .. }))
        .collect();
    let expected = vec![
        w(0x81, 0x01),
        w(0x86, 0xD9),
        w(0x87, 0x13),
        w(0x88, 0x58),
        w(0x82, 0x00),
        w(0x83, 0xD5),
        w(0x84, 0x04),
        w(0x85, 0xCD),
        w(0xB0, 0x90),
        w(0xB1, 0x00),
        w(0xB2, 0xFF),
        w(0xB5, 0x8F),
        w(0xA7, 0x88),
        w(0xA8, 0x34),
        w(0xC0, 0x40),
        w(0x80, 2),
        w(0x80, 0xAA),
        w(0x80, 0xBB),
        w(0x81, 0x03),
        w(0x81, 0x01),
    ];
    assert_eq!(writes, expected);
    assert_eq!(radio.registers[0x01], mode::STANDBY);
}

#[test]
fn lora_transmission_times_out_after_100_polls() {
    let (mut radio, mut rfm) = reset_radio();
    radio.stuck_irq = true;
    radio.registers[0x12] = 0;
    let first = rfm.send_packet(&[1], FREQ_CH0, DataRate::SF7BW125);
    assert_eq!(radio.run(&mut rfm, first), Err(RFMError::TransmissionTimedOut));
    let polls = radio.log.iter().filter(|a| **a == r(0x12)).count();
    assert_eq!(polls, 100);
    assert_eq!(radio.log.last(), Some(&r(0x12)));
    assert_eq!(radio.registers[0x01], mode::LORA | mode::TRANSMIT);
}

#[test]
fn fsk_transmission_times_out_after_100_polls() {
    let (mut radio, mut rfm) = reset_radio();
    let first = rfm.send_fsk_packet(&[1, 2], FREQ_CH1, FskDataRate::BR50kFd25k);
    assert_eq!(radio.run(&mut rfm, first), Err(RFMError::TransmissionTimedOut));
    let polls = radio.log.iter().filter(|a| **a == r(0x3F)).count();
    assert_eq!(polls, 100);
}

#[test]
fn reset_refuses_wrong_version() {
    let mut radio = MockRadio::new();
    radio.registers[0x42] = 0x11;
    let mut rfm = RFM95::new();
    let first = rfm.reset();
    assert_eq!(
        radio.run(&mut rfm, first),
        Err(RFMError::InvalidVersion { version: 0x11 })
    );
    assert_eq!(radio.log.last(), Some(&r(0x42)));
}

#[test]
fn mode_change_that_does_not_take_fails() {
    let mut radio = MockRadio::new();
    radio.stuck_mode = true;
    let mut rfm = RFM95::new();
    let first = rfm.reset();
    assert_eq!(
        radio.run(&mut rfm, first),
        Err(RFMError::ModeChangeFailed { old: 0x00, new: 0x80, set: 0x00 })
    );
}

#[test]
fn spi_failure_stops_at_once() {
    let (mut radio, mut rfm) = reset_radio();
    radio.fail_spi_at = Some(3);
    let first = rfm.enter_receive_mode(FREQ_CH0, DataRate::SF9BW125);
    assert_eq!(radio.run(&mut rfm, first), Err(RFMError::Spi));
    assert_eq!(radio.log.len(), 5);
    assert_eq!(radio.log[4], w(0x86, 0xD9));
}

#[test]
fn gpio_failure_during_reset() {
    let mut radio = MockRadio::new();
    radio.fail_gpio = true;
    let mut rfm = RFM95::new();
    let first = rfm.reset();
    assert_eq!(radio.run(&mut rfm, first), Err(RFMError::Gpio));
    assert_eq!(radio.log, vec![Action::SetReset { high: false }]);
}

#[test]
fn dio0_level_and_failure() {
    let (mut radio, mut rfm) = reset_radio();
    radio.dio0 = true;
    let first = rfm.is_dio0_high();
    assert_eq!(radio.run(&mut rfm, first), Ok(Output::Flag(true)));
    radio.dio0 = false;
    let first = rfm.is_dio0_high();
    assert_eq!(radio.run(&mut rfm, first), Ok(Output::Flag(false)));
    radio.fail_gpio = true;
    let first = rfm.is_dio0_high();
    assert_eq!(radio.run(&mut rfm, first), Err(RFMError::Gpio));
}

#[test]
fn fsk_packet_ready_flag() {
    let (mut radio, mut rfm) = reset_radio();
    radio.registers[0x3F] = 0b0000_0100;
    let first = rfm.is_fsk_packet_ready();
    assert_eq!(radio.run(&mut rfm, first), Ok(Output::Flag(true)));
    radio.registers[0x3F] = 0b1111_1011;
    let first = rfm.is_fsk_packet_ready();
    assert_eq!(radio.run(&mut rfm, first), Ok(Output::Flag(false)));
}

#[test]
fn fsk_irq_flags_are_read_in_order() {
    let (mut radio, mut rfm) = reset_radio();
    radio.registers[0x3E] = 0xB0;
    radio.registers[0x3F] = 0x24;
    let first = rfm.read_fsk_irq_flags();
    assert_eq!(radio.run(&mut rfm, first), Ok(Output::Flags(0xB0, 0x24)));
    assert_eq!(radio.log, vec![r(0x3E), r(0x3F)]);
}

#[test]
fn fsk_packet_is_read_from_fifo() {
    let (mut radio, mut rfm) = reset_radio();
    radio.rx_fifo.extend([3u8, 10, 20, 30, 99]);
    let first = rfm.read_fsk_packet(8);
    assert_eq!(radio.run(&mut rfm, first), Ok(Output::Length(3)));
    assert_eq!(rfm.packet(), &[10u8, 20, 30][..]);
    assert_eq!(radio.log, vec![r(0x00); 4]);
    assert_eq!(radio.rx_fifo, VecDeque::from(vec![99u8]));
}

#[test]
fn fsk_packet_length_must_fit() {
    let (mut radio, mut rfm) = reset_radio();
    radio.rx_fifo.extend([0u8]);
    let first = rfm.read_fsk_packet(8);
    assert_eq!(radio.run(&mut rfm, first), Err(RFMError::InvalidPacketSize));
    radio.rx_fifo.extend([9u8, 1, 2]);
    let first = rfm.read_fsk_packet(8);
    assert_eq!(radio.run(&mut rfm, first), Err(RFMError::InvalidPacketSize));
    assert_eq!(radio.log, vec![r(0x00), r(0x00)]);
    assert!(rfm.packet().is_empty());
    radio.rx_fifo.clear();
    radio.rx_fifo.extend([8u8, 1, 2, 3, 4, 5, 6, 7, 8]);
    let first = rfm.read_fsk_packet(8);
    assert_eq!(radio.run(&mut rfm, first), Ok(Output::Length(8)));
    assert_eq!(rfm.packet(), &[1u8, 2, 3, 4, 5, 6, 7, 8][..]);
}

#[test]
fn finished_machine_takes_no_reply() {
    let mut rfm = RFM95::new();
    assert!(!rfm.accepts(&Event::Written));
    assert_eq!(rfm.pending(), None);
    let first = rfm.read_fsk_irq_flags();
    assert_eq!(first, r(0x3E));
    assert!(rfm.accepts(&Event::Byte(1)));
    assert!(rfm.accepts(&Event::Failed));
    assert!(!rfm.accepts(&Event::Written));
    let next = rfm.step(Event::Failed);
    assert_eq!(next, Action::Finish(Err(RFMError::Spi)));
    assert!(!rfm.accepts(&Event::Byte(1)));
}

fn count(log: &[Action], pred: impl Fn(&Action) -> bool) -> usize {
    log.iter().filter(|a| pred(a)).count()
}

#[test]
fn lora_poll_stops_at_first_tx_done() {
    let (mut radio, mut rfm) = reset_radio();
    radio.tx_done_at_poll = Some(37);
    let first = rfm.send_packet(&[9, 8], FREQ_CH0, DataRate::SF7BW125);
    assert_eq!(radio.run(&mut rfm, first), Ok(Output::Unit));
    assert_eq!(count(&radio.log, |a| *a == r(0x12)), 37);
    assert_eq!(radio.registers[0x01], mode::LORA | mode::STANDBY);
}

#[test]
fn lora_poll_sees_tx_done_on_last_round() {
    let (mut radio, mut rfm) = reset_radio();
    radio.tx_done_at_poll = Some(100);
    let first = rfm.send_packet(&[9], FREQ_CH0, DataRate::SF7BW125);
    assert_eq!(radio.run(&mut rfm, first), Ok(Output::Unit));
    assert_eq!(count(&radio.log, |a| *a == r(0x12)), 100);
}

#[test]
fn send_packet_traffic_stays_within_bound() {
    for len in [1usize, 17, 255] {
        let (mut radio, mut rfm) = reset_radio();
        radio.stuck_irq = true;
        radio.registers[0x12] = 0;
        radio.registers[0x01] = 0x42;
        let packet = vec![0x5Au8; len];
        let first = rfm.send_packet(&packet, FREQ_CH0, DataRate::SF7BW125);
        assert_eq!(radio.run(&mut rfm, first), Err(RFMError::TransmissionTimedOut));
        let spi = count(&radio.log, |a| matches!(a, Action::Write { .. } | Action::Read { .. }));
        let delays = count(&radio.log, |a| matches!(a, Action::Delay { .. }));
        let pins = count(&radio.log, |a| matches!(a, Action::SetReset { .. } | Action::SampleDio0));
        assert!(spi <= len + 120, "{spi} SPI transfers for {len} bytes");
        assert!(delays <= 103);
        assert_eq!(pins, 0);
    }
}

#[test]
fn fsk_send_writes_only_fsk_modes() {
    for start_mode in [0x00u8, 0x81, 0x85, 0x03] {
        let (mut radio, mut rfm) = reset_radio();
        radio.registers[0x01] = start_mode;
        radio.registers[0x3F] = 0b0000_1000;
        let first = rfm.send_fsk_packet(&[1, 2, 3], FREQ_CH1, FskDataRate::BR100kFd50k);
        assert_eq!(radio.run(&mut rfm, first), Ok(Output::Unit));
        for action in &radio.log {
            if let Action::Write { command: 0x81, value } = action {
                assert!(*value == mode::STANDBY || *value == mode::TRANSMIT);
            }
        }
        assert_eq!(radio.log.last(), Some(&r(0x01)));
    }
}

#[test]
fn reset_twice_leaves_the_same_registers() {
    let mut radio = MockRadio::new();
    radio.registers[0x01] = 0x85;
    radio.registers[0x09] = 0x11;
    let mut rfm = RFM95::new();
    let first = rfm.reset();
    assert_eq!(radio.run(&mut rfm, first), Ok(Output::Unit));
    let after_first = radio.registers;
    let first = rfm.reset();
    assert_eq!(radio.run(&mut rfm, first), Ok(Output::Unit));
    assert_eq!(radio.registers, after_first);
    assert_eq!(after_first[0x01], 0x80);
    assert_eq!(after_first[0x09], 0xFF);
}
