use lora_rfm98::register::Register;
use lora_rfm98::{modem_config, DataRate, FskDataRate, FREQ_CH0, FREQ_CH1, FREQ_CH2};

#[test]
fn modem_config_words() {
    for rate in [DataRate::SF7BW125, DataRate::SF8BW125, DataRate::SF9BW125] {
        assert_eq!(rate.modem_config_1(), 0x72);
        assert_eq!(rate.modem_config_3(), modem_config::AUTO_AGC_ON);
        let with_crc = rate.modem_config_2() | modem_config::RX_PAYLOAD_CRC;
        assert_ne!(with_crc & 0x04, 0);
        assert_eq!(with_crc & 0xF0, rate.modem_config_2());
    }
}

#[test]
fn fsk_bitrate_is_oscillator_over_bitrate() {
    let cases = [
        (FskDataRate::BR50kFd25k, 50_000u32),
        (FskDataRate::BR100kFd50k, 100_000),
        (FskDataRate::BR150kFd75k, 150_000),
    ];
    for (rate, bps) in cases {
        let [msb, lsb] = rate.bitrate_registers();
        assert_eq!(u32::from(msb) * 256 + u32::from(lsb), 32_000_000 / bps);
    }
    assert_eq!(FskDataRate::BR50kFd25k.bitrate_registers(), [0x02, 0x80]);
    assert_eq!(FskDataRate::BR150kFd75k.bitrate_registers(), [0x00, 0xD5]);
}

#[test]
fn fsk_deviation_is_nearest_frequency_step() {
    let cases = [
        (FskDataRate::BR50kFd25k, 25_000u64),
        (FskDataRate::BR100kFd50k, 50_000),
        (FskDataRate::BR150kFd75k, 75_000),
    ];
    for (rate, hz) in cases {
        let [msb, lsb] = rate.fdev_registers();
        let word = u64::from(msb) * 256 + u64::from(lsb);
        assert_eq!(word, (hz * 524_288 + 16_000_000) / 32_000_000);
    }
    assert_eq!(FskDataRate::BR100kFd50k.fdev_registers(), [0x03, 0x33]);
}

#[test]
fn channel_frequencies_are_eu868() {
    let channels = [(FREQ_CH0, 868_100_000u64), (FREQ_CH1, 868_300_000), (FREQ_CH2, 868_500_000)];
    for (frf, nominal) in channels {
        let word = (u64::from(frf[0]) << 16) | (u64::from(frf[1]) << 8) | u64::from(frf[2]);
        let hz = word * 32_000_000 / 524_288;
        assert!(hz.abs_diff(nominal) < 2_500, "{hz} vs {nominal}");
    }
}

#[test]
fn command_bytes_frame_the_address() {
    assert_eq!(Register::Version.read_command(), 0x42);
    assert_eq!(Register::Version.write_command(), 0xC2);
    assert_eq!(Register::FIFO.write_command(), 0x80);
    assert_eq!(Register::DIOMapping1.address(), 0x40);
    assert_eq!(Register::FSKIRQFlags2.read_command(), 0x3F);
    assert_eq!(Register::OpMode.write_command() & 0x7F, Register::OpMode.address());
}
