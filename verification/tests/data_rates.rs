use lora_rfm98::modem_config;
use lora_rfm98::DataRate;

#[test]
fn test_data_rate_configs() {
    assert_eq!(DataRate::SF7BW125.modem_config_2(), modem_config::SF7);
    assert_eq!(DataRate::SF8BW125.modem_config_2(), modem_config::SF8);
    assert_eq!(DataRate::SF9BW125.modem_config_2(), modem_config::SF9);
}
