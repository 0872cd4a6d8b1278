use matrix_link::config::{
    append_decimal, numbered_name, numbered_names, MatrixConfig, MatrixMapping,
};
use matrix_link::error::ErrorKind;

#[test]
fn default_config_links() {
    let config = MatrixConfig::default();
    assert_eq!(config.serial_matrix.port, "COM1");
    assert_eq!(config.serial_matrix.baud_rate, 9600);
    assert_eq!(config.serial_matrix.data_bits, 8);
    assert_eq!(config.serial_matrix.stop_bits, 1);
    assert_eq!(config.serial_matrix.parity, "None");
    assert!(!config.serial_screen.enabled);
    assert_eq!(config.serial_screen.port, "COM2");
    assert_eq!(config.serial_screen.baud_rate, 9600);
    assert_eq!(config.serial_screen.data_bits, 8);
    assert_eq!(config.serial_screen.stop_bits, 1);
    assert_eq!(config.serial_screen.parity, "None");
}

#[test]
fn default_config_names() {
    let config = MatrixConfig::default();
    assert_eq!(config.key_names.len(), 24);
    assert_eq!(config.adc_names.len(), 14);
    assert_eq!(config.led_names.len(), 20);
    for i in 0..24 {
        assert_eq!(config.key_names[i], format!("按键 {}", i + 1));
    }
    for i in 0..14 {
        assert_eq!(config.adc_names[i], format!("ADC {}", i + 1));
    }
    for i in 0..20 {
        assert_eq!(config.led_names[i], format!("LED {}", i + 1));
    }
    assert_eq!(config.key_names[9], "按键 10");
}

#[test]
fn numbered_name_writes_decimal() {
    assert_eq!(numbered_name("X", 0), "X 0");
    assert_eq!(numbered_name("X", 7), "X 7");
    assert_eq!(numbered_name("X", 10), "X 10");
    assert_eq!(numbered_name("", 105), " 105");
    assert_eq!(numbered_name("Port", 9_876_543_210), "Port 9876543210");
}

#[test]
fn append_decimal_keeps_what_was_there() {
    let mut text = String::from("n=");
    append_decimal(&mut text, 4096);
    append_decimal(&mut text, 0);
    assert_eq!(text, "n=40960");
}

#[test]
fn numbered_names_counts_from_one() {
    assert!(numbered_names("K", 0).is_empty());
    assert_eq!(numbered_names("K", 3), vec!["K 1", "K 2", "K 3"]);
}

#[test]
fn mapping_holds_its_fields() {
    let mapping = MatrixMapping { last_received: "AA 47".to_string(), mute_status: true };
    let copy = mapping.clone();
    assert_eq!(copy.last_received, "AA 47");
    assert!(copy.mute_status);
}

#[test]
fn error_messages() {
    assert_eq!(ErrorKind::TransportNotConnected.message(), "Serial port not connected");
    assert_eq!(ErrorKind::TransportReadError("r".to_string()).message(), "r");
    assert_eq!(ErrorKind::TransportWriteError("w".to_string()).message(), "w");
    assert_eq!(ErrorKind::FirmwareFileError("f".to_string()).message(), "f");
}
