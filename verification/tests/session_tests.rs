use matrix_link::config::MatrixConfig;
use matrix_link::error::ErrorKind;
use matrix_link::matrix::{DataParser, ERROR_THRESHOLD};
use matrix_link::serial::SerialManager;

fn frame(index: u8, adc: u8) -> [u8; 24] {
    let mut frame = [0u8; 24];
    frame[0] = 0xAA;
    frame[1] = index;
    frame[2] = 0x01;
    for value in frame[5..19].iter_mut() {
        *value = adc;
    }
    frame[19] = 0x02;
    let mut checksum = 0u8;
    for byte in &frame[..22] {
        checksum ^= *byte;
    }
    frame[22] = checksum;
    frame[23] = 0xBF;
    frame
}

fn connected() -> DataParser {
    let mut session = DataParser::new(MatrixConfig::default());
    session.connect(SerialManager::new());
    session
}

fn failure() -> Result<&'static [u8], String> {
    Err("timed out".to_string())
}

#[test]
fn new_session_has_blank_snapshot() {
    let session = DataParser::new(MatrixConfig::default());
    let parsed = session.get_parsed_data();
    assert_eq!(parsed.index, 0);
    assert!(!parsed.valid);
    assert!(session.get_raw_data().is_empty());
    assert_eq!(session.get_keys(), [false; 24]);
    assert_eq!(session.get_adc(), [0; 14]);
    assert_eq!(session.get_leds(), [false; 20]);
    assert!(!session.is_data_valid());
    assert_eq!(session.error_count(), 0);
}

#[test]
fn read_without_link_is_not_connected() {
    let mut session = DataParser::new(MatrixConfig::default());
    let whole = frame(1, 1);
    assert_eq!(session.read_and_parse(Ok(&whole)), Err(ErrorKind::TransportNotConnected));
    assert_eq!(session.read_and_parse(failure()), Err(ErrorKind::TransportNotConnected));
    assert_eq!(session.error_count(), 0);
    assert!(!session.is_data_valid());
}

#[test]
fn read_on_closed_link_is_not_connected() {
    let mut manager = SerialManager::new();
    manager.close();
    let mut session = DataParser::new(MatrixConfig::default());
    session.connect(manager);
    for _ in 0..8 {
        assert_eq!(session.read_and_parse(Ok(&[])), Err(ErrorKind::TransportNotConnected));
    }
    assert_eq!(session.error_count(), 0);
}

#[test]
fn valid_frame_is_published() {
    let mut session = connected();
    let whole = frame(0x21, 0x40);
    assert_eq!(session.read_and_parse(Ok(&whole)), Ok(()));
    assert!(session.is_data_valid());
    let parsed = session.get_parsed_data();
    assert_eq!(parsed.index, 0x21);
    assert_eq!(session.get_adc(), [0x40; 14]);
    assert!(session.get_keys()[0]);
    assert!(!session.get_keys()[1]);
    assert!(session.get_leds()[1]);
    assert_eq!(session.get_raw_data(), whole.to_vec());
}

#[test]
fn read_without_frame_keeps_the_snapshot() {
    let mut session = connected();
    let whole = frame(3, 9);
    assert_eq!(session.read_and_parse(Ok(&whole)), Ok(()));
    assert_eq!(session.read_and_parse(Ok(&[0x01, 0x02])), Ok(()));
    assert_eq!(session.read_and_parse(Ok(&[])), Ok(()));
    assert!(session.is_data_valid());
    assert_eq!(session.get_parsed_data().index, 3);
    assert_eq!(session.get_raw_data(), whole.to_vec());
}

#[test]
fn frame_split_across_cycles_is_published_when_complete() {
    let mut session = connected();
    let whole = frame(0x10, 2);
    assert_eq!(session.read_and_parse(Ok(&whole[..7])), Ok(()));
    assert!(!session.is_data_valid());
    assert_eq!(session.read_and_parse(Ok(&whole[7..])), Ok(()));
    assert!(session.is_data_valid());
    assert_eq!(session.get_parsed_data().index, 0x10);
}

#[test]
fn invalid_frame_keeps_decoded_fields_and_flags_invalid() {
    let mut session = connected();
    let good = frame(5, 0x33);
    let mut bad = frame(6, 0x44);
    bad[22] ^= 0x01;
    assert_eq!(session.read_and_parse(Ok(&good)), Ok(()));
    assert_eq!(session.read_and_parse(Ok(&bad)), Ok(()));
    assert!(!session.is_data_valid());
    let parsed = session.get_parsed_data();
    assert_eq!(parsed.index, 5);
    assert_eq!(parsed.adc, [0x33; 14]);
    assert_eq!(parsed.raw_data, bad.to_vec());
    let next = frame(7, 0x55);
    assert_eq!(session.read_and_parse(Ok(&next)), Ok(()));
    assert!(session.is_data_valid());
    assert_eq!(session.get_parsed_data().index, 7);
}

#[test]
fn five_failures_are_surfaced_then_swallowed() {
    let mut session = connected();
    let good = frame(1, 1);
    assert_eq!(session.read_and_parse(Ok(&good)), Ok(()));
    for n in 1..=5u8 {
        assert_eq!(
            session.read_and_parse(failure()),
            Err(ErrorKind::TransportReadError("timed out".to_string()))
        );
        assert_eq!(session.error_count(), n);
    }
    for _ in 0..10 {
        assert_eq!(session.read_and_parse(failure()), Ok(()));
        assert_eq!(session.error_count(), 5);
    }
    assert!(session.is_data_valid());
    assert_eq!(session.get_parsed_data().index, 1);
    assert_eq!(ERROR_THRESHOLD, 5);
}

#[test]
fn successful_read_resets_the_failure_count() {
    let mut session = connected();
    for _ in 0..7 {
        let _ = session.read_and_parse(failure());
    }
    assert_eq!(session.read_and_parse(failure()), Ok(()));
    assert_eq!(session.read_and_parse(Ok(&[])), Ok(()));
    assert_eq!(session.error_count(), 0);
    assert_eq!(
        session.read_and_parse(failure()),
        Err(ErrorKind::TransportReadError("timed out".to_string()))
    );
    assert_eq!(session.error_count(), 1);
}

#[test]
fn reconnect_resets_the_failure_count() {
    let mut session = connected();
    for _ in 0..6 {
        let _ = session.read_and_parse(failure());
    }
    assert_eq!(session.error_count(), 5);
    session.disconnect();
    assert_eq!(session.error_count(), 0);
    assert_eq!(session.read_and_parse(failure()), Err(ErrorKind::TransportNotConnected));
    session.connect(SerialManager::new());
    assert_eq!(session.error_count(), 0);
    assert_eq!(
        session.read_and_parse(failure()),
        Err(ErrorKind::TransportReadError("timed out".to_string()))
    );
}

#[test]
fn connect_resets_count_without_disconnect() {
    let mut session = connected();
    for _ in 0..3 {
        let _ = session.read_and_parse(failure());
    }
    assert_eq!(session.error_count(), 3);
    session.connect(SerialManager::new());
    assert_eq!(session.error_count(), 0);
}

#[test]
fn disconnect_keeps_the_snapshot() {
    let mut session = connected();
    let whole = frame(0x42, 3);
    assert_eq!(session.read_and_parse(Ok(&whole)), Ok(()));
    session.disconnect();
    assert!(session.is_data_valid());
    assert_eq!(session.get_parsed_data().index, 0x42);
}

#[test]
fn failures_do_not_touch_buffered_bytes() {
    let mut session = connected();
    let whole = frame(0x11, 4);
    assert_eq!(session.read_and_parse(Ok(&whole[..12])), Ok(()));
    for _ in 0..7 {
        let _ = session.read_and_parse(failure());
    }
    assert_eq!(session.read_and_parse(Ok(&whole[12..])), Ok(()));
    assert!(session.is_data_valid());
    assert_eq!(session.get_parsed_data().index, 0x11);
}

#[test]
fn send_command_needs_a_link() {
    let mut session = DataParser::new(MatrixConfig::default());
    assert_eq!(session.send_command(&[0xA5, 0x01]), Err(ErrorKind::TransportNotConnected));
    session.connect(SerialManager::new());
    assert_eq!(session.send_command(&[0xA5, 0x01]), Ok(vec![0xA5, 0x01]));
    session.disconnect();
    assert_eq!(session.send_command(&[0xA5, 0x01]), Err(ErrorKind::TransportNotConnected));
}
