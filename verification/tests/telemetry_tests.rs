use matrix_link::telemetry::{
    compute_checksum, decode, find_latest, frame_array, parse_data, ParsedData, ADC_COUNT,
    FRAME_END, FRAME_LEN, FRAME_START, KEY_COUNT, LED_COUNT,
};

const EXAMPLE: [u8; 24] = [
    0xAA, 0x47, 0x00, 0x00, 0x03, 0x80, 0x80, 0x80, 0x80, 0x00, 0x00, 0x00, 0x80, 0x00, 0x00,
    0x00, 0x00, 0x00, 0x00, 0x00, 0x00, 0x00, 0x6E, 0xBF,
];

fn frame_with(index: u8, keys: [u8; 3], adc: [u8; 14], leds: [u8; 3]) -> [u8; 24] {
    let mut frame = [0u8; 24];
    frame[0] = 0xAA;
    frame[1] = index;
    frame[2..5].copy_from_slice(&keys);
    frame[5..19].copy_from_slice(&adc);
    frame[19..22].copy_from_slice(&leds);
    let mut checksum = 0u8;
    for byte in &frame[..22] {
        checksum ^= *byte;
    }
    frame[22] = checksum;
    frame[23] = 0xBF;
    frame
}

fn corrupt(mut frame: [u8; 24]) -> [u8; 24] {
    frame[22] ^= 0x5A;
    frame
}

#[test]
fn frame_constants_match_the_wire_format() {
    assert_eq!(FRAME_LEN, 24);
    assert_eq!(FRAME_START, 0xAA);
    assert_eq!(FRAME_END, 0xBF);
    assert_eq!(KEY_COUNT, 24);
    assert_eq!(ADC_COUNT, 14);
    assert_eq!(LED_COUNT, 20);
    assert_eq!(2 + KEY_COUNT / 8 + ADC_COUNT + (LED_COUNT + 7) / 8 + 2, FRAME_LEN);
}

#[test]
fn worked_example_checksum_is_6e() {
    assert_eq!(compute_checksum(&EXAMPLE), 0x6E);
    assert_eq!(EXAMPLE[0], 0xAA);
    assert_eq!(EXAMPLE[23], 0xBF);
}

#[test]
fn worked_example_decodes() {
    let parsed = decode(&EXAMPLE);
    assert!(parsed.valid);
    assert_eq!(parsed.index, 0x47);
    let mut keys = [false; 24];
    keys[16] = true;
    keys[17] = true;
    assert_eq!(parsed.keys, keys);
    assert_eq!(
        parsed.adc,
        [0x80, 0x80, 0x80, 0x80, 0, 0, 0, 0x80, 0, 0, 0, 0, 0, 0]
    );
    assert_eq!(parsed.leds, [false; 20]);
    assert_eq!(parsed.raw_data, EXAMPLE.to_vec());
}

#[test]
fn checksum_ignores_bytes_22_and_23() {
    let mut other = EXAMPLE;
    other[22] = 0x00;
    other[23] = 0x11;
    assert_eq!(compute_checksum(&other), compute_checksum(&EXAMPLE));
    assert_eq!(compute_checksum(&EXAMPLE), compute_checksum(&EXAMPLE));
}

#[test]
fn checksum_of_zero_frame_is_zero() {
    assert_eq!(compute_checksum(&[0u8; 24]), 0);
}

#[test]
fn decode_follows_bit_layout() {
    let mut adc = [0u8; 14];
    for (i, value) in adc.iter_mut().enumerate() {
        *value = 10 + i as u8;
    }
    let frame = frame_with(9, [0b0000_0101, 0b1000_0000, 0b0100_0000], adc, [0x01, 0x82, 0x0F]);
    let parsed = decode(&frame);
    assert!(parsed.valid);
    assert_eq!(parsed.index, 9);
    for i in 0..24 {
        let expected = i == 0 || i == 2 || i == 15 || i == 22;
        assert_eq!(parsed.keys[i], expected, "key {}", i);
    }
    assert_eq!(parsed.adc, adc);
    for i in 0..20 {
        let expected = i == 0 || i == 9 || i == 15 || i >= 16;
        assert_eq!(parsed.leds[i], expected, "led {}", i);
    }
}

#[test]
fn decode_ignores_led_bits_beyond_twenty() {
    let low = decode(&frame_with(1, [0; 3], [0; 14], [0, 0, 0x0F]));
    let high = decode(&frame_with(1, [0; 3], [0; 14], [0, 0, 0xFF]));
    assert_eq!(low.leds, high.leds);
    assert!(high.valid);
}

#[test]
fn decode_flags_checksum_mismatch_but_still_decodes() {
    let frame = corrupt(frame_with(3, [0xFF, 0, 0], [7; 14], [0, 0xFF, 0]));
    let parsed = decode(&frame);
    assert!(!parsed.valid);
    assert_eq!(parsed.index, 3);
    assert!(parsed.keys[0] && parsed.keys[7] && !parsed.keys[8]);
    assert_eq!(parsed.adc, [7; 14]);
    assert!(parsed.leds[8] && parsed.leds[15] && !parsed.leds[16]);
    assert_eq!(parsed.raw_data, frame.to_vec());
}

#[test]
fn decode_does_not_look_at_markers() {
    let mut frame = frame_with(5, [1, 2, 3], [4; 14], [5, 6, 7]);
    frame[23] = 0x00;
    let parsed = decode(&frame);
    assert!(parsed.valid);
    assert_eq!(parsed.index, 5);
}

#[test]
fn default_snapshot_is_blank() {
    let parsed = ParsedData::default();
    assert_eq!(parsed.index, 0);
    assert_eq!(parsed.keys, [false; 24]);
    assert_eq!(parsed.adc, [0; 14]);
    assert_eq!(parsed.leds, [false; 20]);
    assert!(parsed.raw_data.is_empty());
    assert!(!parsed.valid);
}

#[test]
fn clone_keeps_every_field() {
    let parsed = decode(&EXAMPLE);
    let copy = parsed.clone();
    assert_eq!(copy.index, parsed.index);
    assert_eq!(copy.keys, parsed.keys);
    assert_eq!(copy.adc, parsed.adc);
    assert_eq!(copy.leds, parsed.leds);
    assert_eq!(copy.raw_data, parsed.raw_data);
    assert_eq!(copy.valid, parsed.valid);
}

#[test]
fn frame_array_copies_the_window() {
    let mut data = vec![0x11u8, 0x22];
    data.extend_from_slice(&EXAMPLE);
    data.push(0x33);
    assert_eq!(frame_array(&data, 2), EXAMPLE);
    assert_eq!(frame_array(&data, 0)[0], 0x11);
    assert_eq!(frame_array(&data, 3)[23], 0x33);
}

#[test]
fn parse_data_without_frame_is_blank_with_raw_bytes() {
    let data = [1u8, 2, 3, 0xAA, 5];
    let parsed = parse_data(&data);
    assert!(!parsed.valid);
    assert_eq!(parsed.index, 0);
    assert_eq!(parsed.keys, [false; 24]);
    assert_eq!(parsed.adc, [0; 14]);
    assert_eq!(parsed.leds, [false; 20]);
    assert_eq!(parsed.raw_data, data.to_vec());
}

#[test]
fn parse_data_of_nothing_is_blank() {
    let parsed = parse_data(&[]);
    assert!(!parsed.valid);
    assert!(parsed.raw_data.is_empty());
}

#[test]
fn parse_data_of_23_bytes_finds_no_frame() {
    let parsed = parse_data(&EXAMPLE[..23]);
    assert!(!parsed.valid);
    assert_eq!(parsed.index, 0);
    assert_eq!(parsed.raw_data, EXAMPLE[..23].to_vec());
}

#[test]
fn parse_data_of_one_frame_decodes_it() {
    let parsed = parse_data(&EXAMPLE);
    assert!(parsed.valid);
    assert_eq!(parsed.index, 0x47);
    assert_eq!(parsed.raw_data, EXAMPLE.to_vec());
}

#[test]
fn parse_data_prefers_the_most_recent_valid_frame() {
    let first = frame_with(1, [1, 0, 0], [1; 14], [0; 3]);
    let second = frame_with(2, [2, 0, 0], [2; 14], [0; 3]);
    let mut data = vec![0x00, 0x13];
    data.extend_from_slice(&first);
    data.extend_from_slice(&[0x55; 5]);
    data.extend_from_slice(&second);
    data.push(0x77);
    let parsed = parse_data(&data);
    assert!(parsed.valid);
    assert_eq!(parsed.index, 2);
    assert_eq!(parsed.adc, [2; 14]);
    assert_eq!(parsed.raw_data, data);
}

#[test]
fn parse_data_prefers_an_older_valid_frame_to_a_newer_invalid_one() {
    let good = frame_with(1, [1, 0, 0], [1; 14], [0; 3]);
    let bad = corrupt(frame_with(2, [2, 0, 0], [2; 14], [0; 3]));
    let mut data = good.to_vec();
    data.extend_from_slice(&bad);
    let parsed = parse_data(&data);
    assert!(parsed.valid);
    assert_eq!(parsed.index, 1);
    assert_eq!(parsed.adc, [1; 14]);
}

#[test]
fn parse_data_falls_back_to_the_most_recent_invalid_frame() {
    let older = corrupt(frame_with(1, [1, 0, 0], [1; 14], [0; 3]));
    let newer = corrupt(frame_with(2, [0, 0, 4], [2; 14], [1, 0, 0]));
    let mut data = older.to_vec();
    data.extend_from_slice(&newer);
    let parsed = parse_data(&data);
    assert!(!parsed.valid);
    assert_eq!(parsed.index, 2);
    assert!(parsed.keys[18]);
    assert_eq!(parsed.adc, [2; 14]);
    assert!(parsed.leds[0]);
    assert_eq!(parsed.raw_data, data);
}

#[test]
fn find_latest_reports_offsets() {
    let good = frame_with(1, [0; 3], [0; 14], [0; 3]);
    let bad = corrupt(frame_with(2, [0; 3], [0; 14], [0; 3]));
    let mut data = vec![9u8; 3];
    data.extend_from_slice(&good);
    data.extend_from_slice(&bad);
    assert_eq!(find_latest(&data, true), Some(3));
    assert_eq!(find_latest(&data, false), Some(27));
    assert_eq!(find_latest(&data[..26], true), None);
    assert_eq!(find_latest(&[], false), None);
    assert_eq!(find_latest(&bad, true), None);
    assert_eq!(find_latest(&bad, false), Some(0));
}
