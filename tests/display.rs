use doorway_counter::display::{digit_codes, segment_code, serial_bits};

#[test]
fn segment_codes_of_digits() {
    assert_eq!(segment_code(0), 0xc0);
    assert_eq!(segment_code(1), 0xf9);
    assert_eq!(segment_code(8), 0x80);
    assert_eq!(segment_code(9), 0x90);
}

#[test]
fn digit_codes_ones_first() {
    assert_eq!(digit_codes(1234), [0x99, 0xb0, 0xa4, 0xf9]);
    assert_eq!(digit_codes(0), [0xc0, 0xc0, 0xc0, 0xc0]);
    assert_eq!(digit_codes(65535), [0x92, 0xb0, 0x92, 0x92]);
}

#[test]
fn serial_bits_msb_first() {
    assert_eq!(
        serial_bits(0xa4),
        [true, false, true, false, false, true, false, false]
    );
    assert_eq!(serial_bits(0x01), [false, false, false, false, false, false, false, true]);
}
