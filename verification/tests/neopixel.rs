use busylight::neopixel;
use busylight::neopixel::bit;

#[test]
fn buffer_size() {
    assert_eq!(2, neopixel::buffer_size(0));
    assert_eq!(14, neopixel::buffer_size(1));
    assert_eq!(26, neopixel::buffer_size(2));
    assert_eq!(38, neopixel::buffer_size(3));
}

#[test]
fn fill_with_color() {
    assert_eq!(
        &[
            0x00, // Blank, sometimes the first byte has weird timing
            0xee, 0xe8, 0xe8, 0xe8, // G
            0x8e, 0xee, 0xe8, 0xee, // R
            0x8e, 0x88, 0xee, 0x8e, // B
            0xee, 0xe8, 0xe8, 0xe8, // G
            0x8e, 0xee, 0xe8, 0xee, // R
            0x8e, 0x88, 0xee, 0x8e, // B
            0x00, // Blank, to make sure the state after the transmissin is 'low'
        ],
        busylight::neopixel::fill_with_color(&mut [0xff; 26], (123, 234, 77)),
    );
}

#[test]
fn bit_extracts_single_bits() {
    assert_eq!(bit(0b1010_0000, 7), 1);
    assert_eq!(bit(0b1010_0000, 6), 0);
    assert_eq!(bit(0b1010_0000, 5), 1);
    assert_eq!(bit(0b0000_0001, 0), 1);
}

#[test]
fn fill_too_short_buffer_is_untouched() {
    let mut data = [0x55u8; 1];
    let out: Vec<u8> = neopixel::fill_with_color(&mut data, (1, 2, 3)).to_vec();
    assert!(out.is_empty());
    assert_eq!(data, [0x55]);
    let mut empty: [u8; 0] = [];
    assert!(neopixel::fill_with_color(&mut empty, (1, 2, 3)).is_empty());
}

#[test]
fn fill_leaves_tail_untouched() {
    // 2 + 12 + 5 bytes: room for one LED, five bytes left over.
    let mut data = [0xaau8; 19];
    let out: Vec<u8> = neopixel::fill_with_color(&mut data, (0, 0, 0)).to_vec();
    assert_eq!(out.len(), 14);
    assert_eq!(out[0], 0);
    assert_eq!(out[13], 0);
    assert!(out[1..13].iter().all(|&b| b == 0x88));
    assert_eq!(&data[14..], &[0xaa; 5]);
}

#[test]
fn fill_exactly_two_bytes() {
    let mut data = [0x11u8; 2];
    let out: Vec<u8> = neopixel::fill_with_color(&mut data, (255, 255, 255)).to_vec();
    assert_eq!(out, vec![0, 0]);
}

#[test]
fn fill_white_is_all_ones() {
    let mut data = [0u8; 14];
    let out: Vec<u8> = neopixel::fill_with_color(&mut data, (255, 255, 255)).to_vec();
    assert_eq!(out[0], 0);
    assert!(out[1..13].iter().all(|&b| b == 0xee));
    assert_eq!(out[13], 0);
}

fn decode_pair(b: u8) -> u8 {
    (if b & 0x60 == 0x60 { 2 } else { 0 }) + (if b & 0x06 == 0x06 { 1 } else { 0 })
}

fn decode_channel(bytes: &[u8]) -> u8 {
    64 * decode_pair(bytes[0]) + 16 * decode_pair(bytes[1]) + 4 * decode_pair(bytes[2])
        + decode_pair(bytes[3])
}

#[test]
fn every_led_decodes_to_the_color() {
    let color = (17u8, 200u8, 99u8);
    let mut data = [0u8; 38];
    let out: Vec<u8> = neopixel::fill_with_color(&mut data, color).to_vec();
    for led in 0..3 {
        let start = 12 * led + 1;
        let g = decode_channel(&out[start..start + 4]);
        let r = decode_channel(&out[start + 4..start + 8]);
        let b = decode_channel(&out[start + 8..start + 12]);
        assert_eq!((r, g, b), color);
    }
    for &byte in &out[1..37] {
        assert!([0x88, 0x8e, 0xe8, 0xee].contains(&byte));
    }
}
