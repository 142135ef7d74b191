//! Checksum, CRC, generator and decimal-formatting vectors.

use pdu::util::{get_digit_from_usize, usize_to_bytes};
use pdu::{checksum, crc32, Xorshift32};

#[test]
fn crc32_standard_vector() {
    assert_eq!(crc32(b"123456789"), 0xCBF43926);
}

#[test]
fn crc32_empty_input() {
    assert_eq!(crc32(b""), 0x00000000);
}

#[test]
fn checksum_single_span() {
    // 0x0001 + 0xf203 = 0xf204; one's complement = 0x0dfb
    assert_eq!(checksum(&[&[0x00u8, 0x01, 0xf2, 0x03][..]]), 0x0dfb);
}

#[test]
fn checksum_multi_span_matches_contiguous() {
    let whole: &[u8] = &[0x45, 0x00, 0x00, 0x73, 0x00, 0x00, 0x40, 0x00, 0x40, 0x11];
    let split = checksum(&[&whole[0..4], &whole[4..8], &whole[8..10]]);
    assert_eq!(checksum(&[whole]), split);
}

#[test]
fn checksum_odd_trailing_byte_is_high_padded() {
    // 0xab00 -> complement 0x54ff
    assert_eq!(checksum(&[&[0xabu8][..]]), 0x54ff);
}

#[test]
fn checksum_real_ipv4_header_validates() {
    // A captured 20-byte IPv4 header whose checksum field is 0xb861.
    let hdr: [u8; 20] = [
        0x45, 0x00, 0x00, 0x73, 0x00, 0x00, 0x40, 0x00, 0x40, 0x11, 0xb8, 0x61, 0xc0, 0xa8,
        0x00, 0x01, 0xc0, 0xa8, 0x00, 0xc7,
    ];
    // Recomputing with the checksum field skipped gives the stored value...
    assert_eq!(checksum(&[&hdr[0..10], &hdr[12..20]]), 0xb861);
    // ...and summing the whole header, checksum included, gives zero.
    assert_eq!(checksum(&[&hdr[..]]), 0x0000);
}

#[test]
fn xorshift_sequence_is_deterministic() {
    let mut rng = Xorshift32::new(0xFF);
    assert_eq!(rng.gen(), 0x03e3fef0);
    assert_eq!(rng.gen(), 0xfb85dd2e);
    assert_eq!(rng.gen(), 0x44279afe);
}

#[test]
fn digit_count() {
    assert_eq!(get_digit_from_usize(0), 0);
    assert_eq!(get_digit_from_usize(7), 1);
    assert_eq!(get_digit_from_usize(42), 2);
    assert_eq!(get_digit_from_usize(999), 3);
    assert_eq!(get_digit_from_usize(1460), 4);
}

#[test]
fn decimal_bytes() {
    assert_eq!(usize_to_bytes(0), *b"0000");
    assert_eq!(usize_to_bytes(7), *b"0007");
    assert_eq!(usize_to_bytes(1460), *b"1460");
    assert_eq!(usize_to_bytes(9999), *b"9999");
}
