use totp::digits::{decimal_bytes, decimal_len, padded_decimal_string, pow10_u64};
use totp::generator::dynamic_truncate;

#[test]
fn powers_of_ten() {
    assert_eq!(pow10_u64(0), 1);
    assert_eq!(pow10_u64(1), 10);
    assert_eq!(pow10_u64(8), 100_000_000);
    assert_eq!(pow10_u64(18), 1_000_000_000_000_000_000);
    assert_eq!(pow10_u64(19), 10_000_000_000_000_000_000);
}

#[test]
fn decimal_text_of_counters() {
    assert_eq!(decimal_bytes(0), b"0");
    assert_eq!(decimal_bytes(1), b"1");
    assert_eq!(decimal_bytes(10), b"10");
    assert_eq!(decimal_bytes(1234567890), b"1234567890");
    assert_eq!(decimal_bytes(u64::MAX), b"18446744073709551615");
}

#[test]
fn decimal_lengths() {
    assert_eq!(decimal_len(0), 1);
    assert_eq!(decimal_len(9), 1);
    assert_eq!(decimal_len(10), 2);
    assert_eq!(decimal_len(99), 2);
    assert_eq!(decimal_len(100), 3);
    assert_eq!(decimal_len(u64::MAX), 20);
}

#[test]
fn zero_padded_rendering() {
    assert_eq!(padded_decimal_string(42, 5), "00042");
    assert_eq!(padded_decimal_string(0, 3), "000");
    assert_eq!(padded_decimal_string(12345, 5), "12345");
}

#[test]
fn truncation_reads_at_the_offset() {
    // The last byte picks offset 4; the top bit of the first byte read
    // is masked off.
    let mut mac = vec![0u8; 64];
    mac[4] = 0xff;
    mac[5] = 0x01;
    mac[6] = 0x02;
    mac[7] = 0x03;
    mac[63] = 0x04;
    let p = dynamic_truncate(&mac);
    assert_eq!(p, (0x7f << 24) | (0x01 << 16) | (0x02 << 8) | 0x03);
}

#[test]
fn truncation_offset_zero() {
    let mut mac = vec![0u8; 64];
    mac[0] = 0x80;
    mac[3] = 0x2a;
    mac[63] = 0x10;
    // 0x10 & 0x0f is 0, so the read starts at byte 0 and the 0x80 bit
    // vanishes under the mask.
    let p = dynamic_truncate(&mac);
    assert_eq!(p, 0x2a);
}

#[test]
fn truncation_is_31_bits() {
    let mac = vec![0xffu8; 64];
    let p = dynamic_truncate(&mac);
    assert!(p < 0x8000_0000);
    assert_eq!(p, 0x7fff_ffff);
}
