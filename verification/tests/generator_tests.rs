use totp::generator::{generate, GeneratorError};

const KEY: &[u8] = b"12345678901234567890";

#[test]
fn concrete_vector() {
    // resolution 30, offset 0, now 59: counter is 1, the message is the
    // ASCII text "1", and the 8-digit code under KEY is fixed.
    let code = generate(59, 0, 30, KEY, 8).unwrap();
    assert_eq!(code, "52477064");
}

#[test]
fn determinism_two_calls() {
    let a = generate(59, 0, 30, KEY, 8).unwrap();
    let b = generate(59, 0, 30, KEY, 8).unwrap();
    assert_eq!(a, b);
}

#[test]
fn window_stability() {
    // Both 30 and 59 lie in the window of counter 1.
    let a = generate(30, 0, 30, KEY, 8).unwrap();
    let b = generate(59, 0, 30, KEY, 8).unwrap();
    assert_eq!(a, b);
    assert_eq!(a, "52477064");
    // 60 starts the window of counter 2 and yields a different code.
    let c = generate(60, 0, 30, KEY, 8).unwrap();
    assert_eq!(c, "59162498");
}

#[test]
fn offset_shifts_the_window() {
    // (120 - 61) / 30 is again counter 1, so the code matches now = 59
    // with no offset.
    let a = generate(120, 61, 30, KEY, 8).unwrap();
    assert_eq!(a, "52477064");
}

#[test]
fn fixed_width_keeps_leading_zeros() {
    // At now = 450 the code value is below 10^7, so the 8-digit
    // rendering starts with '0'.
    let code = generate(450, 0, 30, KEY, 8).unwrap();
    assert_eq!(code, "02289859");
    assert_eq!(code.len(), 8);
}

#[test]
fn fixed_width_for_every_window() {
    for now in (0..3000).step_by(30) {
        let code = generate(now, 0, 30, KEY, 8).unwrap();
        assert_eq!(code.len(), 8);
    }
}

#[test]
fn value_in_range() {
    for now in (0..3000).step_by(30) {
        let code = generate(now, 0, 30, KEY, 8).unwrap();
        let value: u64 = code.parse().unwrap();
        assert!(value < 100_000_000);
    }
}

#[test]
fn key_sensitivity() {
    // The same inputs under a key differing in its last byte.
    let other: &[u8] = b"12345678901234567891";
    let a = generate(59, 0, 30, KEY, 8).unwrap();
    let b = generate(59, 0, 30, other, 8).unwrap();
    assert_eq!(b, "71039831");
    assert_ne!(a, b);
}

#[test]
fn empty_key_is_accepted() {
    let code = generate(59, 0, 30, b"", 8).unwrap();
    assert_eq!(code, "11529891");
}

#[test]
fn one_digit_code() {
    let code = generate(59, 0, 30, KEY, 1).unwrap();
    assert_eq!(code, "4");
}

#[test]
fn eighteen_digit_code() {
    // The 31-bit truncated value needs at most 10 digits; the rest is
    // zero padding.
    let code = generate(59, 0, 30, KEY, 18).unwrap();
    assert_eq!(code, "000000001652477064");
}

#[test]
fn zero_resolution_is_an_error() {
    assert_eq!(generate(59, 0, 0, KEY, 8), Err(GeneratorError::ZeroResolution));
}

#[test]
fn offset_after_now_is_an_error() {
    assert_eq!(generate(59, 60, 30, KEY, 8), Err(GeneratorError::OffsetExceedsNow));
}

#[test]
fn zero_digits_is_an_error() {
    assert_eq!(generate(59, 0, 30, KEY, 0), Err(GeneratorError::DigitsOutOfRange));
}

#[test]
fn nineteen_digits_is_an_error() {
    assert_eq!(generate(59, 0, 30, KEY, 19), Err(GeneratorError::DigitsOutOfRange));
}
