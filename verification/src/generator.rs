//! The code generator: time counter, dynamic truncation, and the
//! one-time-password transform itself.

use vstd::prelude::*;
use crate::digits::{
    pow10, dec_bytes, padded_chars, lemma_pow10_pos, lemma_dec_len_le, pow10_u64, decimal_bytes,
    padded_decimal_string,
};
use crate::mac::{hmac_sha512, hmac_sha512_bytes};

verus! {

/// Why a code could not be generated.
#[derive(Clone, Copy, Debug, PartialEq, Eq, Structural)]
pub enum GeneratorError {
    /// The step resolution was zero; the counter would divide by it.
    ZeroResolution,
    /// The time offset lay after the current time; the counter would
    /// underflow.
    OffsetExceedsNow,
    /// The digit count was zero, or too large for 64-bit arithmetic.
    DigitsOutOfRange,
}

/// The time counter: seconds since the offset, divided by the step
/// resolution (floor).
pub open spec fn counter_of(now: u64, offset: u64, resolution: u64) -> nat
    recommends
        resolution > 0,
        offset <= now,
{
    ((now - offset) as nat) / (resolution as nat)
}

/// The byte of `mac` whose low four bits pick where truncation reads.
pub open spec fn truncation_offset(mac: Seq<u8>) -> int {
    (mac[mac.len() - 1] & 0x0f) as int
}

/// Dynamic truncation: four bytes of `mac` read big-endian from the
/// data-dependent offset, with the top bit masked off.
pub open spec fn truncated(mac: Seq<u8>) -> u64
    recommends
        mac.len() == 64,
{
    let off = truncation_offset(mac);
    (((mac[off] & 0x7f) as u64) << 24) | ((mac[off + 1] as u64) << 16) | ((mac[off + 2]
        as u64) << 8) | (mac[off + 3] as u64)
}

/// The numeric code before padding: the truncated MAC of the counter's
/// decimal text, reduced modulo 10^digits.
pub open spec fn code_value(
    now: u64,
    offset: u64,
    resolution: u64,
    key: Seq<u8>,
    digits: u32,
) -> nat
    recommends
        resolution > 0,
        offset <= now,
{
    (truncated(hmac_sha512(key, dec_bytes(counter_of(now, offset, resolution)))) as nat) % pow10(
        digits as nat,
    )
}

/// The generated code: the numeric code rendered as decimal text,
/// left-padded with `'0'` to exactly `digits` characters.
pub open spec fn code_chars(
    now: u64,
    offset: u64,
    resolution: u64,
    key: Seq<u8>,
    digits: u32,
) -> Seq<char>
    recommends
        resolution > 0,
        offset <= now,
        1 <= digits <= 18,
{
    padded_chars(code_value(now, offset, resolution, key, digits), digits as nat)
}

/// Truncation always yields a 31-bit value when the MAC is 64 bytes long.
proof fn lemma_truncated_bound(mac: Seq<u8>)
    requires
        mac.len() == 64,
    ensures
        truncated(mac) < 0x80000000,
{
    let off = truncation_offset(mac);
    let b0 = mac[off];
    let b1 = mac[off + 1];
    let b2 = mac[off + 2];
    let b3 = mac[off + 3];
    assert((((b0 & 0x7f) as u64) << 24) | ((b1 as u64) << 16) | ((b2 as u64) << 8) | (b3
        as u64) < 0x80000000) by (bit_vector);
}

/// Dynamic truncation of a 64-byte MAC, as an executable function.
pub fn dynamic_truncate(mac: &Vec<u8>) -> (r: u64)
    requires
        mac@.len() == 64,
    ensures
        r == truncated(mac@),
        r < 0x80000000,
{
    let last = mac[63];
    let off_byte = last & 0x0f;
    proof {
        assert(last & 0x0f < 16) by (bit_vector);
    }
    let off = off_byte as usize;
    let b0 = mac[off];
    let b1 = mac[off + 1];
    let b2 = mac[off + 2];
    let b3 = mac[off + 3];
    let r = (((b0 & 0x7f) as u64) << 24) | ((b1 as u64) << 16) | ((b2 as u64) << 8) | (b3 as u64);
    proof {
        lemma_truncated_bound(mac@);
    }
    r
}

/// Generates the one-time code for `now` seconds since the epoch, under
/// the secret `key`.
///
/// The counter is `(now - offset) / resolution`; its decimal text is the
/// message of an HMAC-SHA-512 under `key`; the MAC is truncated
/// dynamically to 31 bits, reduced modulo 10^digits, and rendered as
/// exactly `digits` decimal characters, zero-padded on the left.
///
/// Each invalid input is rejected with its own error: a zero resolution,
/// an offset after `now`, or a digit count outside `1..=18`.
pub fn generate(now: u64, offset: u64, resolution: u64, key: &[u8], digits: u32) -> (r: Result<
    String,
    GeneratorError,
>)
    ensures
        resolution == 0 ==> r == Err::<String, GeneratorError>(GeneratorError::ZeroResolution),
        resolution > 0 && offset > now ==> r == Err::<String, GeneratorError>(
            GeneratorError::OffsetExceedsNow,
        ),
        resolution > 0 && offset <= now && !(1 <= digits && digits <= 18) ==> r == Err::<
            String,
            GeneratorError,
        >(GeneratorError::DigitsOutOfRange),
        resolution > 0 && offset <= now && 1 <= digits <= 18 ==> (r matches Ok(s) && s@
            == code_chars(now, offset, resolution, key@, digits) && s@.len() == digits),
{
    if resolution == 0 {
        return Err(GeneratorError::ZeroResolution);
    }
    if offset > now {
        return Err(GeneratorError::OffsetExceedsNow);
    }
    if digits < 1 || digits > 18 {
        return Err(GeneratorError::DigitsOutOfRange);
    }
    let counter = (now - offset) / resolution;
    let message = decimal_bytes(counter);
    let mac = hmac_sha512_bytes(key, message.as_slice());
    let p = dynamic_truncate(&mac);
    let modulus = pow10_u64(digits);
    proof {
        lemma_pow10_pos(digits as nat);
    }
    let code = p % modulus;
    proof {
        lemma_dec_len_le(code as nat, digits as nat);
    }
    let rendered = padded_decimal_string(code, digits);
    Ok(rendered)
}

/// Determinism: the generated code is a function of the five inputs
/// alone, so any two codes generated from the same inputs are equal.
pub proof fn lemma_generate_deterministic(
    now: u64,
    offset: u64,
    resolution: u64,
    key: Seq<u8>,
    digits: u32,
    s1: Seq<char>,
    s2: Seq<char>,
)
    requires
        s1 == code_chars(now, offset, resolution, key, digits),
        s2 == code_chars(now, offset, resolution, key, digits),
    ensures
        s1 == s2,
{
}

/// Window stability: every `now` within the half-open window
/// `[offset + k * resolution, offset + (k + 1) * resolution)` has the
/// counter `k`, so all of them generate the same code.
pub proof fn lemma_window_stability(
    now1: u64,
    now2: u64,
    offset: u64,
    resolution: u64,
    key: Seq<u8>,
    digits: u32,
    k: nat,
)
    requires
        resolution > 0,
        offset + k * resolution <= now1 < offset + (k + 1) * resolution,
        offset + k * resolution <= now2 < offset + (k + 1) * resolution,
    ensures
        counter_of(now1, offset, resolution) == k,
        counter_of(now2, offset, resolution) == k,
        code_chars(now1, offset, resolution, key, digits) == code_chars(
            now2,
            offset,
            resolution,
            key,
            digits,
        ),
{
    lemma_counter_in_window(now1, offset, resolution, k);
    lemma_counter_in_window(now2, offset, resolution, k);
}

/// The counter of any `now` within window `k` is exactly `k`.
proof fn lemma_counter_in_window(now: u64, offset: u64, resolution: u64, k: nat)
    requires
        resolution > 0,
        offset + k * resolution <= now < offset + (k + 1) * resolution,
    ensures
        counter_of(now, offset, resolution) == k,
{
    let a = (now - offset) as nat;
    assert(a / (resolution as nat) == k) by (nonlinear_arith)
        requires
            resolution > 0,
            k * resolution <= a < (k + 1) * resolution,
    ;
}

/// Crossing a window boundary changes the counter: the first second of
/// window `k + 1` has a counter one larger than every second of window
/// `k`.
pub proof fn lemma_window_boundary(boundary: u64, offset: u64, resolution: u64, k: nat)
    requires
        resolution > 0,
        boundary == offset + (k + 1) * resolution,
    ensures
        counter_of(boundary, offset, resolution) == k + 1,
{
    assert((k + 2) * resolution == (k + 1) * resolution + resolution) by (nonlinear_arith);
    lemma_counter_in_window(boundary, offset, resolution, k + 1);
}

/// Range: the numeric code before padding always lies in
/// `[0, 10^digits - 1]`.
pub proof fn lemma_code_value_range(
    now: u64,
    offset: u64,
    resolution: u64,
    key: Seq<u8>,
    digits: u32,
)
    ensures
        0 <= code_value(now, offset, resolution, key, digits) < pow10(digits as nat),
{
    lemma_pow10_pos(digits as nat);
    let t = truncated(hmac_sha512(key, dec_bytes(counter_of(now, offset, resolution)))) as nat;
    let m = pow10(digits as nat);
    assert(t % m < m) by (nonlinear_arith)
        requires
            m >= 1,
    ;
}

} // verus!

