//! Decimal arithmetic and rendering: powers of ten, the decimal text of a
//! number, and zero-padded fixed-width rendering.

use vstd::prelude::*;
use vstd::string::StringExecFns;

verus! {

/// 10 to the power `d`.
pub open spec fn pow10(d: nat) -> nat
    decreases d,
{
    if d == 0 {
        1
    } else {
        10 * pow10((d - 1) as nat)
    }
}

pub proof fn lemma_pow10_pos(d: nat)
    ensures
        pow10(d) >= 1,
    decreases d,
{
    if d > 0 {
        lemma_pow10_pos((d - 1) as nat);
    }
}

pub proof fn lemma_pow10_monotone(a: nat, b: nat)
    requires
        a <= b,
    ensures
        pow10(a) <= pow10(b),
    decreases b,
{
    if a < b {
        lemma_pow10_monotone(a, (b - 1) as nat);
        lemma_pow10_pos((b - 1) as nat);
    }
}

/// The powers of ten up to 10^19, which still fits in a `u64`.
pub proof fn lemma_pow10_values()
    ensures
        pow10(17) == 0x16345785d8a0000,
        pow10(18) == 0xde0b6b3a7640000,
        pow10(19) == 0x8ac7230489e80000,
        pow10(20) == 0x56bc75e2d63100000,
{
    assert(pow10(0) == 1);
    assert(pow10(1) == 10);
    assert(pow10(2) == 100);
    assert(pow10(3) == 1000);
    assert(pow10(4) == 10000);
    assert(pow10(5) == 100000);
    assert(pow10(6) == 1000000);
    assert(pow10(7) == 10000000);
    assert(pow10(8) == 100000000);
    assert(pow10(9) == 1000000000);
    assert(pow10(10) == 10000000000);
    assert(pow10(11) == 100000000000);
    assert(pow10(12) == 1000000000000);
    assert(pow10(13) == 10000000000000);
    assert(pow10(14) == 100000000000000);
    assert(pow10(15) == 1000000000000000);
    assert(pow10(16) == 10000000000000000);
    assert(pow10(17) == 100000000000000000);
    assert(pow10(18) == 1000000000000000000);
    assert(pow10(19) == 10000000000000000000);
    assert(pow10(20) == 100000000000000000000);
}

/// The ASCII byte of the decimal digit `d`.
pub open spec fn digit_byte(d: nat) -> u8
    recommends
        d < 10,
{
    (48 + d) as u8
}

/// The character of the decimal digit `d`.
pub open spec fn digit_char(d: nat) -> char
    recommends
        d < 10,
{
    if d == 0 {
        '0'
    } else if d == 1 {
        '1'
    } else if d == 2 {
        '2'
    } else if d == 3 {
        '3'
    } else if d == 4 {
        '4'
    } else if d == 5 {
        '5'
    } else if d == 6 {
        '6'
    } else if d == 7 {
        '7'
    } else if d == 8 {
        '8'
    } else {
        '9'
    }
}

/// The decimal text of `n` as ASCII bytes: no sign, no leading zero.
pub open spec fn dec_bytes(n: nat) -> Seq<u8>
    decreases n,
{
    if n < 10 {
        seq![digit_byte(n)]
    } else {
        dec_bytes(n / 10) + seq![digit_byte(n % 10)]
    }
}

/// The decimal text of `n` as characters: no sign, no leading zero.
pub open spec fn dec_chars(n: nat) -> Seq<char>
    decreases n,
{
    if n < 10 {
        seq![digit_char(n)]
    } else {
        dec_chars(n / 10) + seq![digit_char(n % 10)]
    }
}

/// The decimal text of `n`, left-padded with `'0'` to exactly `width`
/// characters.
pub open spec fn padded_chars(n: nat, width: nat) -> Seq<char>
    recommends
        dec_chars(n).len() <= width,
{
    Seq::new((width - dec_chars(n).len()) as nat, |i: int| '0') + dec_chars(n)
}

/// A number below 10^d has at most `d` decimal digits.
pub proof fn lemma_dec_len_le(n: nat, d: nat)
    requires
        1 <= d,
        n < pow10(d),
    ensures
        dec_chars(n).len() <= d,
    decreases d,
{
    if n >= 10 {
        assert(n / 10 < pow10((d - 1) as nat)) by (nonlinear_arith)
            requires
                n < pow10(d),
                pow10(d) == 10 * pow10((d - 1) as nat),
        ;
        lemma_dec_len_le(n / 10, (d - 1) as nat);
    }
}

/// Every `u64` has at most 20 decimal digits.
pub proof fn lemma_dec_len_u64(n: u64)
    ensures
        1 <= dec_chars(n as nat).len() <= 20,
{
    lemma_pow10_values();
    lemma_dec_len_le(n as nat, 20);
}

/// 10^d computed in a `u64`; `d <= 19` keeps the result in range.
pub fn pow10_u64(d: u32) -> (r: u64)
    requires
        d <= 19,
    ensures
        r == pow10(d as nat),
{
    let mut r: u64 = 1;
    let mut i: u32 = 0;
    while i < d
        invariant
            i <= d,
            d <= 19,
            r == pow10(i as nat),
        decreases d - i,
    {
        proof {
            lemma_pow10_monotone(i as nat, 18);
            lemma_pow10_values();
        }
        r = r * 10;
        i = i + 1;
    }
    r
}

/// The one-character string of the decimal digit `d`.
fn digit_str(d: u64) -> (r: &'static str)
    requires
        d < 10,
    ensures
        r@ == seq![digit_char(d as nat)],
{
    proof {
        reveal_strlit("0");
        reveal_strlit("1");
        reveal_strlit("2");
        reveal_strlit("3");
        reveal_strlit("4");
        reveal_strlit("5");
        reveal_strlit("6");
        reveal_strlit("7");
        reveal_strlit("8");
        reveal_strlit("9");
    }
    let r: &'static str = if d == 0 {
        "0"
    } else if d == 1 {
        "1"
    } else if d == 2 {
        "2"
    } else if d == 3 {
        "3"
    } else if d == 4 {
        "4"
    } else if d == 5 {
        "5"
    } else if d == 6 {
        "6"
    } else if d == 7 {
        "7"
    } else if d == 8 {
        "8"
    } else {
        "9"
    };
    proof {
        assert(r@ =~= seq![digit_char(d as nat)]);
    }
    r
}

/// The number of decimal digits of `n`.
pub fn decimal_len(n: u64) -> (r: u32)
    ensures
        r == dec_chars(n as nat).len(),
{
    proof {
        lemma_dec_len_u64(n);
    }
    let mut m: u64 = n;
    let mut len: u32 = 1;
    while m >= 10
        invariant
            dec_chars(n as nat).len() <= 20,
            dec_chars(n as nat).len() == dec_chars(m as nat).len() + len - 1,
            len >= 1,
            dec_chars(m as nat).len() >= 1,
            dec_chars(m as nat).len() <= 20,
        decreases m,
    {
        proof {
            assert(m / 10 < m) by (nonlinear_arith)
                requires
                    m >= 10,
            ;
        }
        m = m / 10;
        len = len + 1;
    }
    len
}

/// Appends the decimal text of `n` to `out`.
fn push_decimal_bytes(n: u64, out: &mut Vec<u8>)
    ensures
        final(out)@ == old(out)@ + dec_bytes(n as nat),
    decreases n,
{
    if n >= 10 {
        proof {
            assert(n / 10 < n) by (nonlinear_arith)
                requires
                    n >= 10,
            ;
        }
        push_decimal_bytes(n / 10, out);
    }
    out.push((n % 10) as u8 + 48);
    proof {
        assert(out@ =~= old(out)@ + dec_bytes(n as nat));
    }
}

/// The decimal text of `n` as ASCII bytes.
pub fn decimal_bytes(n: u64) -> (r: Vec<u8>)
    ensures
        r@ == dec_bytes(n as nat),
{
    let mut out: Vec<u8> = Vec::new();
    push_decimal_bytes(n, &mut out);
    proof {
        assert(out@ =~= dec_bytes(n as nat));
    }
    out
}

/// Appends the decimal text of `n` to `out`.
fn push_decimal_chars(n: u64, out: &mut String)
    ensures
        final(out)@ == old(out)@ + dec_chars(n as nat),
    decreases n,
{
    if n >= 10 {
        proof {
            assert(n / 10 < n) by (nonlinear_arith)
                requires
                    n >= 10,
            ;
        }
        push_decimal_chars(n / 10, out);
    }
    out.append(digit_str(n % 10));
    proof {
        assert(out@ =~= old(out)@ + dec_chars(n as nat));
    }
}

/// The decimal text of `n`, left-padded with `'0'` to exactly `width`
/// characters.
pub fn padded_decimal_string(n: u64, width: u32) -> (r: String)
    requires
        dec_chars(n as nat).len() <= width,
    ensures
        r@ == padded_chars(n as nat, width as nat),
        r@.len() == width,
{
    let len = decimal_len(n);
    let mut s = String::new();
    let mut zeros: u32 = width - len;
    proof {
        reveal_strlit("0");
    }
    while zeros > 0
        invariant
            zeros <= width - len,
            len == dec_chars(n as nat).len(),
            s@ =~= Seq::new((width - len - zeros) as nat, |i: int| '0'),
        decreases zeros,
    {
        proof {
            reveal_strlit("0");
        }
        s.append("0");
        zeros = zeros - 1;
        proof {
            assert(s@ =~= Seq::new((width - len - zeros) as nat, |i: int| '0'));
        }
    }
    push_decimal_chars(n, &mut s);
    proof {
        assert(s@ =~= padded_chars(n as nat, width as nat));
    }
    s
}

} // verus!
