//! Packed binary-coded decimal: each 4-bit nibble holds one decimal digit,
//! most significant digit first.
use vstd::prelude::*;

verus! {

pub open spec fn pow10(n: nat) -> nat
    decreases n,
{
    if n == 0 {
        1
    } else {
        10 * pow10((n - 1) as nat)
    }
}

pub open spec fn pow16(n: nat) -> nat
    decreases n,
{
    if n == 0 {
        1
    } else {
        16 * pow16((n - 1) as nat)
    }
}

/// Every one of the low `n` nibbles of `v` is a decimal digit.
pub open spec fn bcd_digits_ok(v: nat, n: nat) -> bool
    decreases n,
{
    if n == 0 {
        true
    } else {
        v % 16 < 10 && bcd_digits_ok(v / 16, (n - 1) as nat)
    }
}

/// The decimal number that the low `n` nibbles of `v` spell.
pub open spec fn bcd_value(v: nat, n: nat) -> nat
    decreases n,
{
    if n == 0 {
        0
    } else {
        bcd_value(v / 16, (n - 1) as nat) * 10 + v % 16
    }
}

/// The `n`-nibble packed-BCD encoding of `x` (digits of `x` beyond `n` are dropped).
pub open spec fn bcd_encode(x: nat, n: nat) -> nat
    decreases n,
{
    if n == 0 {
        0
    } else {
        bcd_encode(x / 10, (n - 1) as nat) * 16 + x % 10
    }
}

pub proof fn lemma_bcd_value_bound(v: nat, n: nat)
    ensures
        bcd_digits_ok(v, n) ==> bcd_value(v, n) < pow10(n),
    decreases n,
{
    if n > 0 {
        lemma_bcd_value_bound(v / 16, (n - 1) as nat);
    }
}

pub proof fn lemma_bcd_encode_bound(x: nat, n: nat)
    ensures
        bcd_encode(x, n) < pow16(n),
    decreases n,
{
    if n > 0 {
        lemma_bcd_encode_bound(x / 10, (n - 1) as nat);
    }
}

pub proof fn lemma_pow16_le(n: nat)
    requires
        n <= 16,
    ensures
        pow16(n) <= 0x1_0000_0000_0000_0000,
    decreases n,
{
    if n > 0 {
        lemma_pow16_le((n - 1) as nat);
        lemma_pow16_mono((n - 1) as nat, 15);
    }
    reveal_with_fuel(pow16, 17);
}

pub proof fn lemma_pow16_mono(a: nat, b: nat)
    requires
        a <= b,
    ensures
        pow16(a) <= pow16(b),
    decreases b,
{
    if a < b {
        lemma_pow16_mono(a, (b - 1) as nat);
    }
}

pub proof fn lemma_pow10_le(n: nat)
    requires
        n <= 16,
    ensures
        pow10(n) <= 10_000_000_000_000_000,
    decreases n,
{
    reveal_with_fuel(pow10, 17);
}

/// Decoding the `n`-digit encoding of a number below `10^n` gives it back.
pub proof fn lemma_bcd_decode_encode(x: nat, n: nat)
    requires
        x < pow10(n),
    ensures
        bcd_digits_ok(bcd_encode(x, n), n),
        bcd_value(bcd_encode(x, n), n) == x,
    decreases n,
{
    if n > 0 {
        let e = bcd_encode(x / 10, (n - 1) as nat);
        lemma_bcd_decode_encode(x / 10, (n - 1) as nat);
        let v = bcd_encode(x, n);
        assert(v == e * 16 + x % 10);
        assert(v % 16 == x % 10 && v / 16 == e);
    }
}

/// Encoding the value of `n` valid BCD digits gives back those digits.
pub proof fn lemma_bcd_encode_decode(v: nat, n: nat)
    requires
        bcd_digits_ok(v, n),
        v < pow16(n),
    ensures
        bcd_encode(bcd_value(v, n), n) == v,
    decreases n,
{
    if n > 0 {
        let w = bcd_value(v / 16, (n - 1) as nat);
        lemma_bcd_encode_decode(v / 16, (n - 1) as nat);
        let x = bcd_value(v, n);
        assert(x == w * 10 + v % 16);
        assert(x / 10 == w && x % 10 == v % 16);
    }
}

/// Decodes one packed-BCD byte (two digits); `None` if a nibble is not a digit.
pub fn from_bcd_byte(b: u8) -> (r: Option<u8>)
    ensures
        r is Some <==> bcd_digits_ok(b as nat, 2),
        r is Some ==> r->0 == bcd_value(b as nat, 2),
{
    let hi = b / 16;
    let lo = b % 16;
    reveal_with_fuel(bcd_value, 3);
    reveal_with_fuel(bcd_digits_ok, 3);
    assert(b as nat / 16 % 16 == hi);
    assert(b as nat / 16 / 16 == 0);
    if hi < 10 && lo < 10 {
        Some(hi * 10 + lo)
    } else {
        None
    }
}

/// Encodes a value below 100 as one packed-BCD byte.
pub fn to_bcd_byte(v: u8) -> (r: Option<u8>)
    ensures
        r is Some <==> v < 100,
        r is Some ==> r->0 == bcd_encode(v as nat, 2),
{
    reveal_with_fuel(bcd_encode, 3);
    if v < 100 {
        assert(v as nat / 10 / 10 == 0);
        Some((v / 10) * 16 + v % 10)
    } else {
        None
    }
}

/// Decodes the low `nibbles` nibbles of `v` as decimal digits.
pub fn bcd_to_decimal(v: u64, nibbles: u8) -> (r: Option<u64>)
    requires
        nibbles <= 16,
    ensures
        r is Some <==> bcd_digits_ok(v as nat, nibbles as nat),
        r is Some ==> r->0 == bcd_value(v as nat, nibbles as nat),
    decreases nibbles,
{
    if nibbles == 0 {
        Some(0)
    } else {
        let d = v % 16;
        if d >= 10 {
            None
        } else {
            match bcd_to_decimal(v / 16, nibbles - 1) {
                None => None,
                Some(rest) => {
                    proof {
                        lemma_bcd_value_bound(v as nat / 16, (nibbles - 1) as nat);
                        lemma_pow10_le((nibbles - 1) as nat);
                    }
                    Some(rest * 10 + d)
                },
            }
        }
    }
}

/// Encodes `value` as `nibbles` packed-BCD digits; `None` if it needs more digits.
pub fn decimal_to_bcd(value: u64, nibbles: u8) -> (r: Option<u64>)
    requires
        nibbles <= 16,
    ensures
        r is Some <==> value < pow10(nibbles as nat),
        r is Some ==> r->0 == bcd_encode(value as nat, nibbles as nat),
    decreases nibbles,
{
    if nibbles == 0 {
        if value == 0 {
            Some(0)
        } else {
            None
        }
    } else {
        let r = decimal_to_bcd(value / 10, nibbles - 1);
        assert(value / 10 < pow10((nibbles - 1) as nat) <==> value < pow10(nibbles as nat));
        match r {
            None => None,
            Some(rest) => {
                proof {
                    lemma_bcd_encode_bound(value as nat / 10, (nibbles - 1) as nat);
                    lemma_pow16_le(nibbles as nat);
                    assert(pow16(nibbles as nat) == 16 * pow16((nibbles - 1) as nat));
                }
                Some(rest * 16 + value % 10)
            },
        }
    }
}

/// The nibble `n` places above the least significant one is the decimal digit of
/// weight 10^n: the lower `n + 1` nibbles spell the number that the lower `n` spell
/// plus that digit times 10^n.
pub proof fn lemma_bcd_digit_weight(v: nat, n: nat)
    ensures
        bcd_value(v, n + 1) == bcd_value(v, n) + ((v / pow16(n)) % 16) * pow10(n),
    decreases n,
{
    if n > 0 {
        let m = (n - 1) as nat;
        lemma_bcd_digit_weight(v / 16, m);
        lemma_pow16_pos(m);
        vstd::arithmetic::div_mod::lemma_div_denominator(v as int, 16, pow16(m) as int);
        assert(pow16(n) == 16 * pow16(m));
        assert(pow10(n) == 10 * pow10(m));
        assert(v / pow16(n) == (v / 16) / pow16(m));
        let d = ((v / 16) / pow16(m)) % 16;
        let a = bcd_value(v / 16, m);
        assert(bcd_value(v / 16, n) == a + d * pow10(m));
        assert(bcd_value(v, n + 1) == bcd_value(v / 16, n) * 10 + v % 16);
        assert(bcd_value(v, n) == a * 10 + v % 16);
        assert((a + d * pow10(m)) * 10 == a * 10 + d * (10 * pow10(m))) by (nonlinear_arith);
    } else {
        assert(pow16(0) == 1 && pow10(0) == 1);
        assert(v / 1 == v);
        assert(bcd_value(v, 1) == bcd_value(v / 16, 0) * 10 + v % 16);
    }
}

proof fn lemma_pow16_pos(n: nat)
    ensures
        pow16(n) > 0,
    decreases n,
{
    if n > 0 {
        lemma_pow16_pos((n - 1) as nat);
    }
}

/// The first decimal and hexadecimal place values, in literal values.
pub proof fn lemma_place_values()
    ensures
        pow10(0) == 1,
        pow10(1) == 10,
        pow10(2) == 100,
        pow10(3) == 1000,
        pow10(4) == 10000,
        pow16(0) == 1,
        pow16(1) == 16,
        pow16(2) == 256,
        pow16(3) == 4096,
        pow16(4) == 65536,
        bcd_value(0x1234, 4) == 1234,
{
    reveal_with_fuel(pow10, 5);
    reveal_with_fuel(pow16, 5);
    reveal_with_fuel(bcd_value, 5);
}

} // verus!
