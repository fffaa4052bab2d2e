//! The hash by which cached images are named, and numbers in fixed forms.

use crate::text::{chars_of, copy_text, decimal_usize};
use crate::text;
use vstd::prelude::*;
use vstd::utf8;

verus! {

/// The hash of nothing.
pub const HASH_START: u64 = 0xcbf2_9ce4_8422_2325;

/// What a hash is multiplied with for each byte.
pub const HASH_PRIME: u64 = 0x0000_0100_0000_01b3;

/// A hash with a byte added.
pub open spec fn hash_byte(hash: u64, byte: u8) -> u64 {
    (((hash ^ (byte as u64)) as nat * HASH_PRIME as nat) % 0x1_0000_0000_0000_0000) as u64
}

/// A hash with bytes added.
pub open spec fn hash_of(hash: u64, bytes: Seq<u8>) -> u64
    decreases bytes.len(),
{
    if bytes.len() == 0 {
        hash
    } else {
        hash_byte(hash_of(hash, bytes.drop_last()), bytes.last())
    }
}

/// A hash with a field added: its bytes, and one that no text holds to end it.
pub open spec fn hash_field(hash: u64, bytes: Seq<u8>) -> u64 {
    hash_byte(hash_of(hash, bytes), 0xff)
}

/// The bytes of a number, the lowest first.
pub open spec fn low_bytes(value: nat, count: nat) -> Seq<u8>
    decreases count,
{
    if count == 0 {
        Seq::empty()
    } else {
        seq![(value % 256) as u8] + low_bytes(value / 256, (count - 1) as nat)
    }
}

fn add_byte(hash: u64, byte: u8) -> (result: u64)
    ensures
        result == hash_byte(hash, byte),
{
    (hash ^ (byte as u64)).wrapping_mul(HASH_PRIME)
}

/// Adds a field to a hash.
pub fn hash_bytes(hash: u64, bytes: &[u8]) -> (result: u64)
    ensures
        result == hash_field(hash, bytes@),
{
    let mut sum: u64 = hash;
    let mut i: usize = 0;
    assert(bytes@.take(0) =~= Seq::<u8>::empty());
    while i < bytes.len()
        invariant
            i <= bytes@.len(),
            sum == hash_of(hash, bytes@.take(i as int)),
        decreases bytes@.len() - i,
    {
        assert(bytes@.take(i + 1).drop_last() =~= bytes@.take(i as int));
        assert(bytes@.take(i + 1).last() == bytes@[i as int]);
        sum = add_byte(sum, bytes[i]);
        i = i + 1;
    }
    assert(bytes@.take(i as int) =~= bytes@);
    add_byte(sum, 0xff)
}

/// Adds a text to a hash.
pub fn hash_text(hash: u64, text: &str) -> (result: u64)
    ensures
        result == hash_field(hash, utf8::encode_utf8(text@)),
{
    hash_bytes(hash, text.as_bytes())
}

/// Adds the bytes of a number to a hash.
pub fn hash_number(hash: u64, value: u128, count: u8) -> (result: u64)
    ensures
        result == hash_field(hash, low_bytes(value as nat, count as nat)),
{
    let ghost all = low_bytes(value as nat, count as nat);
    let mut bytes: Vec<u8> = Vec::new();
    let mut rest: u128 = value;
    let mut left: u8 = count;
    assert(bytes@ + all =~= all);
    while left > 0
        invariant
            bytes@ + low_bytes(rest as nat, left as nat) == all,
        decreases left,
    {
        let ghost before = bytes@;
        let ghost tail = low_bytes((rest / 256) as nat, (left - 1) as nat);
        bytes.push((rest % 256) as u8);
        assert(bytes@ + tail =~= before + (seq![(rest % 256) as u8] + tail));
        rest = rest / 256;
        left = left - 1;
    }
    assert(bytes@ + low_bytes(rest as nat, 0) =~= bytes@);
    hash_bytes(hash, bytes.as_slice())
}

/// So many zeros.
pub open spec fn zeros(count: nat) -> Seq<char> {
    Seq::new(count, |i: int| '0')
}

/// A number in decimal, with zeros in front to a width.
pub open spec fn padded(n: nat, width: nat) -> Seq<char> {
    let digits = text::decimal_text(n);
    if digits.len() >= width {
        digits
    } else {
        zeros((width - digits.len()) as nat) + digits
    }
}

/// A number in decimal, with zeros in front to a width.
pub fn padded_usize(n: usize, width: usize) -> (text: String)
    ensures
        text@ == padded(n as nat, width as nat),
{
    let digits = decimal_usize(n);
    let len: usize = chars_of(digits.as_str()).len();
    if len >= width {
        return digits;
    }
    let mut text = copy_text("");
    let mut i: usize = 0;
    proof {
        reveal_strlit("");
        reveal_strlit("0");
        assert(text@ =~= zeros(0));
    }
    while i < width - len
        invariant
            i <= width - len,
            len < width,
            text@ == zeros(i as nat),
        decreases width - len - i,
    {
        let ghost before = text@;
        text.append("0");
        proof {
            reveal_strlit("0");
            assert(text@ =~= zeros((i + 1) as nat));
        }
        i = i + 1;
    }
    text.append(digits.as_str());
    text
}

/// The value of a hexadecimal digit.
pub open spec fn hex_digit(c: char) -> Option<nat> {
    if '0' <= c && c <= '9' {
        Some((c as u32 - '0' as u32) as nat)
    } else if 'a' <= c && c <= 'f' {
        Some((c as u32 - 'a' as u32 + 10) as nat)
    } else if 'A' <= c && c <= 'F' {
        Some((c as u32 - 'A' as u32 + 10) as nat)
    } else {
        None
    }
}

/// The number that hexadecimal digits give, if it is one of 64 bits.
pub open spec fn hex_digits(s: Seq<char>) -> Option<nat>
    decreases s.len(),
{
    if s.len() == 0 {
        Some(0)
    } else {
        match (hex_digits(s.drop_last()), hex_digit(s.last())) {
            (Some(high), Some(digit)) => if high * 16 + digit <= u64::MAX {
                Some(high * 16 + digit)
            } else {
                None
            },
            _ => None,
        }
    }
}

/// The number that a hexadecimal text gives: a sign may stand in front.
pub open spec fn hex_number(s: Seq<char>) -> Option<nat> {
    let digits = if s.len() > 0 && s[0] == '+' {
        s.skip(1)
    } else {
        s
    };
    if digits.len() == 0 {
        None
    } else {
        hex_digits(digits)
    }
}

fn read_hex_digit(c: char) -> (digit: Option<u8>)
    ensures
        match (digit, hex_digit(c)) {
            (Some(digit), Some(value)) => digit == value && digit < 16,
            (None, None) => true,
            _ => false,
        },
{
    if '0' <= c && c <= '9' {
        Some((c as u8) - ('0' as u8))
    } else if 'a' <= c && c <= 'f' {
        Some((c as u8) - ('a' as u8) + 10)
    } else if 'A' <= c && c <= 'F' {
        Some((c as u8) - ('A' as u8) + 10)
    } else {
        None
    }
}

proof fn lemma_hex_error_stays(s: Seq<char>, n: int)
    requires
        0 <= n <= s.len(),
        hex_digits(s.take(n)) is None,
    ensures
        hex_digits(s) is None,
    decreases s.len() - n,
{
    if n == s.len() {
        assert(s.take(n) =~= s);
    } else {
        assert(s.take(n + 1).drop_last() =~= s.take(n));
        lemma_hex_error_stays(s, n + 1);
    }
}

/// The number that a hexadecimal text gives.
pub fn parse_hex(text: &str) -> (number: Option<u64>)
    ensures
        match (number, hex_number(text@)) {
            (Some(number), Some(value)) => number == value,
            (None, None) => true,
            _ => false,
        },
{
    let chars = chars_of(text);
    let from: usize = if chars.len() > 0 && chars[0] == '+' {
        1
    } else {
        0
    };
    if chars.len() == from {
        return None;
    }
    let ghost digits = text@.skip(from as int);
    assert(from == 0 ==> digits =~= text@);
    let mut number: u64 = 0;
    let mut i: usize = from;
    assert(digits.take(0) =~= Seq::<char>::empty());
    while i < chars.len()
        invariant
            from <= i <= chars@.len(),
            chars@ == text@,
            digits == (if text@.len() > 0 && text@[0] == '+' {
                text@.skip(1)
            } else {
                text@
            }),
            digits == text@.skip(from as int),
            digits.len() > 0,
            hex_digits(digits.take(i - from)) == Some(number as nat),
        decreases chars@.len() - i,
    {
        proof {
            assert(digits.take(i - from + 1).drop_last() =~= digits.take(i - from));
            assert(digits.take(i - from + 1).last() == text@[i as int]);
        }
        match read_hex_digit(chars[i]) {
            None => {
                proof {
                    lemma_hex_error_stays(digits, i - from + 1);
                }
                return None;
            },
            Some(digit) => {
                let wide: u128 = (number as u128) * 16 + (digit as u128);
                if wide > u64::MAX as u128 {
                    proof {
                        lemma_hex_error_stays(digits, i - from + 1);
                    }
                    return None;
                }
                number = wide as u64;
            },
        }
        i = i + 1;
    }
    assert(digits.take(i - from) =~= digits);
    Some(number)
}

/// The hexadecimal form of a number has digits only, and they give the number.
pub proof fn lemma_hex_digits(n: nat, width: nat)
    requires
        n <= u64::MAX,
    ensures
        text::hex_text(n, width).len() == width,
        forall|i: int| 0 <= i < width ==> hex_digit(#[trigger] text::hex_text(n, width)[i]) is Some,
        hex_digits(text::hex_text(n, width)) == Some(n % power16(width)),
    decreases width,
{
    let text = text::hex_text(n, width);
    if width == 0 {
        assert(n % 1 == 0);
    } else {
        let less = (width - 1) as nat;
        let head = text::hex_text(n / 16, less);
        lemma_hex_digits(n / 16, less);
        assert(text.drop_last() =~= head);
        assert(text.last() == text::hex_char(n % 16));
        assert(hex_digit(text::hex_char(n % 16)) == Some(n % 16));
        let p = power16(less);
        lemma_power16(less);
        let high = (n / 16) % p;
        assert(high * 16 + n % 16 == n % (16 * p)) by (nonlinear_arith)
            requires
                p > 0,
                high == (n / 16) % p,
        ;
        assert(n % (16 * p) <= n) by (nonlinear_arith)
            requires
                p > 0,
        ;
    }
}

/// A power of sixteen.
pub open spec fn power16(n: nat) -> nat
    decreases n,
{
    if n == 0 {
        1
    } else {
        16 * power16((n - 1) as nat)
    }
}

proof fn lemma_power16(n: nat)
    ensures
        power16(n) > 0,
    decreases n,
{
    if n > 0 {
        lemma_power16((n - 1) as nat);
    }
}

/// A number that is written in hexadecimal is read back.
pub proof fn law_hex_round_trip(n: u64)
    ensures
        hex_number(text::hex_text(n as nat, 16)) == Some(n as nat),
{
    lemma_hex_digits(n as nat, 16);
    assert(power16(16) == 0x1_0000_0000_0000_0000) by {
        reveal_with_fuel(power16, 17);
    }
    let text = text::hex_text(n as nat, 16);
    assert(hex_digit(text[0]) is Some);
}

} // verus!
