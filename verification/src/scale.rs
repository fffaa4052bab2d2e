//! The overview scale of a canvas: a binary32 number above zero and at most one,
//! held by its bit pattern, and its decimal spellings.
//!
//! Reading a spelling gives the nearest binary32 number, the one with an even bit
//! pattern where two are equally near. Writing gives at most six decimals.

use crate::json::digits_end;
use crate::text::{chars_of, decimal_u64, push_char};
use vstd::arithmetic::power2;
use crate::json;
use crate::text;
use crate::json_law;
use vstd::prelude::*;

verus! {

/// The bit pattern of the number one.
pub const ONE_BITS: u32 = 0x3f80_0000;

/// A scale above zero and at most one, by the bit pattern of its binary32 form.
#[derive(Clone, Copy, Debug, PartialEq, Eq, Structural)]
pub struct OverviewScale {
    bits: u32,
}

impl OverviewScale {
    /// The value with a bit pattern.
    pub closed spec fn of_bits(bits: u32) -> Self {
        OverviewScale { bits }
    }

    /// The bit pattern.
    pub closed spec fn bit_pattern(self) -> u32 {
        self.bits
    }

    /// Whether this is a number above zero and at most one.
    pub open spec fn valid(self) -> bool {
        1 <= self.bit_pattern() <= ONE_BITS
    }

    #[verifier::type_invariant]
    spec fn is_scale(self) -> bool {
        self.valid()
    }

    /// The value with a bit pattern has that bit pattern.
    pub proof fn lemma_of_bits(bits: u32)
        ensures
            Self::of_bits(bits).bit_pattern() == bits,
    {
    }

    /// The scale with a bit pattern, if it is above zero and at most one.
    pub fn from_bits(bits: u32) -> (scale: Option<Self>)
        ensures
            scale == if 1 <= bits <= ONE_BITS {
                Some(Self::of_bits(bits))
            } else {
                None
            },
            scale is Some ==> scale->0.valid(),
    {
        if 1 <= bits && bits <= ONE_BITS {
            Some(OverviewScale { bits })
        } else {
            None
        }
    }

    /// The bit pattern.
    pub fn to_bits(self) -> (bits: u32)
        ensures
            bits == self.bit_pattern(),
            1 <= bits <= ONE_BITS,
            self.valid(),
    {
        proof {
            use_type_invariant(&self);
        }
        self.bits
    }
}

/// What a text stands for as a scale.
#[derive(Clone, Copy, Debug, PartialEq, Eq, Structural)]
pub enum ScaleReading {
    /// The text is empty.
    Empty,
    /// The text spells no number.
    Invalid,
    /// The text spells a number that is no scale.
    OutOfRange,
    /// The text spells a scale.
    Scale(OverviewScale),
}

// ---------------------------------------------------------------------------
// Binary32 numbers from zero to a little above one

/// The number with a bit pattern, in units of the smallest positive one, which is
/// two to the power of -149.
pub open spec fn units(bits: nat) -> nat {
    if bits < 0x80_0000 {
        bits
    } else {
        (0x80_0000 + bits % 0x80_0000) * power2::pow2((bits / 0x80_0000 - 1) as nat)
    }
}

/// Whether the number with a bit pattern is the nearest one to `num / den`, and the
/// even one if the next one above or below is as near.
pub open spec fn is_nearest(bits: nat, num: nat, den: nat) -> bool {
    let doubled = 2 * num * power2::pow2(149);
    let above = (units(bits) + units(bits + 1)) * den;
    let below = (units((bits - 1) as nat) + units(bits)) * den;
    &&& doubled < above || (doubled == above && bits % 2 == 0)
    &&& bits == 0 || below < doubled || (below == doubled && bits % 2 == 0)
}

/// The scale that `num / den` is read as, if it is one.
pub open spec fn nearest_scale(num: nat, den: nat) -> ScaleReading {
    if exists|bits: u32| 1 <= bits <= ONE_BITS && #[trigger] is_nearest(bits as nat, num, den) {
        ScaleReading::Scale(
            OverviewScale::of_bits(
                choose|bits: u32|
                    1 <= bits <= ONE_BITS && #[trigger] is_nearest(bits as nat, num, den),
            ),
        )
    } else {
        ScaleReading::OutOfRange
    }
}

proof fn lemma_units_at(q: nat, m: nat)
    requires
        m <= 0x100_0000,
        q == 0 || m >= 0x80_0000,
    ensures
        units(q * 0x80_0000 + m) == m * power2::pow2(q),
{
    power2::lemma2_to64();
    let bits = q * 0x80_0000 + m;
    if bits < 0x80_0000 {
        assert(q == 0);
        assert(m * power2::pow2(0) == m);
    } else if m < 0x80_0000 {
    } else if m < 0x100_0000 {
        assert(bits / 0x80_0000 == q + 1 && bits % 0x80_0000 == m - 0x80_0000);
    } else {
        assert(bits / 0x80_0000 == q + 2 && bits % 0x80_0000 == 0);
        power2::lemma_pow2_unfold(q + 1);
        assert(0x80_0000 * (2 * power2::pow2(q)) == 0x100_0000 * power2::pow2(q));
    }
}

proof fn lemma_units_step(bits: nat)
    ensures
        units(bits) < units(bits + 1),
{
    if bits < 0x80_0000 {
        lemma_units_at(0, bits);
        lemma_units_at(0, bits + 1);
        power2::lemma2_to64();
    } else {
        let q = (bits / 0x80_0000 - 1) as nat;
        let m = (0x80_0000 + bits % 0x80_0000) as nat;
        assert(bits == q * 0x80_0000 + m);
        lemma_units_at(q, m);
        lemma_units_at(q, m + 1);
        power2::lemma_pow2_pos(q);
        assert(m * power2::pow2(q) < (m + 1) * power2::pow2(q)) by (nonlinear_arith)
            requires
                power2::pow2(q) > 0,
        ;
    }
}

proof fn lemma_units_ascend(a: nat, b: nat)
    requires
        a <= b,
    ensures
        units(a) <= units(b),
        a < b ==> units(a) < units(b),
    decreases b - a,
{
    if a < b {
        lemma_units_step(a);
        lemma_units_ascend(a + 1, b);
    }
}

/// Only one number is the nearest.
proof fn lemma_nearest_unique(a: nat, b: nat, num: nat, den: nat)
    requires
        is_nearest(a, num, den),
        is_nearest(b, num, den),
        den > 0,
    ensures
        a == b,
{
    lemma_nearest_ordered(a, b, num, den);
    lemma_nearest_ordered(b, a, num, den);
}

proof fn lemma_nearest_ordered(a: nat, b: nat, num: nat, den: nat)
    requires
        is_nearest(a, num, den),
        is_nearest(b, num, den),
        den > 0,
    ensures
        a >= b,
{
    if a < b {
        lemma_units_ascend(a, (b - 1) as nat);
        lemma_units_ascend(a + 1, b);
        let x = units(a) + units(a + 1);
        let y = units((b - 1) as nat) + units(b);
        assert(x * den <= y * den) by (nonlinear_arith)
            requires
                x <= y,
                den > 0,
        ;
        if b != a + 1 {
            assert(x < y);
            assert(x * den < y * den) by (nonlinear_arith)
                requires
                    x < y,
                    den > 0,
            ;
        }
    }
}

/// What the first `k` binary digits of a number say: it is nearest to one of two
/// neighbours, by what is left over.
proof fn lemma_rounded(num: nat, den: nat, k: nat, m: nat, rem: nat, up: bool)
    requires
        den > 0,
        k <= 149,
        m < 0x100_0000,
        k == 149 || m >= 0x80_0000,
        num * power2::pow2(k) == m * den + rem,
        rem < den,
        up ==> 2 * rem > den || (2 * rem == den && m % 2 == 1),
        !up ==> 2 * rem < den || (2 * rem == den && m % 2 == 0),
    ensures
        is_nearest(
            ((149 - k) * 0x80_0000 + if up {
                m + 1
            } else {
                m
            }) as nat,
            num,
            den,
        ),
{
    let q = (149 - k) as nat;
    let p = power2::pow2(q);
    power2::lemma_pow2_pos(q);
    power2::lemma_pow2_adds(k, q);
    let doubled = 2 * num * power2::pow2(149);
    assert(doubled == 2 * (m * den + rem) * p) by (nonlinear_arith)
        requires
            num * power2::pow2(k) == m * den + rem,
            power2::pow2(149) == power2::pow2(k) * p,
            doubled == 2 * num * power2::pow2(149),
    ;
    let low = (q * 0x80_0000 + m) as nat;
    lemma_units_at(q, m);
    lemma_units_at(q, m + 1);
    assert(units(low) == m * p);
    assert(units(low + 1) == (m + 1) * p);
    let middle = (units(low) + units(low + 1)) * den;
    assert(middle == (2 * m + 1) * den * p) by (nonlinear_arith)
        requires
            middle == (m * p + (m + 1) * p) * den,
    ;
    assert(low % 2 == m % 2);
    if up {
        let b = low + 1;
        lemma_units_step(b);
        assert(middle <= doubled && (2 * rem > den ==> middle < doubled)) by (nonlinear_arith)
            requires
                middle == (2 * m + 1) * den * p,
                doubled == 2 * (m * den + rem) * p,
                2 * rem >= den,
                p > 0,
        ;
        assert(doubled < (units(b) + units(b + 1)) * den) by (nonlinear_arith)
            requires
                doubled == 2 * (m * den + rem) * p,
                rem < den,
                units(b) == (m + 1) * p,
                units(b) < units(b + 1),
                p > 0,
                den > 0,
        ;
        if 2 * rem == den {
            assert(middle == doubled) by (nonlinear_arith)
                requires
                    middle == (2 * m + 1) * den * p,
                    doubled == 2 * (m * den + rem) * p,
                    2 * rem == den,
            ;
        }
    } else {
        assert(doubled <= middle && (2 * rem < den ==> doubled < middle)) by (nonlinear_arith)
            requires
                middle == (2 * m + 1) * den * p,
                doubled == 2 * (m * den + rem) * p,
                2 * rem <= den,
                p > 0,
        ;
        if low > 0 {
            lemma_units_step((low - 1) as nat);
            assert((units((low - 1) as nat) + units(low)) * den < doubled) by (nonlinear_arith)
                requires
                    doubled == 2 * (m * den + rem) * p,
                    units(low) == m * p,
                    units((low - 1) as nat) < units(low),
                    den > 0,
                    p > 0,
            ;
        }
    }
}

proof fn lemma_scale_found(bits: nat, num: nat, den: nat)
    requires
        den > 0,
        is_nearest(bits, num, den),
    ensures
        nearest_scale(num, den) == if 1 <= bits <= ONE_BITS {
            ScaleReading::Scale(OverviewScale::of_bits(bits as u32))
        } else {
            ScaleReading::OutOfRange
        },
{
    if 1 <= bits <= ONE_BITS {
        assert(is_nearest((bits as u32) as nat, num, den));
        let chosen = choose|b: u32|
            1 <= b <= ONE_BITS && #[trigger] is_nearest(b as nat, num, den);
        lemma_nearest_unique(chosen as nat, bits, num, den);
    } else {
        assert forall|b: u32| 1 <= b <= ONE_BITS implies !#[trigger] is_nearest(
            b as nat,
            num,
            den,
        ) by {
            if is_nearest(b as nat, num, den) {
                lemma_nearest_unique(b as nat, bits, num, den);
            }
        }
    }
}

/// A number of two or more is no scale.
proof fn lemma_two_is_out(num: nat, den: nat)
    requires
        den > 0,
        num >= 2 * den,
    ensures
        nearest_scale(num, den) == ScaleReading::OutOfRange,
{
    assert forall|b: u32| 1 <= b <= ONE_BITS implies !#[trigger] is_nearest(b as nat, num, den) by {
        lemma_units_ascend(b as nat, ONE_BITS as nat);
        lemma_units_ascend((b + 1) as nat, (ONE_BITS + 1) as nat);
        lemma_units_at(126, 0x80_0000);
        lemma_units_at(126, 0x80_0001);
        power2::lemma_pow2_adds(126, 23);
        power2::lemma2_to64();
        power2::lemma_pow2_pos(126);
        let u = units(b as nat) + units((b + 1) as nat);
        let p = power2::pow2(126);
        assert(power2::pow2(149) == p * 0x80_0000);
        assert(u <= 0x80_0000 * p + 0x80_0001 * p);
        assert(u * den < 2 * num * (p * 0x80_0000)) by (nonlinear_arith)
            requires
                u <= 0x80_0000 * p + 0x80_0001 * p,
                num >= 2 * den,
                den > 0,
                p > 0,
        ;
    }
}

// ---------------------------------------------------------------------------
// Decimal spellings

/// Ten to the power of `n`.
pub open spec fn pow10(n: nat) -> nat
    decreases n,
{
    if n == 0 {
        1
    } else {
        10 * pow10((n - 1) as nat)
    }
}

/// The number that a run of decimal digits stands for.
pub open spec fn digits_nat(s: Seq<char>) -> nat
    decreases s.len(),
{
    if s.len() == 0 {
        0
    } else {
        digits_nat(s.drop_last()) * 10 + text::digit_value(s.last())
    }
}

/// The digits of a decimal spelling without its point, and the power of ten that
/// they are taken times: digits, with a point among or beside them, then possibly an
/// `e` with an exponent.
pub open spec fn decimal_parts(s: Seq<char>) -> Option<(Seq<char>, int)> {
    let i = json::skip_digits(s, 0);
    let pointed = i < s.len() && s[i] == '.';
    let j = if pointed {
        json::skip_digits(s, i + 1)
    } else {
        i
    };
    let fraction = if pointed {
        s.subrange(i + 1, j)
    } else {
        Seq::empty()
    };
    let digits = s.take(i) + fraction;
    if digits.len() == 0 {
        None
    } else if j == s.len() {
        Some((digits, -(fraction.len() as int)))
    } else if s[j] == 'e' || s[j] == 'E' {
        match exponent_value(s.skip(j + 1)) {
            Some(exponent) => Some((digits, exponent - fraction.len())),
            None => None,
        }
    } else {
        None
    }
}

/// The value of an exponent: digits after an optional sign.
pub open spec fn exponent_value(s: Seq<char>) -> Option<int> {
    let signed = s.len() > 0 && (s[0] == '-' || s[0] == '+');
    let digits = if signed {
        s.drop_first()
    } else {
        s
    };
    if digits.len() == 0 || json::skip_digits(digits, 0) != digits.len() {
        None
    } else if signed && s[0] == '-' {
        Some(-(digits_nat(digits) as int))
    } else {
        Some(digits_nat(digits) as int)
    }
}

/// The scale that digits times a power of ten are read as, if it is one.
pub open spec fn decimal_scale(digits: Seq<char>, exponent: int) -> ScaleReading {
    if exponent >= 0 {
        nearest_scale(digits_nat(digits) * pow10(exponent as nat), 1)
    } else {
        nearest_scale(digits_nat(digits), pow10((-exponent) as nat))
    }
}

/// A letter of `a` to `z` for either of its two cases; any other character itself.
pub open spec fn lower_letter(c: char) -> char {
    if 'A' <= c && c <= 'Z' {
        (c as u32 + 32) as char
    } else {
        c
    }
}

/// Whether `s` is `word`, written in letters of either case.
pub open spec fn is_word_in_any_case(s: Seq<char>, word: Seq<char>) -> bool {
    s.len() == word.len() && forall|i: int| 0 <= i < s.len() ==> lower_letter(#[trigger] s[i]) == word[i]
}

/// Whether `s` names an infinity or no number at all.
pub open spec fn is_special_number(s: Seq<char>) -> bool {
    ||| is_word_in_any_case(s, "inf"@)
    ||| is_word_in_any_case(s, "infinity"@)
    ||| is_word_in_any_case(s, "nan"@)
}

/// What a text stands for as a scale: a decimal spelling with an optional sign, or
/// the name of an infinity or of no number.
pub open spec fn scale_reading(s: Seq<char>) -> ScaleReading {
    let signed = s.len() > 0 && (s[0] == '-' || s[0] == '+');
    let rest = if signed {
        s.drop_first()
    } else {
        s
    };
    if s.len() == 0 {
        ScaleReading::Empty
    } else if is_special_number(rest) {
        ScaleReading::OutOfRange
    } else {
        match decimal_parts(rest) {
            None => ScaleReading::Invalid,
            Some((digits, exponent)) => if s[0] == '-' {
                ScaleReading::OutOfRange
            } else {
                decimal_scale(digits, exponent)
            },
        }
    }
}

/// What is read as a scale is above zero and at most one.
pub proof fn lemma_scale_reading_valid(s: Seq<char>)
    ensures
        scale_reading(s) matches ScaleReading::Scale(scale) ==> scale.valid(),
{
}

// ---------------------------------------------------------------------------
// Decimal digits as numbers

/// The number that a run of digit values stands for.
pub open spec fn value_of(ds: Seq<u8>) -> nat
    decreases ds.len(),
{
    if ds.len() == 0 {
        0
    } else {
        value_of(ds.drop_last()) * 10 + ds.last() as nat
    }
}

/// Whether every value is that of a decimal digit.
pub open spec fn are_digits(ds: Seq<u8>) -> bool {
    forall|i: int| 0 <= i < ds.len() ==> #[trigger] ds[i] < 10
}

pub proof fn lemma_pow10_add(a: nat, b: nat)
    ensures
        pow10(a + b) == pow10(a) * pow10(b),
    decreases a,
{
    if a > 0 {
        lemma_pow10_add((a - 1) as nat, b);
        assert(10 * (pow10((a - 1) as nat) * pow10(b)) == 10 * pow10((a - 1) as nat) * pow10(b))
            by (nonlinear_arith);
    } else {
        assert(1 * pow10(b) == pow10(b));
    }
}

pub proof fn lemma_pow10_pos(n: nat)
    ensures
        pow10(n) > 0,
    decreases n,
{
    if n > 0 {
        lemma_pow10_pos((n - 1) as nat);
    }
}

pub proof fn lemma_value_bound(ds: Seq<u8>)
    requires
        are_digits(ds),
    ensures
        value_of(ds) < pow10(ds.len()),
    decreases ds.len(),
{
    if ds.len() > 0 {
        let front = ds.drop_last();
        assert forall|i: int| 0 <= i < front.len() implies #[trigger] front[i] < 10 by {
            assert(front[i] == ds[i]);
        }
        lemma_value_bound(front);
    }
}

pub proof fn lemma_value_concat(a: Seq<u8>, b: Seq<u8>)
    ensures
        value_of(a + b) == value_of(a) * pow10(b.len()) + value_of(b),
    decreases b.len(),
{
    if b.len() == 0 {
        assert(a + b =~= a);
        assert(value_of(a) * 1 == value_of(a));
    } else {
        lemma_value_concat(a, b.drop_last());
        assert((a + b).drop_last() =~= a + b.drop_last());
        let x = value_of(a);
        let p = pow10((b.len() - 1) as nat);
        assert((x * p) * 10 == x * (10 * p)) by (nonlinear_arith);
    }
}

pub proof fn lemma_value_zero(ds: Seq<u8>)
    ensures
        value_of(ds) == 0 <==> forall|i: int| 0 <= i < ds.len() ==> #[trigger] ds[i] == 0,
    decreases ds.len(),
{
    if ds.len() > 0 {
        let front = ds.drop_last();
        lemma_value_zero(front);
        if value_of(ds) == 0 {
            assert forall|i: int| 0 <= i < ds.len() implies #[trigger] ds[i] == 0 by {
                if i < ds.len() - 1 {
                    assert(front[i] == ds[i]);
                }
            }
        } else if forall|i: int| 0 <= i < ds.len() ==> #[trigger] ds[i] == 0 {
            assert forall|i: int| 0 <= i < front.len() implies #[trigger] front[i] == 0 by {
                assert(front[i] == ds[i]);
            }
            assert(ds.last() == 0);
        }
    }
}

/// Doubles a decimal fraction in place and returns the digit before the point.
fn double_fraction(ds: &mut Vec<u8>) -> (carry: u8)
    requires
        are_digits(old(ds)@),
    ensures
        are_digits(final(ds)@),
        final(ds)@.len() == old(ds)@.len(),
        carry <= 1,
        2 * value_of(old(ds)@) == carry * pow10(old(ds)@.len()) + value_of(final(ds)@),
{
    let ghost before = ds@;
    let n: usize = ds.len();
    let mut carry: u8 = 0;
    let mut i: usize = n;
    assert(before.skip(n as int) =~= Seq::<u8>::empty());
    assert(ds@.skip(n as int) =~= Seq::<u8>::empty());
    while i > 0
        invariant
            i <= n,
            ds@.len() == n,
            before.len() == n,
            are_digits(before),
            are_digits(ds@),
            carry <= 1,
            forall|k: int| 0 <= k < i ==> ds@[k] == before[k],
            2 * value_of(before.skip(i as int)) == carry * pow10((n - i) as nat) + value_of(
                ds@.skip(i as int),
            ),
        decreases i,
    {
        i = i - 1;
        let ghost d = before[i as int];
        let ghost c = carry;
        let ghost old_rest = before.skip(i + 1);
        let ghost new_rest = ds@.skip(i + 1);
        assert(ds@[i as int] == before[i as int]);
        let doubled: u8 = ds[i] * 2 + carry;
        let digit: u8 = if doubled >= 10 {
            doubled - 10
        } else {
            doubled
        };
        ds.set(i, digit);
        carry = if doubled >= 10 {
            1
        } else {
            0
        };
        proof {
            let p = pow10((n - i - 1) as nat);
            assert(before.skip(i as int) =~= seq![d] + old_rest);
            assert(ds@.skip(i as int) =~= seq![digit] + new_rest);
            lemma_value_concat(seq![d], old_rest);
            lemma_value_concat(seq![digit], new_rest);
            lemma_value_one(d);
            lemma_value_one(digit);
            assert(2 * (d * p + value_of(old_rest)) == carry * (10 * p) + (digit * p + value_of(
                new_rest,
            ))) by (nonlinear_arith)
                requires
                    2 * value_of(old_rest) == c * p + value_of(new_rest),
                    2 * d + c == 10 * carry + digit,
            ;
        }
    }
    assert(before.skip(0) =~= before);
    assert(ds@.skip(0) =~= ds@);
    carry
}

pub proof fn lemma_value_one(d: u8)
    ensures
        value_of(seq![d]) == d,
{
    assert(seq![d].drop_last() =~= Seq::<u8>::empty());
    assert(value_of(Seq::<u8>::empty()) == 0);
}

fn is_zero(ds: &Vec<u8>) -> (zero: bool)
    ensures
        zero == (value_of(ds@) == 0),
{
    proof {
        lemma_value_zero(ds@);
    }
    let mut i: usize = 0;
    while i < ds.len()
        invariant
            i <= ds@.len(),
            forall|k: int| 0 <= k < i ==> #[trigger] ds@[k] == 0,
            value_of(ds@) == 0 <==> forall|k: int| 0 <= k < ds@.len() ==> #[trigger] ds@[k] == 0,
        decreases ds@.len() - i,
    {
        if ds[i] != 0 {
            return false;
        }
        i = i + 1;
    }
    true
}

/// The bit pattern nearest to `first` and the fraction whose digits are given.
fn round_fraction(first: u32, fraction: Vec<u8>) -> (bits: u32)
    requires
        first <= 1,
        are_digits(fraction@),
    ensures
        is_nearest(
            bits as nat,
            first as nat * pow10(fraction@.len()) + value_of(fraction@),
            pow10(fraction@.len()),
        ),
{
    let ghost den = pow10(fraction@.len());
    let ghost num = first as nat * den + value_of(fraction@);
    proof {
        lemma_pow10_pos(fraction@.len());
        power2::lemma2_to64();
        assert(num * 1 == num);
    }
    let mut ds = fraction;
    let mut m: u32 = first;
    let mut k: u32 = 0;
    while m < 0x80_0000 && k < 149
        invariant
            m < 0x100_0000,
            k <= 149,
            are_digits(ds@),
            den == pow10(ds@.len()),
            num * power2::pow2(k as nat) == m * den + value_of(ds@),
        decreases 149 - k,
    {
        let ghost old_m = m;
        let ghost old_value = value_of(ds@);
        let carry: u8 = double_fraction(&mut ds);
        m = m * 2 + carry as u32;
        proof {
            power2::lemma_pow2_unfold((k + 1) as nat);
            let p = power2::pow2(k as nat);
            assert(num * (2 * p) == m * den + value_of(ds@)) by (nonlinear_arith)
                requires
                    num * p == old_m * den + old_value,
                    2 * old_value == carry * den + value_of(ds@),
                    m == old_m * 2 + carry,
            ;
        }
        k = k + 1;
    }
    let ghost rem = value_of(ds@);
    proof {
        lemma_value_bound(ds@);
    }
    let carry: u8 = double_fraction(&mut ds);
    proof {
        lemma_value_bound(ds@);
    }
    let rest_is_zero = is_zero(&ds);
    let up = carry == 1 && (!rest_is_zero || m % 2 == 1);
    proof {
        assert(2 * rem == carry * den + value_of(ds@));
        if carry == 1 {
            assert(carry * den == den);
        } else {
            assert(carry * den == 0);
        }
        lemma_rounded(num, den, k as nat, m as nat, rem, up);
    }
    let rounded: u32 = if up {
        m + 1
    } else {
        m
    };
    (149 - k) * 0x80_0000 + rounded
}

// ---------------------------------------------------------------------------
// The reader

proof fn lemma_zero_is_out(den: nat)
    requires
        den > 0,
    ensures
        nearest_scale(0, den) == ScaleReading::OutOfRange,
{
    assert(units(0) + units(1) == 1);
    assert(1 * den == den);
    assert(2 * 0 * power2::pow2(149) == 0) by (nonlinear_arith);
    lemma_scale_found(0, 0, den);
}

/// Digits with at least one zero behind them are no scale.
proof fn lemma_large_is_out(digits: Seq<char>, exponent: int)
    requires
        exponent > 0,
    ensures
        decimal_scale(digits, exponent) == ScaleReading::OutOfRange,
{
    let n = digits_nat(digits);
    let p = pow10(exponent as nat);
    lemma_pow10_pos((exponent - 1) as nat);
    assert(p >= 10);
    if n == 0 {
        assert(n * p == 0) by (nonlinear_arith)
            requires
                n == 0,
        ;
        lemma_zero_is_out(1);
    } else {
        assert(n * p >= 2) by (nonlinear_arith)
            requires
                n >= 1,
                p >= 10,
        ;
        lemma_two_is_out(n * p, 1);
    }
}

pub proof fn lemma_pow10_above_pow2(n: nat)
    ensures
        pow10(n) >= power2::pow2(3 * n),
    decreases n,
{
    power2::lemma2_to64();
    if n > 0 {
        lemma_pow10_above_pow2((n - 1) as nat);
        power2::lemma_pow2_adds(3, (3 * n - 3) as nat);
    }
}

/// A fraction with 64 zeros behind the point is no scale.
proof fn lemma_tiny_is_out(num: nat, len: nat, zeros: nat)
    requires
        num < pow10(len),
        zeros >= 64,
    ensures
        nearest_scale(num, pow10(len + zeros)) == ScaleReading::OutOfRange,
{
    let den = pow10(len + zeros);
    lemma_pow10_pos(len + zeros);
    lemma_pow10_add(len, zeros);
    lemma_pow10_add(64, (zeros - 64) as nat);
    lemma_pow10_pos((zeros - 64) as nat);
    lemma_pow10_pos(64);
    lemma_pow10_above_pow2(64);
    power2::lemma_pow2_adds(1, 149);
    power2::lemma_pow2_adds(150, 42);
    power2::lemma_pow2_pos(42);
    power2::lemma_pow2_pos(150);
    power2::lemma2_to64();
    let t = power2::pow2(149);
    let z = pow10(zeros);
    assert(power2::pow2(192) >= 2 * t) by (nonlinear_arith)
        requires
            power2::pow2(192) == power2::pow2(150) * power2::pow2(42),
            power2::pow2(150) == 2 * t,
            power2::pow2(42) >= 1,
    ;
    assert(z >= 2 * t) by (nonlinear_arith)
        requires
            z == pow10(64) * pow10((zeros - 64) as nat),
            pow10(64) >= 2 * t,
            pow10((zeros - 64) as nat) >= 1,
    ;
    assert(2 * num * t < den) by (nonlinear_arith)
        requires
            den == pow10(len) * z,
            z >= 2 * t,
            t > 0,
            num < pow10(len),
    ;
    assert(units(0) + units(1) == 1);
    assert(1 * den == den);
    lemma_scale_found(0, num, den);
}

/// Whether digit values are those of digit characters.
pub open spec fn same_digits(ds: Seq<u8>, cs: Seq<char>) -> bool {
    ds.len() == cs.len() && forall|i: int|
        0 <= i < ds.len() ==> text::is_digit(#[trigger] cs[i]) && ds[i] == text::digit_value(cs[i])
}

pub proof fn lemma_same_digits(ds: Seq<u8>, cs: Seq<char>)
    requires
        same_digits(ds, cs),
    ensures
        value_of(ds) == digits_nat(cs),
        are_digits(ds),
    decreases ds.len(),
{
    assert forall|i: int| 0 <= i < ds.len() implies #[trigger] ds[i] < 10 by {
        assert(text::is_digit(cs[i]));
    }
    if ds.len() > 0 {
        let n = ds.len() - 1;
        assert(text::is_digit(cs[n]) && ds[n] == text::digit_value(cs[n]));
        assert forall|i: int| 0 <= i < ds.drop_last().len() implies text::is_digit(
            #[trigger] cs.drop_last()[i],
        ) && ds.drop_last()[i] == text::digit_value(cs.drop_last()[i]) by {
            assert(cs.drop_last()[i] == cs[i]);
        }
        lemma_same_digits(ds.drop_last(), cs.drop_last());
    }
}

pub(crate) fn suffix_of(chars: &Vec<char>, from: usize) -> (rest: Vec<char>)
    requires
        from <= chars@.len(),
    ensures
        rest@ == chars@.skip(from as int),
{
    let mut rest: Vec<char> = Vec::new();
    let mut i: usize = from;
    while i < chars.len()
        invariant
            from <= i <= chars@.len(),
            rest@ == chars@.subrange(from as int, i as int),
        decreases chars@.len() - i,
    {
        rest.push(chars[i]);
        i = i + 1;
        assert(rest@ =~= chars@.subrange(from as int, i as int));
    }
    assert(rest@ =~= chars@.skip(from as int));
    rest
}

/// Appends the values of the digits from index `from` up to index `to`.
fn push_digits(ds: &mut Vec<u8>, chars: &Vec<char>, from: usize, to: usize)
    requires
        from <= to <= chars@.len(),
        forall|i: int| from <= i < to ==> text::is_digit(#[trigger] chars@[i]),
    ensures
        forall|cs: Seq<char>| #[trigger]
            same_digits(old(ds)@, cs) ==> same_digits(
                final(ds)@,
                cs + chars@.subrange(from as int, to as int),
            ),
{
    let ghost before = ds@;
    let mut i: usize = from;
    while i < to
        invariant
            from <= i <= to <= chars@.len(),
            forall|k: int| from <= k < to ==> text::is_digit(#[trigger] chars@[k]),
            ds@.len() == before.len() + (i - from),
            forall|k: int| 0 <= k < before.len() ==> ds@[k] == before[k],
            forall|k: int|
                from <= k < i ==> ds@[before.len() + k - from] == text::digit_value(#[trigger] chars@[k]),
        decreases to - i,
    {
        let c = chars[i];
        assert(text::is_digit(chars@[i as int]));
        ds.push((c as u32 - 48) as u8);
        i = i + 1;
    }
    assert forall|cs: Seq<char>| #[trigger] same_digits(before, cs) implies same_digits(
        ds@,
        cs + chars@.subrange(from as int, to as int),
    ) by {
        let all = cs + chars@.subrange(from as int, to as int);
        assert forall|k: int| 0 <= k < ds@.len() implies text::is_digit(#[trigger] all[k]) && ds@[k]
            == text::digit_value(all[k]) by {
            if k < before.len() {
                assert(all[k] == cs[k]);
            } else {
                let j = from + (k - before.len());
                assert(all[k] == chars@[j]);
                assert(text::is_digit(chars@[j]));
            }
        }
    }
}

proof fn lemma_skipped_are_digits(s: Seq<char>, i: int)
    requires
        0 <= i <= s.len(),
    ensures
        forall|k: int| i <= k < json::skip_digits(s, i) ==> text::is_digit(#[trigger] s[k]),
    decreases s.len() - i,
{
    if i < s.len() && text::is_digit(s[i]) {
        lemma_skipped_are_digits(s, i + 1);
    }
}

/// Past this bound the value of an exponent no longer matters.
pub const EXPONENT_CAP: i128 = 1_000_000_000_000_000_000_000_000_000_000;

/// A position so far off that no text has that many characters.
pub const FAR_POINT: i128 = 0x40_0000_0000_0000_0000;

spec fn capped(value: int) -> int {
    if value >= EXPONENT_CAP {
        EXPONENT_CAP as int
    } else if value <= -EXPONENT_CAP {
        -EXPONENT_CAP as int
    } else {
        value
    }
}

/// The value of an exponent, brought within the cap.
fn read_capped_exponent(chars: &Vec<char>) -> (result: Option<i128>)
    ensures
        match (result, exponent_value(chars@)) {
            (Some(value), Some(expected)) => value == capped(expected),
            (None, None) => true,
            _ => false,
        },
{
    let signed = chars.len() > 0 && (chars[0] == '-' || chars[0] == '+');
    let from: usize = if signed {
        1
    } else {
        0
    };
    let digits = suffix_of(chars, from);
    assert(signed ==> digits@ =~= chars@.drop_first());
    assert(!signed ==> digits@ =~= chars@);
    if digits.len() == 0 || digits_end(&digits, 0) != digits.len() {
        return None;
    }
    proof {
        lemma_skipped_are_digits(digits@, 0);
    }
    let mut value: i128 = 0;
    let mut i: usize = 0;
    assert(digits@.take(0) =~= Seq::<char>::empty());
    while i < digits.len()
        invariant
            i <= digits@.len(),
            forall|k: int| 0 <= k < digits@.len() ==> text::is_digit(#[trigger] digits@[k]),
            0 <= value <= EXPONENT_CAP,
            value == capped(digits_nat(digits@.take(i as int)) as int),
        decreases digits@.len() - i,
    {
        let c = digits[i];
        assert(text::is_digit(digits@[i as int]));
        assert(digits@.take(i + 1).drop_last() =~= digits@.take(i as int));
        let wide: i128 = value * 10 + (c as u32 - 48) as i128;
        value = if wide >= EXPONENT_CAP {
            EXPONENT_CAP
        } else {
            wide
        };
        i = i + 1;
    }
    assert(digits@.take(i as int) =~= digits@);
    if signed && chars[0] == '-' {
        Some(-value)
    } else {
        Some(value)
    }
}

pub(crate) fn is_word_any_case(chars: &Vec<char>, word: &str) -> (found: bool)
    ensures
        found == is_word_in_any_case(chars@, word@),
{
    let letters = chars_of(word);
    if chars.len() != letters.len() {
        return false;
    }
    let mut i: usize = 0;
    while i < chars.len()
        invariant
            letters@ == word@,
            chars@.len() == letters@.len(),
            i <= chars@.len(),
            forall|k: int| 0 <= k < i ==> lower_letter(#[trigger] chars@[k]) == word@[k],
        decreases chars@.len() - i,
    {
        let c = chars[i];
        let lower: char = if 'A' <= c && c <= 'Z' {
            (c as u8 + 32) as char
        } else {
            c
        };
        if lower != letters[i] {
            assert(lower_letter(chars@[i as int]) != word@[i as int]);
            return false;
        }
        i = i + 1;
    }
    true
}

/// The scale of digits whose point stands behind the first `point` of them.
fn scale_of_digits(ds: Vec<u8>, point: i128, Ghost(cs): Ghost<Seq<char>>, Ghost(exponent): Ghost<
    int,
>) -> (result: ScaleReading)
    requires
        is_decimal(ds@, point as int, (cs, exponent)),
    ensures
        result == decimal_scale(cs, exponent),
{
    proof {
        lemma_same_digits(ds@, cs);
    }
    let n: usize = ds.len();
    let ghost num = value_of(ds@);
    if point > n as i128 {
        proof {
            lemma_large_is_out(cs, exponent);
        }
        return ScaleReading::OutOfRange;
    }
    proof {
        lemma_value_bound(ds@);
        assert(num * 1 == num);
        assert(decimal_scale(cs, exponent) == nearest_scale(num, pow10((-exponent) as nat)));
    }
    if point <= -64 {
        proof {
            lemma_tiny_is_out(num, n as nat, (-exponent - n) as nat);
        }
        return ScaleReading::OutOfRange;
    }
    let mut first: u32 = 0;
    let mut fraction: Vec<u8> = Vec::new();
    let ghost whole: Seq<u8> = if point > 0 {
        ds@.take(point as int)
    } else {
        Seq::empty()
    };
    if point > 0 {
        let p: usize = point as usize;
        let mut i: usize = 0;
        assert(ds@.take(0) =~= Seq::<u8>::empty());
        while i < p
            invariant
                i <= p <= ds@.len(),
                p == point,
                n == ds@.len(),
                are_digits(ds@),
                num == value_of(ds@),
                first <= 1,
                first == value_of(ds@.take(i as int)),
                exponent == p - n,
                decimal_scale(cs, exponent) == nearest_scale(num, pow10((-exponent) as nat)),
            decreases p - i,
        {
            assert(ds@.take(i + 1).drop_last() =~= ds@.take(i as int));
            assert(ds@[i as int] < 10);
            first = first * 10 + ds[i] as u32;
            i = i + 1;
            if first > 1 {
                proof {
                    let rest = ds@.skip(i as int);
                    let tail = (n - p) as nat;
                    assert(ds@ =~= ds@.take(i as int) + rest);
                    lemma_value_concat(ds@.take(i as int), rest);
                    lemma_pow10_add((p - i) as nat, tail);
                    lemma_pow10_pos((p - i) as nat);
                    lemma_pow10_pos(tail);
                    let a = pow10((p - i) as nat);
                    let b = pow10(tail);
                    assert(rest.len() == (p - i) + tail);
                    assert(num >= 2 * b) by (nonlinear_arith)
                        requires
                            num >= first * (a * b),
                            first >= 2,
                            a >= 1,
                            b >= 1,
                    ;
                    lemma_two_is_out(num, b);
                }
                return ScaleReading::OutOfRange;
            }
        }
        while i < n
            invariant
                p <= i <= n,
                n == ds@.len(),
                fraction@ == ds@.subrange(p as int, i as int),
            decreases n - i,
        {
            fraction.push(ds[i]);
            i = i + 1;
            assert(fraction@ =~= ds@.subrange(p as int, i as int));
        }
        assert(fraction@ =~= ds@.skip(p as int));
        assert(ds@ =~= ds@.take(p as int) + fraction@);
        proof {
            lemma_value_concat(ds@.take(p as int), fraction@);
        }
    } else {
        let zeros: usize = (-point) as usize;
        let mut i: usize = 0;
        while i < zeros
            invariant
                i <= zeros,
                fraction@.len() == i,
                forall|k: int| 0 <= k < i ==> #[trigger] fraction@[k] == 0,
            decreases zeros - i,
        {
            fraction.push(0);
            i = i + 1;
        }
        let ghost head = fraction@;
        proof {
            lemma_value_zero(head);
        }
        let mut j: usize = 0;
        while j < n
            invariant
                j <= n,
                n == ds@.len(),
                fraction@ == head + ds@.take(j as int),
            decreases n - j,
        {
            fraction.push(ds[j]);
            j = j + 1;
            assert(fraction@ =~= head + ds@.take(j as int));
        }
        assert(ds@.take(n as int) =~= ds@);
        proof {
            lemma_value_concat(head, ds@);
            assert(0 * pow10(n as nat) == 0);
        }
    }
    proof {
        assert forall|k: int| 0 <= k < fraction@.len() implies #[trigger] fraction@[k] < 10 by {
            if point > 0 {
                assert(fraction@[k] == ds@[point + k]);
            } else if k >= -point {
                assert(fraction@[k] == ds@[k + point]);
            }
        }
        assert(fraction@.len() == -exponent);
        lemma_pow10_pos(fraction@.len());
    }
    let bits: u32 = round_fraction(first, fraction);
    proof {
        lemma_scale_found(bits as nat, num, pow10((-exponent) as nat));
    }
    if 1 <= bits && bits <= ONE_BITS {
        ScaleReading::Scale(OverviewScale { bits })
    } else {
        ScaleReading::OutOfRange
    }
}

/// Whether a point position is the true one, or both are far off to the same side.
pub open spec fn is_point(point: int, actual: int) -> bool {
    ||| point == actual
    ||| point > FAR_POINT && actual > FAR_POINT
    ||| point < -FAR_POINT && actual < -FAR_POINT
}

/// Reads a scale.
#[verifier::spinoff_prover]
#[verifier::rlimit(40)]
pub fn read_scale(text: &str) -> (result: ScaleReading)
    ensures
        result == scale_reading(text@),
{
    let chars = chars_of(text);
    if chars.len() == 0 {
        return ScaleReading::Empty;
    }
    let signed = chars[0] == '-' || chars[0] == '+';
    let from: usize = if signed {
        1
    } else {
        0
    };
    let rest = suffix_of(&chars, from);
    assert(signed ==> rest@ =~= text@.drop_first());
    assert(!signed ==> rest@ =~= text@);
    if is_word_any_case(&rest, "inf") || is_word_any_case(&rest, "infinity") || is_word_any_case(
        &rest,
        "nan",
    ) {
        return ScaleReading::OutOfRange;
    }
    match read_decimal(&rest) {
        None => ScaleReading::Invalid,
        Some((ds, point)) => {
            if chars[0] == '-' {
                return ScaleReading::OutOfRange;
            }
            let ghost parts = decimal_parts(rest@)->0;
            scale_of_digits(ds, point, Ghost(parts.0), Ghost(parts.1))
        },
    }
}

/// Whether digit values and a point position are those of the parts of a decimal.
pub open spec fn is_decimal(ds: Seq<u8>, point: int, parts: (Seq<char>, int)) -> bool {
    &&& same_digits(ds, parts.0)
    &&& is_point(point, parts.1 + ds.len())
    &&& -2 * EXPONENT_CAP < point < 2 * EXPONENT_CAP
}

/// The digits of a decimal spelling, and behind how many of them its point stands.
#[verifier::spinoff_prover]
#[verifier::rlimit(40)]
pub(crate) fn read_decimal(rest: &Vec<char>) -> (result: Option<(Vec<u8>, i128)>)
    ensures
        match (result, decimal_parts(rest@)) {
            (Some((ds, point)), Some(parts)) => is_decimal(ds@, point as int, parts),
            (None, None) => true,
            _ => false,
        },
{
    let n: usize = rest.len();
    let i: usize = digits_end(rest, 0);
    let mut ds: Vec<u8> = Vec::new();
    proof {
        lemma_skipped_are_digits(rest@, 0);
        assert(same_digits(ds@, Seq::<char>::empty()));
    }
    push_digits(&mut ds, rest, 0, i);
    let ghost whole = rest@.take(i as int);
    assert(Seq::<char>::empty() + rest@.subrange(0, i as int) =~= whole);
    assert(same_digits(ds@, whole));
    let mut j: usize = i;
    let ghost mut fraction = Seq::<char>::empty();
    if i < n && rest[i] == '.' {
        j = digits_end(rest, i + 1);
        proof {
            lemma_skipped_are_digits(rest@, i + 1);
            fraction = rest@.subrange(i + 1, j as int);
        }
        push_digits(&mut ds, rest, i + 1, j);
    }
    let ghost digits = whole + fraction;
    assert(whole + Seq::<char>::empty() =~= whole);
    assert(same_digits(ds@, digits));
    if ds.len() == 0 {
        return None;
    }
    let mut exponent: i128 = 0;
    let ghost mut actual: int = 0;
    if j < n {
        if rest[j] != 'e' && rest[j] != 'E' {
            return None;
        }
        let tail = suffix_of(rest, j + 1);
        match read_capped_exponent(&tail) {
            None => {
                return None;
            },
            Some(value) => {
                exponent = value;
                proof {
                    actual = exponent_value(tail@)->0;
                }
            },
        }
    }
    assert(decimal_parts(rest@) == Some((digits, actual - fraction.len())));
    Some((ds, i as i128 + exponent))
}

// ---------------------------------------------------------------------------
// Numbers that are finite in binary64

/// The least number that rounds to infinity in binary64.
pub open spec fn binary64_end() -> nat {
    0x3f_ffff_ffff_ffff * power2::pow2(970)
}

/// Whether digits times a power of ten round to a finite binary64 number.
pub open spec fn is_finite_decimal(digits: Seq<char>, exponent: int) -> bool {
    if exponent >= 0 {
        digits_nat(digits) * pow10(exponent as nat) < binary64_end()
    } else {
        digits_nat(digits) < binary64_end() * pow10((-exponent) as nat)
    }
}

/// Whether a text spells a number that is finite in binary64.
pub open spec fn is_finite_number(s: Seq<char>) -> bool {
    let signed = s.len() > 0 && (s[0] == '-' || s[0] == '+');
    let rest = if signed {
        s.drop_first()
    } else {
        s
    };
    match decimal_parts(rest) {
        None => false,
        Some((digits, exponent)) => is_finite_decimal(digits, exponent),
    }
}

/// Halves a whole number in place, dropping what is left over.
fn halve(ds: &mut Vec<u8>)
    requires
        are_digits(old(ds)@),
    ensures
        are_digits(final(ds)@),
        final(ds)@.len() == old(ds)@.len(),
        value_of(final(ds)@) == value_of(old(ds)@) / 2,
{
    let ghost before = ds@;
    let n: usize = ds.len();
    let mut carry: u8 = 0;
    let mut i: usize = 0;
    assert(before.take(0) =~= Seq::<u8>::empty());
    assert(ds@.take(0) =~= Seq::<u8>::empty());
    while i < n
        invariant
            i <= n,
            ds@.len() == n,
            before.len() == n,
            are_digits(before),
            are_digits(ds@),
            carry <= 1,
            forall|k: int| i <= k < n ==> ds@[k] == before[k],
            value_of(before.take(i as int)) == 2 * value_of(ds@.take(i as int)) + carry,
        decreases n - i,
    {
        let ghost old_ds = ds@;
        assert(ds@[i as int] == before[i as int]);
        assert(before[i as int] < 10);
        let d: u8 = ds[i] + carry * 10;
        ds.set(i, d / 2);
        proof {
            assert(before.take(i + 1).drop_last() =~= before.take(i as int));
            assert(ds@.take(i + 1).drop_last() =~= old_ds.take(i as int));
        }
        carry = d % 2;
        i = i + 1;
    }
    assert(before.take(n as int) =~= before);
    assert(ds@.take(n as int) =~= ds@);
}

proof fn lemma_halved(v: nat, k: nat)
    ensures
        v / power2::pow2(k) / 2 == v / power2::pow2(k + 1),
{
    power2::lemma_pow2_pos(k);
    power2::lemma_pow2_unfold(k + 1);
    vstd::arithmetic::div_mod::lemma_div_denominator(v as int, power2::pow2(k) as int, 2);
    assert(power2::pow2(k) * 2 == power2::pow2(k + 1));
}

/// Whether a whole number lies below the end of the binary64 numbers.
fn is_below_end(whole: Vec<u8>) -> (below: bool)
    requires
        are_digits(whole@),
    ensures
        below == (value_of(whole@) < binary64_end()),
{
    let ghost v = value_of(whole@);
    let mut ds = whole;
    let mut k: u32 = 0;
    proof {
        power2::lemma2_to64();
        assert(v / 1 == v);
    }
    while k < 970
        invariant
            k <= 970,
            are_digits(ds@),
            value_of(ds@) == v / power2::pow2(k as nat),
        decreases 970 - k,
    {
        halve(&mut ds);
        proof {
            lemma_halved(v, k as nat);
        }
        k = k + 1;
    }
    let ghost q = value_of(ds@);
    proof {
        let p = power2::pow2(970);
        power2::lemma_pow2_pos(970);
        vstd::arithmetic::div_mod::lemma_fundamental_div_mod(v as int, p as int);
        let r = v % p;
        assert(v < 0x3f_ffff_ffff_ffff * p <==> q < 0x3f_ffff_ffff_ffff) by (nonlinear_arith)
            requires
                v == p * q + r,
                0 <= r < p,
        ;
    }
    let mut value: u64 = 0;
    let mut i: usize = 0;
    assert(ds@.take(0) =~= Seq::<u8>::empty());
    while i < ds.len()
        invariant
            i <= ds@.len(),
            are_digits(ds@),
            q == value_of(ds@),
            v == value_of(whole@),
            v < binary64_end() <==> q < 0x3f_ffff_ffff_ffff,
            value == value_of(ds@.take(i as int)),
            value < 0x3f_ffff_ffff_ffff,
        decreases ds@.len() - i,
    {
        assert(ds@.take(i + 1).drop_last() =~= ds@.take(i as int));
        assert(ds@[i as int] < 10);
        value = value * 10 + ds[i] as u64;
        i = i + 1;
        if value >= 0x3f_ffff_ffff_ffff {
            proof {
                let rest = ds@.skip(i as int);
                assert(ds@ =~= ds@.take(i as int) + rest);
                lemma_value_concat(ds@.take(i as int), rest);
                lemma_pow10_pos(rest.len());
                let p = pow10(rest.len());
                assert(value * p >= value) by (nonlinear_arith)
                    requires
                        p >= 1,
                ;
            }
            return false;
        }
    }
    assert(ds@.take(i as int) =~= ds@);
    true
}

pub proof fn lemma_leading_digit(ds: Seq<u8>)
    requires
        ds.len() > 0,
        ds[0] >= 1,
    ensures
        value_of(ds) >= pow10((ds.len() - 1) as nat),
{
    let tail = ds.drop_first();
    assert(ds =~= seq![ds[0]] + tail);
    lemma_value_concat(seq![ds[0]], tail);
    lemma_value_one(ds[0]);
    let p = pow10(tail.len());
    assert(ds[0] * p >= p) by (nonlinear_arith)
        requires
            ds[0] >= 1,
            p >= 0,
    ;
}

pub proof fn lemma_ten_to_400()
    ensures
        pow10(400) >= binary64_end(),
        binary64_end() >= 1,
{
    lemma_pow10_above_pow2(400);
    power2::lemma_pow2_pos(970);
    power2::lemma_pow2_adds(970, 230);
    power2::lemma_pow2_adds(64, 166);
    power2::lemma_pow2_pos(166);
    power2::lemma2_to64();
    let p = power2::pow2(970);
    assert(power2::pow2(230) >= 0x3f_ffff_ffff_ffff) by (nonlinear_arith)
        requires
            power2::pow2(230) == power2::pow2(64) * power2::pow2(166),
            power2::pow2(64) == 0x1_0000_0000_0000_0000,
            power2::pow2(166) >= 1,
    ;
    assert(p * power2::pow2(230) >= 0x3f_ffff_ffff_ffff * p) by (nonlinear_arith)
        requires
            power2::pow2(230) >= 0x3f_ffff_ffff_ffff,
            p >= 1,
    ;
    assert(0x3f_ffff_ffff_ffff * p >= 1) by (nonlinear_arith)
        requires
            p >= 1,
    ;
}

/// Whether a text spells a number that is finite in binary64.
#[verifier::spinoff_prover]
#[verifier::rlimit(40)]
pub fn is_finite_text(text: &str) -> (finite: bool)
    ensures
        finite == is_finite_number(text@),
{
    let chars = chars_of(text);
    let signed = chars.len() > 0 && (chars[0] == '-' || chars[0] == '+');
    let from: usize = if signed {
        1
    } else {
        0
    };
    let rest = suffix_of(&chars, from);
    assert(signed ==> rest@ =~= text@.drop_first());
    assert(!signed ==> rest@ =~= text@);
    match read_decimal(&rest) {
        None => false,
        Some((ds, point)) => {
            let ghost parts = decimal_parts(rest@)->0;
            is_finite_of_digits(ds, point, Ghost(parts.0), Ghost(parts.1))
        },
    }
}

#[verifier::spinoff_prover]
#[verifier::rlimit(40)]
fn is_finite_of_digits(ds: Vec<u8>, point: i128, Ghost(cs): Ghost<Seq<char>>, Ghost(
    exponent,
): Ghost<int>) -> (finite: bool)
    requires
        is_decimal(ds@, point as int, (cs, exponent)),
    ensures
        finite == is_finite_decimal(cs, exponent),
{
    proof {
        lemma_same_digits(ds@, cs);
        lemma_ten_to_400();
    }
    let n: usize = ds.len();
    let ghost num = value_of(ds@);
    let mut zeros: usize = 0;
    while zeros < n && ds[zeros] == 0
        invariant
            zeros <= n,
            n == ds@.len(),
            forall|k: int| 0 <= k < zeros ==> #[trigger] ds@[k] == 0,
        decreases n - zeros,
    {
        zeros = zeros + 1;
    }
    let ghost digits = ds@.skip(zeros as int);
    proof {
        let head = ds@.take(zeros as int);
        assert(ds@ =~= head + digits);
        lemma_value_concat(head, digits);
        lemma_value_zero(head);
        assert(0 * pow10(digits.len()) == 0);
        assert(value_of(digits) == num);
        assert forall|k: int| 0 <= k < digits.len() implies #[trigger] digits[k] < 10 by {
            assert(digits[k] == ds@[zeros + k]);
        }
        lemma_value_bound(digits);
    }
    let left: i128 = point - zeros as i128;
    if zeros == n {
        proof {
            assert(digits =~= Seq::<u8>::empty());
            if exponent >= 0 {
                assert(0 * pow10(exponent as nat) == 0);
            } else {
                lemma_pow10_pos((-exponent) as nat);
                let p = pow10((-exponent) as nat);
                assert(binary64_end() * p >= 1) by (nonlinear_arith)
                    requires
                        binary64_end() >= 1,
                        p >= 1,
                ;
            }
        }
        return true;
    }
    let ghost m = digits.len();
    proof {
        lemma_leading_digit(digits);
    }
    if left > 400 {
        proof {
            lemma_not_finite(num, m, exponent, cs);
        }
        return false;
    }
    if left <= 0 {
        proof {
            let p = pow10((-exponent) as nat);
            lemma_pow10_add(m, (-exponent - m) as nat);
            lemma_pow10_pos((-exponent - m) as nat);
            let z = pow10((-exponent - m) as nat);
            assert(p >= pow10(m)) by (nonlinear_arith)
                requires
                    p == pow10(m) * z,
                    z >= 1,
            ;
            assert(binary64_end() * p >= p) by (nonlinear_arith)
                requires
                    binary64_end() >= 1,
            ;
        }
        return true;
    }
    let count: usize = left as usize;
    let mut whole: Vec<u8> = Vec::new();
    let mut i: usize = 0;
    while i < count
        invariant
            i <= count <= 400,
            zeros <= n,
            n == ds@.len(),
            digits == ds@.skip(zeros as int),
            whole@.len() == i,
            forall|k: int|
                0 <= k < i ==> #[trigger] whole@[k] == if k < digits.len() {
                    digits[k]
                } else {
                    0u8
                },
        decreases count - i,
    {
        if i < n - zeros {
            assert(digits[i as int] == ds@[zeros + i]);
            whole.push(ds[zeros + i]);
        } else {
            whole.push(0);
        }
        i = i + 1;
    }
    proof {
        assert forall|k: int| 0 <= k < whole@.len() implies #[trigger] whole@[k] < 10 by {
            if k < digits.len() {
                assert(digits[k] < 10);
            }
        }
        lemma_whole_part(digits, whole@, exponent, cs);
    }
    is_below_end(whole)
}

/// Digits with at least 400 places before the point are not finite.
pub proof fn lemma_not_finite(num: nat, m: nat, exponent: int, cs: Seq<char>)
    requires
        num == digits_nat(cs),
        m > 0,
        num >= pow10((m - 1) as nat),
        exponent + m > 400,
    ensures
        !is_finite_decimal(cs, exponent),
{
    lemma_ten_to_400();
    if exponent >= 0 {
        let p = pow10(exponent as nat);
        lemma_pow10_add((m - 1) as nat, exponent as nat);
        lemma_pow10_add(400, (m - 1 + exponent - 400) as nat);
        lemma_pow10_pos((m - 1 + exponent - 400) as nat);
        let z = pow10((m - 1 + exponent - 400) as nat);
        assert(num * p >= pow10(400)) by (nonlinear_arith)
            requires
                num >= pow10((m - 1) as nat),
                pow10((m - 1) as nat) * p == pow10(400) * z,
                z >= 1,
        ;
    } else {
        let p = pow10((-exponent) as nat);
        lemma_pow10_add(400, (m - 1 - 400) as nat);
        let k = (m - 1 + exponent - 400) as nat;
        lemma_pow10_add(400, (-exponent + k) as nat);
        lemma_pow10_add((-exponent) as nat, k);
        lemma_pow10_pos(k);
        let z = pow10(k);
        assert(num >= binary64_end() * p) by (nonlinear_arith)
            requires
                num >= pow10(400) * (p * z),
                pow10(400) >= binary64_end(),
                z >= 1,
                p >= 0,
                binary64_end() >= 0,
        ;
    }
}

/// Only the digits before the point decide whether a number is finite.
proof fn lemma_whole_part(digits: Seq<u8>, whole: Seq<u8>, exponent: int, cs: Seq<char>)
    requires
        value_of(digits) == digits_nat(cs),
        are_digits(digits),
        whole.len() == exponent + digits.len(),
        forall|k: int|
            0 <= k < whole.len() ==> #[trigger] whole[k] == if k < digits.len() {
                digits[k]
            } else {
                0u8
            },
    ensures
        is_finite_decimal(cs, exponent) == (value_of(whole) < binary64_end()),
{
    if exponent >= 0 {
        let tail = whole.skip(digits.len() as int);
        assert(whole =~= digits + tail);
        lemma_value_concat(digits, tail);
        lemma_value_zero(tail);
        assert forall|k: int| 0 <= k < tail.len() implies #[trigger] tail[k] == 0 by {
            assert(tail[k] == whole[digits.len() + k]);
        }
    } else {
        let tail = digits.skip(whole.len() as int);
        assert(digits =~= whole + tail);
        lemma_value_concat(whole, tail);
        assert forall|k: int| 0 <= k < tail.len() implies #[trigger] tail[k] < 10 by {
            assert(tail[k] == digits[whole.len() + k]);
        }
        lemma_value_bound(tail);
        let p = pow10((-exponent) as nat);
        let w = value_of(whole);
        let t = value_of(tail);
        let e = binary64_end();
        assert(w * p + t < e * p <==> w < e) by (nonlinear_arith)
            requires
                0 <= t < p,
        ;
    }
}

// ---------------------------------------------------------------------------
// The writer

/// `n / d` rounded to the nearest whole number, to the even one of two.
pub open spec fn half_even(n: nat, d: nat) -> nat {
    let q = n / d;
    let r = n % d;
    if 2 * r < d {
        q
    } else if 2 * r > d {
        q + 1
    } else if q % 2 == 0 {
        q
    } else {
        q + 1
    }
}

/// A scale in millionths, rounded.
pub open spec fn millionths(scale: OverviewScale) -> nat {
    half_even(units(scale.bit_pattern() as nat) * 1_000_000, power2::pow2(149))
}

/// The lowest `width` decimal digits of a number.
pub open spec fn fixed_digits(n: nat, width: nat) -> Seq<char>
    decreases width,
{
    if width == 0 {
        Seq::empty()
    } else {
        fixed_digits(n / 10, (width - 1) as nat).push(text::digit_char(n % 10))
    }
}

/// `s` without the zeros at its end.
pub open spec fn strip_zeros(s: Seq<char>) -> Seq<char>
    decreases s.len(),
{
    if s.len() > 0 && s.last() == '0' {
        strip_zeros(s.drop_last())
    } else {
        s
    }
}

/// The decimals that are written for a number of millionths below one million: six
/// digits without the zeros at their end, but at least one.
pub open spec fn decimals_text(n: nat) -> Seq<char> {
    let kept = strip_zeros(fixed_digits(n, 6));
    if kept.len() == 0 {
        seq!['0']
    } else {
        kept
    }
}

/// How a scale is written.
pub open spec fn scale_text(scale: OverviewScale) -> Seq<char> {
    let n = millionths(scale);
    text::decimal_text(n / 1_000_000) + seq!['.'] + decimals_text(n % 1_000_000)
}

proof fn lemma_half_even_scaled(n: nat, d: nat, c: nat)
    requires
        d > 0,
        c > 0,
    ensures
        half_even(n * c, d * c) == half_even(n, d),
{
    vstd::arithmetic::div_mod::lemma_fundamental_div_mod(n as int, d as int);
    let q = n / d;
    let r = n % d;
    assert(n * c == q * (d * c) + r * c && r * c < d * c && d * c > 0) by (nonlinear_arith)
        requires
            n == d * q + r,
            r < d,
            c > 0,
            d > 0,
    ;
    vstd::arithmetic::div_mod::lemma_fundamental_div_mod_converse(
        (n * c) as int,
        (d * c) as int,
        q as int,
        (r * c) as int,
    );
    assert(2 * (r * c) < d * c <==> 2 * r < d) by (nonlinear_arith)
        requires
            c > 0,
    ;
    assert(2 * (r * c) > d * c <==> 2 * r > d) by (nonlinear_arith)
        requires
            c > 0,
    ;
}

fn power_of_two(n: u32) -> (p: u64)
    requires
        n < 64,
    ensures
        p == power2::pow2(n as nat),
{
    proof {
        power2::lemma2_to64();
    }
    let mut p: u64 = 1;
    let mut i: u32 = 0;
    while i < n
        invariant
            i <= n < 64,
            p == power2::pow2(i as nat),
        decreases n - i,
    {
        proof {
            power2::lemma_pow2_unfold((i + 1) as nat);
            power2::lemma_pow2_strictly_increases((i + 1) as nat, 64);
            power2::lemma2_to64();
        }
        p = p * 2;
        i = i + 1;
    }
    p
}

/// A scale in millionths, rounded.
fn millionths_of(scale: OverviewScale) -> (n: u64)
    ensures
        n == millionths(scale),
        n <= 1_000_000,
{
    let bits: u32 = scale.to_bits();
    let q: u32 = if bits < 0x80_0000 {
        0
    } else {
        bits / 0x80_0000 - 1
    };
    let m: u32 = if bits < 0x80_0000 {
        bits
    } else {
        0x80_0000 + bits % 0x80_0000
    };
    let s: u32 = 149 - q;
    let total: u64 = m as u64 * 1_000_000;
    proof {
        lemma_units_at(q as nat, m as nat);
        power2::lemma_pow2_adds(q as nat, s as nat);
        power2::lemma_pow2_pos(q as nat);
        power2::lemma_pow2_pos(s as nat);
        let p = power2::pow2(q as nat);
        assert(m as nat * p * 1_000_000 == total as nat * p) by (nonlinear_arith)
            requires
                total == m * 1_000_000,
        ;
        assert(power2::pow2(149) == power2::pow2(s as nat) * p) by (nonlinear_arith)
            requires
                power2::pow2(149) == p * power2::pow2(s as nat),
        ;
        lemma_half_even_scaled(total as nat, power2::pow2(s as nat), p);
    }
    if s > 46 {
        proof {
            power2::lemma2_to64();
            power2::lemma_pow2_adds(32, 14);
            power2::lemma_pow2_strictly_increases(46, s as nat);
            vstd::arithmetic::div_mod::lemma_basic_div(
                total as int,
                power2::pow2(s as nat) as int,
            );
            vstd::arithmetic::div_mod::lemma_small_mod(total as nat, power2::pow2(s as nat));
        }
        return 0;
    }
    let d: u64 = power_of_two(s);
    let whole: u64 = total / d;
    let rest: u64 = total % d;
    proof {
        power2::lemma2_to64();
        power2::lemma_pow2_adds(32, 15);
        power2::lemma_pow2_strictly_increases(s as nat, 47);
        if s > 23 {
            power2::lemma_pow2_strictly_increases(23, s as nat);
        }
        assert(d >= 0x80_0000);
        if s == 23 {
            assert(q == 126);
            assert(m == 0x80_0000);
        } else {
            power2::lemma_pow2_unfold(24);
            if s > 24 {
                power2::lemma_pow2_strictly_increases(24, s as nat);
            }
            assert(d >= 0x100_0000);
        }
        assert(whole <= 1_000_000 && (whole == 1_000_000 ==> rest == 0)) by {
            vstd::arithmetic::div_mod::lemma_fundamental_div_mod(total as int, d as int);
            assert(total <= 1_000_000 * d) by (nonlinear_arith)
                requires
                    total == m * 1_000_000,
                    m <= d,
            ;
            assert(whole <= 1_000_000 && (whole == 1_000_000 ==> rest == 0)) by (nonlinear_arith)
                requires
                    total == d * whole + rest,
                    0 <= rest < d,
                    total <= 1_000_000 * d,
                    d > 0,
            ;
        }
    }
    if 2 * rest < d {
        whole
    } else if 2 * rest > d {
        whole + 1
    } else if whole % 2 == 0 {
        whole
    } else {
        whole + 1
    }
}

/// How a scale is written.
pub fn format_overview_scale(scale: OverviewScale) -> (text: String)
    ensures
        text@ == scale_text(scale),
{
    let n: u64 = millionths_of(scale);
    let mut text = decimal_u64(n / 1_000_000);
    push_char(&mut text, '.');
    let digits = fixed_decimals(n % 1_000_000, 6);
    let ghost all = digits@;
    let mut end: usize = digits.len();
    assert(digits@.take(end as int) =~= digits@);
    while end > 0 && digits[end - 1] == '0'
        invariant
            end <= digits@.len(),
            strip_zeros(digits@) == strip_zeros(digits@.take(end as int)),
        decreases end,
    {
        assert(digits@.take(end as int).drop_last() =~= digits@.take(end - 1));
        end = end - 1;
    }
    let ghost head = text@;
    if end == 0 {
        push_char(&mut text, '0');
        assert(digits@.take(0) =~= Seq::<char>::empty());
        assert(text@ =~= head + seq!['0']);
    } else {
        let mut i: usize = 0;
        while i < end
            invariant
                i <= end <= digits@.len(),
                text@ == head + digits@.take(i as int),
            decreases end - i,
        {
            push_char(&mut text, digits[i]);
            i = i + 1;
            assert(text@ =~= head + digits@.take(i as int));
        }
    }
    assert(head =~= text::decimal_text((n / 1_000_000) as nat) + seq!['.']);
    text
}

fn fixed_decimals(n: u64, width: u8) -> (digits: Vec<char>)
    ensures
        digits@ == fixed_digits(n as nat, width as nat),
    decreases width,
{
    if width == 0 {
        let digits: Vec<char> = Vec::new();
        assert(digits@ =~= Seq::<char>::empty());
        digits
    } else {
        let mut digits = fixed_decimals(n / 10, width - 1);
        digits.push(((n % 10) as u8 + 48) as char);
        digits
    }
}

pub proof fn lemma_fixed_digits(n: nat, width: nat)
    ensures
        fixed_digits(n, width).len() == width,
        forall|i: int| 0 <= i < width ==> text::is_digit(#[trigger] fixed_digits(n, width)[i]),
    decreases width,
{
    if width > 0 {
        lemma_fixed_digits(n / 10, (width - 1) as nat);
    }
}

proof fn lemma_strip_zeros(s: Seq<char>)
    ensures
        strip_zeros(s).len() <= s.len(),
        forall|i: int| 0 <= i < strip_zeros(s).len() ==> #[trigger] strip_zeros(s)[i] == s[i],
    decreases s.len(),
{
    if s.len() > 0 && s.last() == '0' {
        lemma_strip_zeros(s.drop_last());
    }
}

/// A scale is at most one million millionths.
pub proof fn lemma_millionths_bound(scale: OverviewScale)
    requires
        scale.valid(),
    ensures
        millionths(scale) <= 1_000_000,
{
    lemma_units_ascend(scale.bit_pattern() as nat, ONE_BITS as nat);
    lemma_units_at(126, 0x80_0000);
    power2::lemma_pow2_adds(126, 23);
    power2::lemma2_to64();
    power2::lemma_pow2_pos(149);
    let u = units(scale.bit_pattern() as nat);
    let d = power2::pow2(149);
    assert(ONE_BITS as nat == 126 * 0x80_0000 + 0x80_0000);
    assert(units(ONE_BITS as nat) == 0x80_0000 * power2::pow2(126));
    assert(power2::pow2(126) * power2::pow2(23) == 0x80_0000 * power2::pow2(126))
        by (nonlinear_arith)
        requires
            power2::pow2(23) == 0x80_0000,
    ;
    assert(u <= d);
    vstd::arithmetic::div_mod::lemma_fundamental_div_mod((u * 1_000_000) as int, d as int);
    let q = (u * 1_000_000) / d;
    let r = (u * 1_000_000) % d;
    assert(q <= 1_000_000 && (q == 1_000_000 ==> r == 0)) by (nonlinear_arith)
        requires
            u * 1_000_000 == d * q + r,
            0 <= r < d,
            u <= d,
            d > 0,
    ;
}

/// What is written for a scale is a JSON number.
pub proof fn lemma_scale_text_is_number(scale: OverviewScale)
    requires
        scale.valid(),
    ensures
        json_law::is_number(scale_text(scale)),
{
    let n = millionths(scale);
    lemma_millionths_bound(scale);
    let s = scale_text(scale);
    let whole = text::decimal_text(n / 1_000_000);
    assert(n / 1_000_000 < 10);
    assert(whole.len() == 1);
    let six = fixed_digits(n % 1_000_000, 6);
    lemma_fixed_digits(n % 1_000_000, 6);
    lemma_strip_zeros(six);
    let decimals = decimals_text(n % 1_000_000);
    assert(s[1] == '.');
    assert forall|i: int| 2 <= i < s.len() implies text::is_digit(#[trigger] s[i]) by {
        assert(s[i] == decimals[i - 2]);
        if strip_zeros(six).len() > 0 {
            assert(decimals[i - 2] == six[i - 2]);
        }
    }
    lemma_rest_is_digits(s, 2);
    assert(s.len() >= 3);
    assert(text::is_digit(s[2]));
    assert(json::skip_digits(s, 1) == 1);
    assert(text::is_digit(s[0]));
    assert(json::skip_digits(s, 0) == 1);
}

proof fn lemma_rest_is_digits(s: Seq<char>, i: int)
    requires
        0 <= i <= s.len(),
        forall|k: int| i <= k < s.len() ==> text::is_digit(#[trigger] s[k]),
    ensures
        json::skip_digits(s, i) == s.len(),
    decreases s.len() - i,
{
    if i < s.len() {
        lemma_rest_is_digits(s, i + 1);
    }
}

} // verus!
