//! What is proved of the spellings of binary64 numbers.

use crate::binary64::Double;
use crate::binary64;
use crate::json;
use crate::json_law;
use crate::scale;
use crate::text;
use vstd::arithmetic::power2;
use vstd::prelude::*;

verus! {

proof fn lemma_digits_run(s: Seq<char>, i: int, j: int)
    requires
        0 <= i <= j <= s.len(),
        forall|k: int| i <= k < j ==> text::is_digit(#[trigger] s[k]),
        j < s.len() ==> !text::is_digit(s[j]),
    ensures
        json::skip_digits(s, i) == j,
    decreases j - i,
{
    if i < j {
        assert(text::is_digit(s[i]));
        lemma_digits_run(s, i + 1, j);
    }
}

proof fn lemma_decimal_digits(n: nat)
    ensures
        scale::digits_nat(text::decimal_text(n)) == n,
    decreases n,
{
    let s = text::decimal_text(n);
    if n < 10 {
        assert(s.drop_last() =~= Seq::<char>::empty());
        assert(scale::digits_nat(s.drop_last()) == 0);
        assert(text::digit_value(s.last()) == n);
    } else {
        lemma_decimal_digits(n / 10);
        assert(s.drop_last() =~= text::decimal_text(n / 10));
        assert(text::digit_value(s.last()) == n % 10);
    }
}

proof fn lemma_fixed_digits(head: Seq<char>, n: nat, width: nat)
    requires
        n < scale::pow10(width),
    ensures
        scale::digits_nat(head + scale::fixed_digits(n, width)) == scale::digits_nat(head)
            * scale::pow10(width) + n,
    decreases width,
{
    let tail = scale::fixed_digits(n, width);
    let a = scale::digits_nat(head);
    if width == 0 {
        assert(head + tail =~= head);
        assert(a * 1 == a);
    } else {
        lemma_fixed_digits(head, n / 10, (width - 1) as nat);
        let front = scale::fixed_digits(n / 10, (width - 1) as nat);
        let s = head + tail;
        assert(s.drop_last() =~= head + front);
        assert(s.last() == text::digit_char(n % 10));
        assert(text::digit_value(s.last()) == n % 10);
        let x = scale::pow10((width - 1) as nat);
        assert(a * (10 * x) == 10 * (a * x)) by (nonlinear_arith);
    }
}

/// A written decimal is read as what was written, and is a JSON number, with a minus or
/// without.
#[verifier::spinoff_prover]
proof fn lemma_written(n: nat, place: int)
    ensures
        ({
            let s = binary64::written(n, place);
            &&& s.len() > 0
            &&& text::is_digit(s[0])
            &&& scale::decimal_parts(s) matches Some((digits, exponent)) && binary64::ratio_of(
                scale::digits_nat(digits),
                exponent,
            ) == binary64::ratio_of(n, place)
            &&& json_law::is_number(s)
            &&& json_law::is_number(seq!['-'] + s)
        }),
{
    let s = binary64::written(n, place);
    let one = if place < 0 {
        scale::pow10((-place) as nat)
    } else {
        1
    };
    let whole = if place < 0 {
        text::decimal_text(n / one)
    } else {
        text::decimal_text(n * scale::pow10(place as nat))
    };
    let tail = if place < 0 {
        scale::fixed_digits(n % one, (-place) as nat)
    } else {
        Seq::empty()
    };
    let v = if place < 0 {
        n / one
    } else {
        n * scale::pow10(place as nat)
    };
    text::lemma_decimal_text_shape(v);
    lemma_decimal_digits(v);
    let l = whole.len() as int;
    if place < 0 {
        scale::lemma_pow10_pos((-place) as nat);
        scale::lemma_fixed_digits(n % one, (-place) as nat);
        vstd::arithmetic::div_mod::lemma_fundamental_div_mod(n as int, one as int);
        lemma_fixed_digits(whole, n % one, (-place) as nat);
        assert((n / one) * one == one * (n / one)) by (nonlinear_arith);
        assert(s[l] == '.');
        assert forall|k: int| l < k < s.len() implies text::is_digit(#[trigger] s[k]) by {
            assert(s[k] == tail[k - l - 1]);
        }
        lemma_digits_run(s, l + 1, s.len() as int);
        assert(s.take(l) =~= whole);
        assert(s.subrange(l + 1, s.len() as int) =~= tail);
    } else {
        assert(s.take(l) =~= whole);
        assert(whole + Seq::<char>::empty() =~= whole);
        assert(v * 1 == v);
    }
    assert forall|k: int| 0 <= k < l implies text::is_digit(#[trigger] s[k]) by {
        assert(s[k] == whole[k]);
    }
    lemma_digits_run(s, 0, l);
    assert(s[0] == whole[0]);
    assert(json_law::is_number(s));
    let t = seq!['-'] + s;
    assert forall|k: int| 0 <= k < s.len() implies t[k + 1] == #[trigger] s[k] by {}
    assert forall|k: int| 1 <= k < l + 1 implies text::is_digit(#[trigger] t[k]) by {
        assert(t[k] == s[k - 1]);
    }
    if place < 0 {
        assert(t[l + 1] == s[l]);
        assert forall|k: int| l + 1 < k < t.len() implies text::is_digit(#[trigger] t[k]) by {
            assert(t[k] == s[k - 1]);
        }
        lemma_digits_run(t, l + 2, t.len() as int);
    }
    lemma_digits_run(t, 1, l + 1);
    assert(t[1] == s[0]);
}

/// The spelling of a finite number is read as that number.
#[verifier::spinoff_prover]
proof fn lemma_double_text(d: Double)
    requires
        binary64::is_double(d),
        d.power <= 2045,
        d == binary64::double_of(0, 1) || d.mantissa > 0,
    ensures
        ({
            let s = binary64::double_text(d);
            &&& s.len() > 0
            &&& text::is_digit(s[0])
            &&& scale::decimal_parts(s) matches Some((digits, exponent)) && {
                let (num, den) = binary64::ratio_of(scale::digits_nat(digits), exponent);
                binary64::double_of(num, den) == d && scale::is_finite_decimal(digits, exponent)
            }
            &&& json_law::is_number(s)
            &&& json_law::is_number(seq!['-'] + s)
        }),
{
    let s = binary64::double_text(d);
    let (n, place) = if d.mantissa == 0 {
        (0nat, 0int)
    } else {
        binary64::lemma_has_shortest(d);
        choose|n: nat, place: int| binary64::is_shortest(d, n, place)
    };
    if d.mantissa == 0 {
        assert(scale::pow10(0) == 1);
        assert(text::decimal_text(0) =~= seq!['0']);
        assert(binary64::written(0, 0) =~= s);
    }
    lemma_written(n, place);
    let (digits, exponent) = scale::decimal_parts(s)->0;
    let (num, den) = binary64::ratio_of(scale::digits_nat(digits), exponent);
    if exponent < 0 {
        scale::lemma_pow10_pos((-exponent) as nat);
    }
    binary64::lemma_read_from_finite(d, num, den);
    assert(scale::binary64_end() * 1 == scale::binary64_end());
}

/// What a finite decimal is read as is a finite number.
proof fn lemma_number_in(s: Seq<char>)
    requires
        scale::is_finite_number(s),
    ensures
        binary64::number_in(s) matches Some((_, d)) && binary64::is_double(d) && d.power <= 2045
            && (d.mantissa == 0 ==> d == binary64::double_of(0, 1)),
{
    let (digits, exponent) = scale::decimal_parts(binary64::unsigned(s))->0;
    let (num, den) = binary64::ratio_of(scale::digits_nat(digits), exponent);
    if exponent < 0 {
        scale::lemma_pow10_pos((-exponent) as nat);
    }
    assert(scale::binary64_end() * 1 == scale::binary64_end());
    binary64::lemma_finite(num, den);
    assert(0 * power2::pow2(1074) == 0);
    binary64::lemma_read_as_zero(0, 1);
}

/// The spelling of a finite number is a JSON number that is read as the same number, and is
/// its own spelling.
pub proof fn law_spelling_settles(s: Seq<char>)
    requires
        scale::is_finite_number(s),
    ensures
        scale::is_finite_number(binary64::spelled(s)),
        binary64::number_in(binary64::spelled(s)) == binary64::number_in(s),
        binary64::spelled(binary64::spelled(s)) == binary64::spelled(s),
        json_law::is_number(binary64::spelled(s)),
{
    lemma_number_in(s);
    let (minus, d) = binary64::number_in(s)->0;
    lemma_double_text(d);
    let plain = binary64::double_text(d);
    let t = binary64::spelled(s);
    if minus {
        assert(t.drop_first() =~= plain);
    } else {
        assert(t =~= plain);
    }
    assert(binary64::unsigned(t) == plain);
}

/// Two finite decimals are spelled alike where they are read as the same number, and only
/// there.
pub proof fn law_spelling_tells_numbers_apart(a: Seq<char>, b: Seq<char>)
    requires
        scale::is_finite_number(a),
        scale::is_finite_number(b),
    ensures
        binary64::spelled(a) == binary64::spelled(b) <==> binary64::number_in(a)
            == binary64::number_in(b),
{
    lemma_number_in(a);
    lemma_number_in(b);
    law_spelling_settles(a);
    law_spelling_settles(b);
}

/// Two decimals that are read as one number between a millionth and one are the same, if they
/// have at most six places.
#[verifier::spinoff_prover]
proof fn lemma_millionths_apart(d: Double, n: nat, k: nat, den: nat, factor: nat)
    requires
        binary64::is_double(d),
        0 < n < 1_000_000,
        den * factor == 1_000_000,
        den > 0,
        binary64::double_of(n, 1_000_000) == d,
        binary64::double_of(k, den) == d,
    ensures
        factor * k == n,
{
    binary64::lemma_read_as(d, n, 1_000_000);
    binary64::lemma_read_as(d, k, den);
    let z = power2::pow2(1074) as int;
    let p = power2::pow2(d.power) as int;
    let m = d.mantissa as int;
    let r = binary64::reach_below(d) as int;
    power2::lemma_pow2_pos(d.power);
    power2::lemma_pow2_pos(1010);
    power2::lemma_pow2_adds(64, 1010);
    power2::lemma2_to64();
    assert(z >= 0x1_0000_0000_0000_0000) by (nonlinear_arith)
        requires
            z == 0x1_0000_0000_0000_0000 * power2::pow2(1010),
            power2::pow2(1010) >= 1,
    ;
    let b = p * 1_000_000;
    let x = 4 * (n * z);
    let y = 4 * ((factor * k) * z);
    assert((4 * m - r) * b <= x <= (4 * m + 2) * b);
    let u = p * den;
    assert(b == u * factor) by (nonlinear_arith)
        requires
            b == p * 1_000_000,
            u == p * den,
            den * factor == 1_000_000,
    ;
    assert((4 * m - r) * u <= 4 * (k * z) <= (4 * m + 2) * u);
    assert((4 * m - r) * b <= y <= (4 * m + 2) * b) by (nonlinear_arith)
        requires
            (4 * m - r) * u <= 4 * (k * z) <= (4 * m + 2) * u,
            y == 4 * ((factor * k) * z),
            b == u * factor,
            factor >= 0,
    {
        assert(((4 * m - r) * u) * factor <= (4 * (k * z)) * factor);
        assert((4 * (k * z)) * factor <= ((4 * m + 2) * u) * factor);
        assert(((4 * m - r) * u) * factor == (4 * m - r) * (u * factor));
        assert(((4 * m + 2) * u) * factor == (4 * m + 2) * (u * factor));
        assert((4 * (k * z)) * factor == 4 * ((factor * k) * z));
    }
    assert((4 * m - r) * b == 4 * (m * b) - r * b) by (nonlinear_arith);
    assert((4 * m + 2) * b == 4 * (m * b) + 2 * b) by (nonlinear_arith);
    assert(r * b <= 2 * b) by (nonlinear_arith)
        requires
            r <= 2,
            b >= 0,
    ;
    if d.power > 0 {
        assert(m * b >= 0x10_0000_0000_0000 * b) by (nonlinear_arith)
            requires
                m >= 0x10_0000_0000_0000,
                b >= 0,
        ;
        assert(n * z <= 1_000_000 * z) by (nonlinear_arith)
            requires
                n <= 1_000_000,
                z >= 0,
        ;
    }
    assert(b < z);
    let f = (factor * k) as int;
    if f > n {
        assert(f * z >= n * z + z) by (nonlinear_arith)
            requires
                f >= n + 1,
                z >= 0,
        ;
    } else if f < n {
        assert(f * z + z <= n * z) by (nonlinear_arith)
            requires
                f + 1 <= n,
                z >= 0,
        ;
    }
}

/// A decimal of six places below one, the last of them not zero, is its own spelling.
#[verifier::spinoff_prover]
pub proof fn lemma_six_places(n: nat)
    requires
        0 < n < 1_000_000,
        n % 10 != 0,
    ensures
        binary64::spelled(binary64::written(n, -6)) == binary64::written(n, -6),
{
    let s = binary64::written(n, -6);
    lemma_written(n, -6);
    reveal_with_fuel(scale::pow10, 8);
    assert(scale::pow10(6) == 1_000_000 && scale::pow10(5) == 100_000);
    let d = binary64::double_of(n, 1_000_000);
    power2::lemma_pow2_pos(970);
    let end = scale::binary64_end();
    assert(n < end * 1_000_000) by (nonlinear_arith)
        requires
            n < 1_000_000,
            end == 0x3f_ffff_ffff_ffff * power2::pow2(970),
            power2::pow2(970) >= 1,
    ;
    binary64::lemma_finite(n, 1_000_000);
    assert(binary64::ratio_of(n, -6) == (n, 1_000_000nat));
    assert(binary64::reads_as(d, n, -6));
    assert forall|k: nat| k > 0 implies !#[trigger] binary64::reads_as(d, k, -6 + 1) by {
        if binary64::reads_as(d, k, -5) {
            assert(binary64::ratio_of(k, -5) == (k, 100_000nat));
            lemma_millionths_apart(d, n, k, 100_000, 10);
        }
    }
    assert forall|k: nat| #[trigger] binary64::reads_as(d, k, -6) implies k == n by {
        assert(binary64::ratio_of(k, -6) == (k, 1_000_000nat));
        lemma_millionths_apart(d, n, k, 1_000_000, 1);
    }
    assert(binary64::is_shortest(d, n, -6));
    if d.mantissa == 0 {
        assert(0 * power2::pow2(1074) == 0);
        binary64::lemma_read_as_zero(0, 1_000_000);
        lemma_millionths_apart(d, n, 0, 1_000_000, 1);
    }
    let (k, place) = choose|k: nat, place: int| binary64::is_shortest(d, k, place);
    binary64::lemma_one_shortest(d, n, -6, k, place);
    assert(binary64::unsigned(s) == s);
    assert(binary64::minus_text(false) + s =~= s);
}

} // verus!
