//! The binary64 numbers that decimals stand for, and their shortest spellings.

use crate::big::Big;
use crate::scale::{read_decimal, suffix_of};
use crate::text::{chars_of, text_of_range};
use crate::scale;
use crate::text;
use vstd::arithmetic::power2;
use vstd::prelude::*;

verus! {

// ---------------------------------------------------------------------------
// Numbers

/// A binary64 number that is not below zero: so many times a power of two, in units of the
/// least number above zero, which is two to the power of -1074.
pub struct Double {
    pub mantissa: nat,
    pub power: nat,
}

/// Whether a mantissa has at most 53 bits, and all of them where the number is no multiple of
/// the least power alone.
pub open spec fn is_double(d: Double) -> bool {
    &&& d.mantissa < 0x20_0000_0000_0000
    &&& d.power > 0 ==> d.mantissa >= 0x10_0000_0000_0000
}

/// Whether a fraction of so many units has 53 bits before its point once it is divided by a
/// power of two, or fewer where the power is the least.
pub open spec fn is_power(units: nat, den: nat, power: nat) -> bool {
    &&& units < 0x20_0000_0000_0000 * (power2::pow2(power) * den)
    &&& power > 0 ==> units >= 0x10_0000_0000_0000 * (power2::pow2(power) * den)
}

/// How many units a number is.
pub open spec fn in_units(num: nat) -> nat {
    num * power2::pow2(1074)
}

/// The binary64 number nearest to a fraction, the one with an even mantissa where two are
/// equally near.
pub open spec fn double_of(num: nat, den: nat) -> Double {
    let power = choose|power: nat| is_power(in_units(num), den, power);
    let mantissa = scale::half_even(in_units(num), power2::pow2(power) * den);
    if mantissa == 0x20_0000_0000_0000 {
        Double { mantissa: 0x10_0000_0000_0000, power: power + 1 }
    } else {
        Double { mantissa, power }
    }
}

proof fn lemma_pow2_grows(a: nat, b: nat)
    requires
        a < b,
    ensures
        2 * power2::pow2(a) <= power2::pow2(b),
    decreases b,
{
    power2::lemma_pow2_unfold(b);
    if a + 1 < b {
        lemma_pow2_grows(a, (b - 1) as nat);
    }
    power2::lemma_pow2_pos(a);
}

/// A fraction has one power.
proof fn lemma_power_is_one(units: nat, den: nat, a: nat, b: nat)
    requires
        den > 0,
        is_power(units, den, a),
        is_power(units, den, b),
    ensures
        a == b,
{
    if a != b {
        let (less, more) = if a < b {
            (a, b)
        } else {
            (b, a)
        };
        lemma_pow2_grows(less, more);
        let x = power2::pow2(less);
        let y = power2::pow2(more);
        assert(2 * (x * den) <= y * den) by (nonlinear_arith)
            requires
                2 * x <= y,
                den > 0,
        ;
    }
}

/// Every fraction has a power.
proof fn lemma_has_power(units: nat, den: nat, from: nat)
    requires
        den > 0,
        units < 0x20_0000_0000_0000 * (power2::pow2(from) * den),
    ensures
        exists|power: nat| is_power(units, den, power),
    decreases from,
{
    if from == 0 || units >= 0x10_0000_0000_0000 * (power2::pow2(from) * den) {
        assert(is_power(units, den, from));
    } else {
        power2::lemma_pow2_unfold(from);
        let x = power2::pow2((from - 1) as nat);
        assert((2 * x) * den == 2 * (x * den)) by (nonlinear_arith);
        lemma_has_power(units, den, (from - 1) as nat);
    }
}

proof fn lemma_pow2_above(n: nat)
    ensures
        n < power2::pow2(n),
    decreases n,
{
    power2::lemma2_to64();
    if n > 0 {
        lemma_pow2_above((n - 1) as nat);
        power2::lemma_pow2_unfold(n);
    }
}

proof fn lemma_some_power(units: nat, den: nat)
    requires
        den > 0,
    ensures
        exists|power: nat| is_power(units, den, power),
{
    lemma_pow2_above(units);
    let x = power2::pow2(units);
    assert(units < 0x20_0000_0000_0000 * (x * den)) by (nonlinear_arith)
        requires
            units < x,
            den >= 1,
    ;
    lemma_has_power(units, den, units);
}

// ---------------------------------------------------------------------------
// What is read as a number

/// How far below a number the numbers lie that are read as it, in quarters of its power: a
/// half of the way to the number before.
pub open spec fn reach_below(d: Double) -> nat {
    if d.mantissa == 0x10_0000_0000_0000 && d.power > 0 {
        1
    } else {
        2
    }
}

/// Whether a fraction lies at most half of the way to the neighbors of a number, the middle
/// counted where the mantissa is even.
pub open spec fn is_near(d: Double, units: nat, den: nat) -> bool {
    let u = power2::pow2(d.power) * den;
    let low = (4 * d.mantissa - reach_below(d)) * u;
    let high = (4 * d.mantissa + 2) * u;
    if d.mantissa % 2 == 0 {
        low <= 4 * units <= high
    } else {
        low < 4 * units < high
    }
}

/// A rounded quotient lies at most a half off.
proof fn lemma_half_even(n: nat, u: nat, h: nat)
    requires
        u > 0,
    ensures
        (scale::half_even(n, u) == h) == (if h % 2 == 0 {
            (2 * h - 1) * u <= 2 * n <= (2 * h + 1) * u
        } else {
            (2 * h - 1) * u < 2 * n < (2 * h + 1) * u
        }),
{
    let q = n / u;
    let r = n % u;
    vstd::arithmetic::div_mod::lemma_fundamental_div_mod(n as int, u as int);
    assert(n == u * q + r);
    assert(0 <= r < u);
    let x = scale::half_even(n, u) as int;
    let k = h as int;
    assert((2 * k - 1) * u == 2 * (k * u) - u) by (nonlinear_arith);
    assert((2 * k + 1) * u == 2 * (k * u) + u) by (nonlinear_arith);
    assert(u * q == q * u) by (nonlinear_arith);
    assert((q + 1) * u == q * u + u) by (nonlinear_arith);
    if k == q {
    } else if k == q + 1 {
    } else if k < q {
        assert(k * u + u <= q * u) by (nonlinear_arith)
            requires
                k + 1 <= q,
                u > 0,
        ;
    } else {
        assert(k * u >= q * u + 2 * u) by (nonlinear_arith)
            requires
                k >= q + 2,
                u > 0,
        ;
    }
}

/// The numbers that are read as a number are those that lie near it.
#[verifier::spinoff_prover]
pub proof fn lemma_read_as(d: Double, num: nat, den: nat)
    requires
        is_double(d),
        den > 0,
    ensures
        (double_of(num, den) == d) == is_near(d, in_units(num), den),
{
    if double_of(num, den) == d {
        lemma_read_is_near(d, num, den);
    }
    if is_near(d, in_units(num), den) {
        lemma_near_is_read(d, num, den);
    }
}

#[verifier::spinoff_prover]
proof fn lemma_read_is_near(d: Double, num: nat, den: nat)
    requires
        is_double(d),
        den > 0,
        double_of(num, den) == d,
    ensures
        is_near(d, in_units(num), den),
{
    let s = in_units(num);
    lemma_some_power(s, den);
    let p = choose|power: nat| is_power(s, den, power);
    let u = power2::pow2(p) * den;
    power2::lemma_pow2_pos(p);
    assert(u > 0) by (nonlinear_arith)
        requires
            u == power2::pow2(p) * den,
            power2::pow2(p) > 0,
            den > 0,
    ;
    let h = scale::half_even(s, u);
    lemma_half_even(s, u, h);
    let m = d.mantissa as int;
    if h == 0x20_0000_0000_0000 {
        power2::lemma_pow2_unfold(p + 1);
        let v = power2::pow2(d.power) * den;
        assert(v == 2 * u) by (nonlinear_arith)
            requires
                v == (2 * power2::pow2(p)) * den,
                u == power2::pow2(p) * den,
        ;
        assert(m % 2 == 0);
        assert((4 * m - 1) * v == (2 * 0x3f_ffff_ffff_ffff) * u) by (nonlinear_arith)
            requires
                m == 0x10_0000_0000_0000,
                v == 2 * u,
        ;
        assert((4 * m + 2) * v == (2 * 0x40_0000_0000_0002) * u) by (nonlinear_arith)
            requires
                m == 0x10_0000_0000_0000,
                v == 2 * u,
        ;
        assert((2 * h - 1) * u == 0x3f_ffff_ffff_ffff * u);
    } else {
        assert((4 * m - 2) * u == 2 * ((2 * m - 1) * u)) by (nonlinear_arith);
        assert((4 * m - 1) * u == 4 * (m * u) - u) by (nonlinear_arith);
        assert((4 * m + 2) * u == 2 * ((2 * m + 1) * u)) by (nonlinear_arith);
    }
}

#[verifier::spinoff_prover]
proof fn lemma_near_is_read(d: Double, num: nat, den: nat)
    requires
        is_double(d),
        den > 0,
        is_near(d, in_units(num), den),
    ensures
        double_of(num, den) == d,
{
    let s = in_units(num);
    let m = d.mantissa as int;
    let u = power2::pow2(d.power) * den;
    power2::lemma_pow2_pos(d.power);
    assert(u > 0) by (nonlinear_arith)
        requires
            u == power2::pow2(d.power) * den,
            power2::pow2(d.power) > 0,
            den > 0,
    ;
    assert((4 * m - 2) * u == 2 * ((2 * m - 1) * u)) by (nonlinear_arith);
    assert((4 * m - 2) * u == 4 * (m * u) - 2 * u) by (nonlinear_arith);
    assert((4 * m - 1) * u == 4 * (m * u) - u) by (nonlinear_arith);
    assert((4 * m + 2) * u == 2 * ((2 * m + 1) * u)) by (nonlinear_arith);
    assert((4 * m + 2) * u == 4 * (m * u) + 2 * u) by (nonlinear_arith);
    assert(m == 0x1f_ffff_ffff_ffff || m * u <= 0x1f_ffff_ffff_fffe * u) by (nonlinear_arith)
        requires
            m <= 0x1f_ffff_ffff_ffff,
            u > 0,
    ;
    assert(m == 0x1f_ffff_ffff_ffff ==> m * u == 0x1f_ffff_ffff_ffff * u);
    assert(4 * s <= 4 * (m * u) + 2 * u);
    assert(m == 0x1f_ffff_ffff_ffff ==> 4 * s < 4 * (m * u) + 2 * u);
    assert(s < 0x20_0000_0000_0000 * u);
    let p = choose|power: nat| is_power(s, den, power);
    if d.power == 0 || s >= 0x10_0000_0000_0000 * u {
        assert(is_power(s, den, d.power));
        lemma_power_is_one(s, den, p, d.power);
        lemma_half_even(s, u, d.mantissa);
    } else {
        assert(m > 0x10_0000_0000_0000 ==> m * u >= 0x10_0000_0000_0001 * u) by (nonlinear_arith)
            requires
                u > 0,
        ;
        assert(m == 0x10_0000_0000_0000);
        let less = (d.power - 1) as nat;
        power2::lemma_pow2_unfold(d.power);
        let v = power2::pow2(less) * den;
        assert(u == 2 * v) by (nonlinear_arith)
            requires
                u == (2 * power2::pow2(less)) * den,
                v == power2::pow2(less) * den,
        ;
        assert(is_power(s, den, less));
        lemma_power_is_one(s, den, p, less);
        let h: nat = 0x20_0000_0000_0000;
        assert((2 * h - 1) * v == 0x3f_ffff_ffff_ffff * v);
        assert((2 * h + 1) * v == 0x40_0000_0000_0001 * v);
        lemma_half_even(s, v, h);
    }
}

// ---------------------------------------------------------------------------
// The shortest decimal

/// So many times a power of ten, as a fraction.
pub open spec fn ratio_of(n: nat, place: int) -> (nat, nat) {
    if place >= 0 {
        (n * scale::pow10(place as nat), 1)
    } else {
        (n, scale::pow10((-place) as nat))
    }
}

/// Whether so many times a power of ten is read as a number.
pub open spec fn reads_as(d: Double, n: nat, place: int) -> bool {
    double_of(ratio_of(n, place).0, ratio_of(n, place).1) == d
}

/// How far so many times a power of ten lies from a number, in parts of a unit that depend on
/// the power.
pub open spec fn distance(d: Double, n: nat, place: int) -> nat {
    let (num, den) = ratio_of(n, place);
    let value = d.mantissa * (power2::pow2(d.power) * den);
    if in_units(num) >= value {
        (in_units(num) - value) as nat
    } else {
        (value - in_units(num)) as nat
    }
}

/// Whether so many times a power of ten is the shortest decimal that is read as a number: no
/// multiple of a greater power is, and no other multiple of this one is nearer to the number,
/// or as near and greater.
pub open spec fn is_shortest(d: Double, n: nat, place: int) -> bool {
    &&& n > 0
    &&& reads_as(d, n, place)
    &&& forall|k: nat| k > 0 ==> !#[trigger] reads_as(d, k, place + 1)
    &&& forall|k: nat| #[trigger]
        reads_as(d, k, place) ==> distance(d, n, place) < distance(d, k, place) || (distance(
            d,
            n,
            place,
        ) == distance(d, k, place) && k <= n)
}

/// Whether a product lies at most half of the way to the neighbors of a number.
spec fn is_in_band(d: Double, x: int, w: int) -> bool {
    if d.mantissa % 2 == 0 {
        (4 * d.mantissa - reach_below(d)) * w <= x <= (4 * d.mantissa + 2) * w
    } else {
        (4 * d.mantissa - reach_below(d)) * w < x < (4 * d.mantissa + 2) * w
    }
}

proof fn lemma_same_order(a: int, b: int, c: int)
    requires
        c > 0,
    ensures
        a * c < b * c <==> a < b,
        a * c <= b * c <==> a <= b,
{
    assert(a < b ==> a * c < b * c) by (nonlinear_arith)
        requires
            c > 0,
    ;
    assert(b < a ==> b * c < a * c) by (nonlinear_arith)
        requires
            c > 0,
    ;
}

/// What lies near a number stays near it when both are taken times a factor.
proof fn lemma_near_times(d: Double, units: nat, den: nat, c: nat)
    requires
        c > 0,
    ensures
        is_near(d, units, den) == is_in_band(
            d,
            (4 * units * c) as int,
            ((power2::pow2(d.power) * den) * c) as int,
        ),
{
    let u = (power2::pow2(d.power) * den) as int;
    let low = 4 * d.mantissa - reach_below(d);
    let high = 4 * d.mantissa + 2;
    lemma_same_order(low * u, 4 * units as int, c as int);
    lemma_same_order(4 * units as int, high * u, c as int);
    assert((low * u) * c == low * (u * c)) by (nonlinear_arith);
    assert((high * u) * c == high * (u * c)) by (nonlinear_arith);
}

/// The numbers at a place, over a common measure.
spec fn measure() -> nat {
    4 * (scale::pow10(400) * power2::pow2(1074))
}

/// The weight of a mantissa at a place, over the common measure.
spec fn weight_at(d: Double, steps: nat) -> nat {
    power2::pow2(d.power) * scale::pow10(steps)
}

/// What is read as a number at a place, over the common measure, and how far it is off.
#[verifier::spinoff_prover]
proof fn lemma_at_place(d: Double, k: nat, steps: nat) -> (c: nat)
    requires
        is_double(d),
    ensures
        reads_as(d, k, 400 - steps) == is_in_band(
            d,
            (k * measure()) as int,
            weight_at(d, steps) as int,
        ),
        c > 0,
        c == if steps <= 400 {
            scale::pow10(steps)
        } else {
            scale::pow10(400)
        },
        4 * c * distance(d, k, 400 - steps) == {
            let x = (k * measure()) as int;
            let v = (4 * d.mantissa) * weight_at(d, steps);
            if x >= v {
                x - v
            } else {
                v - x
            }
        },
{
    let place = 400 - steps;
    let (num, den) = ratio_of(k, place);
    let c = if steps <= 400 {
        scale::pow10(steps)
    } else {
        scale::pow10(400)
    };
    scale::lemma_pow10_pos(steps);
    scale::lemma_pow10_pos(400);
    let z = power2::pow2(1074);
    let w = power2::pow2(d.power);
    let ten = scale::pow10(400);
    if place >= 0 {
        scale::lemma_pow10_add(place as nat, steps);
        let t = scale::pow10(place as nat);
        assert(4 * ((k * t) * z) * c == k * (4 * (ten * z))) by (nonlinear_arith)
            requires
                t * c == ten,
        ;
        assert((w * 1) * c == w * c);
    } else {
        scale::lemma_pow10_add((-place) as nat, 400);
        scale::lemma_pow10_pos((-place) as nat);
        let t = scale::pow10((-place) as nat);
        assert(4 * (k * z) * c == k * (4 * (ten * z))) by (nonlinear_arith)
            requires
                c == ten,
        ;
        assert((w * t) * c == w * (t * c)) by (nonlinear_arith);
    }
    let s = in_units(num);
    let u = w * den;
    assert(4 * s * c == k * measure());
    assert(u * c == weight_at(d, steps));
    lemma_read_as(d, num, den);
    lemma_near_times(d, s, den, c);
    let m = d.mantissa;
    assert((4 * m) * (u * c) == 4 * c * (m * u)) by (nonlinear_arith);
    lemma_same_order(s as int, (m * u) as int, 4 * c as int);
    assert(s * (4 * c) == 4 * s * c) by (nonlinear_arith);
    assert((m * u) * (4 * c) == 4 * c * (m * u)) by (nonlinear_arith);
    assert(4 * c * (s - m * u) == 4 * c * s - 4 * c * (m * u)) by (nonlinear_arith);
    assert(4 * c * (m * u - s) == 4 * c * (m * u) - 4 * c * s) by (nonlinear_arith);
    assert(4 * c * s == 4 * s * c) by (nonlinear_arith);
    c
}

/// Where a number stands among the multiples of a power of ten.
spec fn stands(d: Double, n: nat, rest: nat, steps: nat) -> bool {
    &&& (4 * d.mantissa) * weight_at(d, steps) == n * measure() + rest
    &&& rest < measure()
}

/// Whether the multiple below a number is read as it.
spec fn reads_below(d: Double, rest: nat, steps: nat) -> bool {
    let reach = reach_below(d) * weight_at(d, steps);
    rest < reach || (d.mantissa % 2 == 0 && rest == reach)
}

/// Whether the multiple above a number is read as it.
spec fn reads_above(d: Double, rest: nat, steps: nat) -> bool {
    let reach = 2 * weight_at(d, steps);
    measure() < rest + reach || (d.mantissa % 2 == 0 && measure() == rest + reach)
}

/// Which multiples of a power of ten are read as a number: at most the two around it, or also
/// others beyond one that is.
#[verifier::spinoff_prover]
proof fn lemma_around(d: Double, n: nat, rest: nat, steps: nat, k: nat)
    requires
        is_double(d),
        stands(d, n, rest, steps),
    ensures
        k == n ==> reads_as(d, k, 400 - steps) == reads_below(d, rest, steps),
        k == n + 1 ==> reads_as(d, k, 400 - steps) == reads_above(d, rest, steps),
        k <= n && reads_as(d, k, 400 - steps) ==> reads_below(d, rest, steps),
        k > n && reads_as(d, k, 400 - steps) ==> reads_above(d, rest, steps),
{
    let c = lemma_at_place(d, k, steps);
    let t = measure() as int;
    let w = weight_at(d, steps) as int;
    let m = d.mantissa as int;
    let r = reach_below(d) as int;
    power2::lemma_pow2_pos(d.power);
    scale::lemma_pow10_pos(steps);
    assert(w > 0) by (nonlinear_arith)
        requires
            w == power2::pow2(d.power) * scale::pow10(steps),
            power2::pow2(d.power) > 0,
            scale::pow10(steps) > 0,
    ;
    assert((4 * m - r) * w == (4 * m) * w - r * w) by (nonlinear_arith);
    assert((4 * m + 2) * w == (4 * m) * w + 2 * w) by (nonlinear_arith);
    assert(r * w > 0) by (nonlinear_arith)
        requires
            r >= 1,
            w > 0,
    ;
    if k <= n {
        assert(k * t <= n * t) by (nonlinear_arith)
            requires
                k <= n,
                t >= 0,
        ;
    } else {
        assert(k * t >= n * t + t) by (nonlinear_arith)
            requires
                k >= n + 1,
                t >= 0,
        ;
        assert((n + 1) * t == n * t + t) by (nonlinear_arith);
    }
}

/// Zero is read as no number above it.
proof fn lemma_zero_is_far(d: Double, n: nat, rest: nat, steps: nat)
    requires
        d.mantissa > 0,
        stands(d, n, rest, steps),
    ensures
        n == 0 ==> !reads_below(d, rest, steps),
        n == 0 ==> reach_below(d) * weight_at(d, steps) <= rest,
{
    let w = weight_at(d, steps);
    power2::lemma_pow2_pos(d.power);
    scale::lemma_pow10_pos(steps);
    assert(w > 0) by (nonlinear_arith)
        requires
            w == power2::pow2(d.power) * scale::pow10(steps),
            power2::pow2(d.power) > 0,
            scale::pow10(steps) > 0,
    ;
    assert((4 * d.mantissa) * w >= 4 * w) by (nonlinear_arith)
        requires
            d.mantissa >= 1,
    ;
    assert(reach_below(d) * w <= 2 * w) by (nonlinear_arith)
        requires
            reach_below(d) <= 2,
    ;
    assert(0 * measure() == 0);
}

/// The shortest decimal, once one of the multiples around a number is read as it.
#[verifier::spinoff_prover]
proof fn lemma_found(d: Double, n: nat, rest: nat, steps: nat, up: bool)
    requires
        is_double(d),
        d.mantissa > 0,
        stands(d, n, rest, steps),
        forall|k: nat| k > 0 ==> !#[trigger] reads_as(d, k, 400 - steps + 1),
        up ==> reads_above(d, rest, steps),
        !up ==> n > 0 && reads_below(d, rest, steps),
        up && n > 0 && reads_below(d, rest, steps) ==> 2 * rest >= measure(),
        !up && reads_above(d, rest, steps) ==> 2 * rest < measure(),
    ensures
        is_shortest(
            d,
            if up {
                n + 1
            } else {
                n
            },
            400 - steps,
        ),
{
    let place = 400 - steps;
    let best: nat = if up {
        n + 1
    } else {
        n
    };
    lemma_around(d, n, rest, steps, best);
    let t = measure() as int;
    lemma_zero_is_far(d, n, rest, steps);
    assert((n + 1) * t == n * t + t) by (nonlinear_arith);
    let c = lemma_at_place(d, best, steps);
    assert forall|k: nat| #[trigger] reads_as(d, k, place) implies distance(d, best, place)
        < distance(d, k, place) || (distance(d, best, place) == distance(d, k, place) && k
        <= best) by {
        lemma_around(d, n, rest, steps, k);
        lemma_at_place(d, k, steps);
        if k <= n {
            assert(k < n ==> k * t <= n * t - t) by (nonlinear_arith)
                requires
                    k <= n,
                    t >= 0,
            ;
        } else {
            assert(k > n + 1 ==> k * t >= n * t + 2 * t) by (nonlinear_arith)
                requires
                    t >= 0,
            ;
        }
        lemma_same_order(distance(d, best, place) as int, distance(d, k, place) as int, 4 * c as int);
        assert(distance(d, best, place) * (4 * c) == 4 * c * distance(d, best, place))
            by (nonlinear_arith);
        assert(distance(d, k, place) * (4 * c) == 4 * c * distance(d, k, place))
            by (nonlinear_arith);
    }
}

/// Takes a number times a power of two.
fn double(big: &mut Big, times: u32)
    ensures
        final(big)@ == old(big)@ * power2::pow2(times as nat),
{
    let ghost before = big@;
    let mut i: u32 = 0;
    proof {
        power2::lemma2_to64();
        assert(before * 1 == before);
    }
    while i < times
        invariant
            i <= times,
            big@ == before * power2::pow2(i as nat),
        decreases times - i,
    {
        big.scale(2, 0);
        proof {
            power2::lemma_pow2_unfold((i + 1) as nat);
            let x = power2::pow2(i as nat);
            assert(before * (2 * x) == 2 * (before * x)) by (nonlinear_arith);
        }
        i = i + 1;
    }
}

/// A number times a power of two.
fn doubled(value: u64, times: u32) -> (big: Big)
    ensures
        big@ == value * power2::pow2(times as nat),
{
    let mut big = Big::of(value);
    double(&mut big, times);
    big
}

/// Takes a number times a power of ten.
fn shift(big: &mut Big, places: u128)
    ensures
        final(big)@ == old(big)@ * scale::pow10(places as nat),
{
    let ghost before = big@;
    let mut i: u128 = 0;
    assert(before * 1 == before);
    while i < places
        invariant
            i <= places,
            big@ == before * scale::pow10(i as nat),
        decreases places - i,
    {
        big.scale(10, 0);
        proof {
            let x = scale::pow10(i as nat);
            assert(before * (10 * x) == 10 * (before * x)) by (nonlinear_arith);
        }
        i = i + 1;
    }
}

/// Counts digits up by one.
fn increment(digits: &mut Vec<u8>)
    requires
        scale::are_digits(old(digits)@),
        scale::value_of(old(digits)@) + 1 < scale::pow10(old(digits)@.len()),
    ensures
        scale::are_digits(final(digits)@),
        final(digits)@.len() == old(digits)@.len(),
        scale::value_of(final(digits)@) == scale::value_of(old(digits)@) + 1,
{
    let ghost before = digits@;
    let n: usize = digits.len();
    let mut i: usize = n;
    assert(before.take(n as int) =~= before);
    assert(before.skip(n as int) =~= Seq::<u8>::empty());
    while i > 0 && digits[i - 1] == 9
        invariant
            i <= n,
            n == before.len(),
            digits@.len() == n,
            scale::are_digits(before),
            scale::are_digits(digits@),
            forall|k: int| 0 <= k < i ==> digits@[k] == before[k],
            forall|k: int| i <= k < n ==> #[trigger] digits@[k] == 0,
            scale::value_of(before.skip(i as int)) + 1 == scale::pow10((n - i) as nat),
        decreases i,
    {
        let ghost tail = before.skip(i as int);
        digits.set(i - 1, 0);
        proof {
            assert(before.skip(i - 1) =~= seq![9u8] + tail);
            scale::lemma_value_concat(seq![9u8], tail);
            scale::lemma_value_one(9);
        }
        i = i - 1;
    }
    let ghost head = before.take(i as int);
    let ghost tail = before.skip(i as int);
    proof {
        assert(before =~= head + tail);
        scale::lemma_value_concat(head, tail);
        if i == 0 {
            assert(head =~= Seq::<u8>::empty());
            assert(0 * scale::pow10(tail.len()) == 0);
        }
    }
    let ghost zeros = digits@.skip(i as int);
    let digit: u8 = digits[i - 1];
    assert(digits@[i - 1] < 10);
    digits.set(i - 1, digit + 1);
    proof {
        let now = digits@.take(i as int);
        assert(digits@ =~= now + zeros);
        scale::lemma_value_concat(now, zeros);
        assert forall|k: int| 0 <= k < zeros.len() implies #[trigger] zeros[k] == 0 by {
            assert(zeros[k] == digits@[i + k]);
        }
        scale::lemma_value_zero(zeros);
        assert(now.drop_last() =~= head.drop_last());
        let a = scale::value_of(head) as int;
        let t = scale::pow10(tail.len()) as int;
        assert((a + 1) * t == a * t + t) by (nonlinear_arith);
    }
}

/// A number and its reach lie below the measure where no place is given yet.
proof fn lemma_below_measure(d: Double)
    requires
        is_double(d),
        d.power <= 2045,
    ensures
        (4 * d.mantissa + 2) * weight_at(d, 0) < measure(),
{
    let w = power2::pow2(d.power);
    assert(w * 1 == w);
    if d.power < 2045 {
        lemma_pow2_grows(d.power, 2045);
    }
    power2::lemma_pow2_pos(d.power);
    let z = power2::pow2(1074);
    power2::lemma_pow2_pos(1074);
    scale::lemma_pow10_above_pow2(400);
    power2::lemma_pow2_adds(1074, 971);
    power2::lemma_pow2_adds(971, 229);
    power2::lemma_pow2_adds(64, 165);
    power2::lemma_pow2_pos(165);
    power2::lemma_pow2_pos(971);
    power2::lemma2_to64();
    let y = power2::pow2(971);
    let x = power2::pow2(229);
    assert(x >= 0x1_0000_0000_0000_0000) by (nonlinear_arith)
        requires
            x == 0x1_0000_0000_0000_0000 * power2::pow2(165),
            power2::pow2(165) >= 1,
    ;
    let m = d.mantissa as int;
    assert((4 * m + 2) * w < 0x1_0000_0000_0000_0000 * (z * y)) by (nonlinear_arith)
        requires
            4 * m + 2 < 0x1_0000_0000_0000_0000,
            0 < w <= z * y,
            m >= 0,
    ;
    let ten = scale::pow10(400);
    assert(ten * z >= 0x1_0000_0000_0000_0000 * (z * y)) by (nonlinear_arith)
        requires
            ten >= y * x,
            x >= 0x1_0000_0000_0000_0000,
            z >= 0,
            y >= 0,
    ;
}

/// The places behind one at which no decimal is read as a number lead to one at which a
/// decimal is.
proof fn lemma_has_shortest_behind(d: Double, steps: nat)
    requires
        is_double(d),
        d.mantissa > 0,
        weight_at(d, steps) < measure(),
        forall|k: nat| k > 0 ==> !#[trigger] reads_as(d, k, 400 - steps),
    ensures
        exists|n: nat, place: int| is_shortest(d, n, place),
    decreases measure() - weight_at(d, steps),
{
    let next = steps + 1;
    let t = measure();
    let v = (4 * d.mantissa) * weight_at(d, next);
    let n = v / t;
    let rest = v % t;
    vstd::arithmetic::div_mod::lemma_fundamental_div_mod(v as int, t as int);
    assert(n * t == t * n) by (nonlinear_arith);
    assert(stands(d, n, rest, next));
    assert forall|k: nat| k > 0 implies !#[trigger] reads_as(d, k, 400 - next + 1) by {
        assert(400 - next + 1 == 400 - steps);
    }
    lemma_zero_is_far(d, n, rest, next);
    let down = reads_below(d, rest, next);
    let up = reads_above(d, rest, next);
    if down || up {
        let last = if down && up {
            2 * rest >= t
        } else {
            up
        };
        lemma_found(d, n, rest, next, last);
    } else {
        assert forall|k: nat| k > 0 implies !#[trigger] reads_as(d, k, 400 - next) by {
            lemma_around(d, n, rest, next, k);
        }
        let x = scale::pow10(steps);
        let p = power2::pow2(d.power);
        let w = weight_at(d, steps);
        assert(p * (10 * x) == 10 * (p * x)) by (nonlinear_arith);
        power2::lemma_pow2_pos(d.power);
        scale::lemma_pow10_pos(steps);
        assert(p * x > 0) by (nonlinear_arith)
            requires
                p > 0,
                x > 0,
        ;
        assert(reach_below(d) * (10 * w) >= 10 * w) by (nonlinear_arith)
            requires
                reach_below(d) >= 1,
        ;
        lemma_has_shortest_behind(d, next);
    }
}

/// Every finite number above zero has a shortest decimal.
pub proof fn lemma_has_shortest(d: Double)
    requires
        is_double(d),
        d.mantissa > 0,
        d.power <= 2045,
    ensures
        exists|n: nat, place: int| is_shortest(d, n, place),
{
    lemma_below_measure(d);
    let w = weight_at(d, 0);
    let m = d.mantissa as int;
    assert((4 * m + 2) * w == (4 * m) * w + 2 * w) by (nonlinear_arith);
    let rest = (4 * d.mantissa) * w;
    assert(rest >= w) by (nonlinear_arith)
        requires
            rest == (4 * m) * w,
            m >= 1,
    ;
    assert(0 * measure() == 0);
    assert(stands(d, 0, rest, 0));
    lemma_zero_is_far(d, 0, rest, 0);
    assert forall|k: nat| k > 0 implies !#[trigger] reads_as(d, k, 400) by {
        lemma_around(d, 0, rest, 0, k);
    }
    lemma_has_shortest_behind(d, 0);
}

/// The digits of the shortest decimal that is read as a number, the first of them at the
/// place 399.
#[verifier::spinoff_prover]
#[verifier::rlimit(60)]
fn shortest_digits(mantissa: u64, power: u32, Ghost(d): Ghost<Double>) -> (digits: Vec<u8>)
    requires
        d == (Double { mantissa: mantissa as nat, power: power as nat }),
        is_double(d),
        mantissa > 0,
        power <= 2045,
    ensures
        scale::are_digits(digits@),
        is_shortest(d, scale::value_of(digits@), 400 - digits@.len()),
{
    let even = mantissa % 2 == 0;
    let reach: u64 = if mantissa == 0x10_0000_0000_0000 && power > 0 {
        1
    } else {
        2
    };
    let mut total = doubled(4, 1074);
    shift(&mut total, 400);
    let mut rest = doubled(4 * mantissa, power);
    let mut below = doubled(reach, power);
    let mut above = doubled(2, power);
    let mut digits: Vec<u8> = Vec::new();
    let mut started = false;
    proof {
        lemma_below_measure(d);
        let z = power2::pow2(1074);
        let ten = scale::pow10(400);
        assert((4 * z) * ten == 4 * (ten * z)) by (nonlinear_arith);
        let w = weight_at(d, 0);
        assert(w == power2::pow2(d.power)) by {
            assert(power2::pow2(d.power) * 1 == power2::pow2(d.power));
        }
        let m = d.mantissa as int;
        assert((4 * m + 2) * w == (4 * m) * w + 2 * w) by (nonlinear_arith);
        assert(0 * measure() == 0);
        assert(1 * measure() == measure());
        assert(stands(d, 0, rest@, 0));
        power2::lemma_pow2_pos(d.power);
        assert(reach * w > 0) by (nonlinear_arith)
            requires
                reach >= 1,
                w > 0,
        ;
        lemma_zero_is_far(d, 0, rest@, 0);
        assert forall|k: nat| k > 0 implies !#[trigger] reads_as(d, k, 400) by {
            lemma_around(d, 0, rest@, 0, k);
        }
    }
    loop
        invariant
            d == (Double { mantissa: mantissa as nat, power: power as nat }),
            is_double(d),
            mantissa > 0,
            even == (mantissa % 2 == 0),
            scale::are_digits(digits@),
            started == (scale::value_of(digits@) > 0),
            total@ == measure(),
            stands(d, scale::value_of(digits@), rest@, digits@.len()),
            below@ == reach_below(d) * weight_at(d, digits@.len()),
            above@ == 2 * weight_at(d, digits@.len()),
            below@ < total@,
            below@ > 0,
            (4 * d.mantissa + 2) * weight_at(d, digits@.len()) < scale::pow10(digits@.len())
                * measure(),
            forall|k: nat| k > 0 ==> !#[trigger] reads_as(d, k, 400 - digits@.len()),
        decreases total@ - below@,
    {
        let ghost steps = digits@.len();
        let ghost n = scale::value_of(digits@);
        let ghost w = weight_at(d, steps);
        let ghost t = measure();
        let ghost before = digits@;
        rest.scale(10, 0);
        below.scale(10, 0);
        above.scale(10, 0);
        let ghost ten = rest@;
        let mut digit: u8 = 0;
        assert(0 * t == 0);
        while !rest.is_less(&total)
            invariant
                total@ == t,
                t > 0,
                ten < 10 * t,
                digit < 10,
                rest@ + digit * t == ten,
            decreases rest@,
        {
            proof {
                assert((digit + 1) * t == digit * t + t) by (nonlinear_arith);
                assert(digit >= 9 ==> digit * t >= 9 * t) by (nonlinear_arith)
                    requires
                        t > 0,
                ;
            }
            rest.take_off(&total);
            digit = digit + 1;
        }
        digits.push(digit);
        started = started || digit > 0;
        let ghost next = digits@.len();
        let ghost now = scale::value_of(digits@);
        proof {
            assert(digits@.drop_last() =~= before);
            assert(now == n * 10 + digit);
            let x = scale::pow10(steps);
            let p = power2::pow2(d.power);
            assert(p * (10 * x) == 10 * (p * x)) by (nonlinear_arith);
            assert(weight_at(d, next) == 10 * w);
            let m = d.mantissa as int;
            assert((4 * m) * (10 * w) == 10 * ((4 * m) * w)) by (nonlinear_arith);
            assert((4 * m + 2) * (10 * w) == 10 * ((4 * m + 2) * w)) by (nonlinear_arith);
            assert((10 * x) * t == 10 * (x * t)) by (nonlinear_arith);
            assert((n * 10 + digit) * t == 10 * (n * t) + digit * t) by (nonlinear_arith);
            assert(reach_below(d) * (10 * w) == 10 * (reach_below(d) * w)) by (nonlinear_arith);
            assert(stands(d, now, rest@, next));
            lemma_zero_is_far(d, now, rest@, next);
        }
        let down = started && (rest.is_less(&below) || (even && !below.is_less(&rest)));
        let edge = rest.plus(&above);
        let up = total.is_less(&edge) || (even && !edge.is_less(&total));
        if down || up {
            let twice = rest.plus(&rest);
            let last = if down && up {
                !twice.is_less(&total)
            } else {
                up
            };
            proof {
                assert forall|k: nat| k > 0 implies !#[trigger] reads_as(
                    d,
                    k,
                    400 - next + 1,
                ) by {
                    assert(400 - next + 1 == 400 - steps);
                }
                lemma_found(d, now, rest@, next, last);
            }
            if last {
                proof {
                    let m = d.mantissa as int;
                    let v = weight_at(d, next);
                    assert((4 * m + 2) * v == (4 * m) * v + 2 * v) by (nonlinear_arith);
                    assert((now + 1) * t == now * t + t) by (nonlinear_arith);
                    lemma_same_order((now + 1) as int, scale::pow10(next) as int, t as int);
                }
                increment(&mut digits);
            }
            return digits;
        }
        proof {
            assert forall|k: nat| k > 0 implies !#[trigger] reads_as(d, k, 400 - next) by {
                lemma_around(d, now, rest@, next, k);
            }
        }
    }
}

/// A shorter decimal can be written longer.
proof fn lemma_longer(d: Double, n: nat, place: int, steps: nat)
    requires
        is_double(d),
        reads_as(d, n, place),
    ensures
        reads_as(d, n * scale::pow10(steps), place - steps),
    decreases steps,
{
    if steps == 0 {
        assert(n * 1 == n);
    } else {
        lemma_longer(d, n, place, (steps - 1) as nat);
        let x = scale::pow10((steps - 1) as nat);
        let k = n * x;
        let at = place - (steps - 1);
        assert(n * (10 * x) == 10 * (n * x)) by (nonlinear_arith);
        let (num, den) = ratio_of(k, at);
        let (num2, den2) = ratio_of(10 * k, at - 1);
        if at >= 1 {
            let t = scale::pow10((at - 1) as nat);
            assert(k * (10 * t) == (10 * k) * t) by (nonlinear_arith);
        } else {
            scale::lemma_pow10_pos((-at) as nat);
            let t = scale::pow10((-at) as nat);
            if at == 0 {
                assert(k * 1 == k);
            }
            assert(den == t && num == k);
            assert(den2 == 10 * t && num2 == 10 * k);
            lemma_read_as(d, num, den);
            lemma_read_as(d, num2, den2);
            lemma_near_times(d, in_units(num), den, 10);
            lemma_near_times(d, in_units(num2), den2, 1);
            let z = power2::pow2(1074);
            let p = power2::pow2(d.power);
            assert((10 * k) * z == 10 * (k * z)) by (nonlinear_arith);
            assert(p * (10 * t) == (p * t) * 10) by (nonlinear_arith);
            assert(4 * in_units(num2) * 1 == 4 * in_units(num) * 10);
            assert((p * den2) * 1 == (p * den) * 10);
        }
    }
}

/// There is one shortest decimal.
pub proof fn lemma_one_shortest(d: Double, n: nat, place: int, k: nat, other: int)
    requires
        is_double(d),
        is_shortest(d, n, place),
        is_shortest(d, k, other),
    ensures
        n == k,
        place == other,
{
    if place < other {
        let steps = (other - place - 1) as nat;
        lemma_longer(d, k, other, steps);
        scale::lemma_pow10_pos(steps);
        let t = scale::pow10(steps);
        assert(k * t > 0) by (nonlinear_arith)
            requires
                k > 0,
                t > 0,
        ;
        assert(reads_as(d, k * t, place + 1));
    } else if other < place {
        let steps = (place - other - 1) as nat;
        lemma_longer(d, n, place, steps);
        scale::lemma_pow10_pos(steps);
        let t = scale::pow10(steps);
        assert(n * t > 0) by (nonlinear_arith)
            requires
                n > 0,
                t > 0,
        ;
        assert(reads_as(d, n * t, other + 1));
    }
}

// ---------------------------------------------------------------------------
// Reading

/// The powers of finite numbers.
proof fn lemma_last_power(num: nat, den: nat, power: nat)
    requires
        den > 0,
        num < scale::binary64_end() * den,
    ensures
        in_units(num) >= 0x20_0000_0000_0000 * (power2::pow2(power) * den) ==> power < 2045,
        power == 2045 ==> 2 * in_units(num) < 0x3f_ffff_ffff_ffff * (power2::pow2(power) * den),
{
    let z = power2::pow2(1074);
    let y = power2::pow2(970);
    power2::lemma_pow2_pos(1074);
    power2::lemma_pow2_pos(970);
    power2::lemma_pow2_adds(1074, 970);
    power2::lemma_pow2_unfold(2045);
    let x = power2::pow2(2045);
    assert(x == 2 * (z * y));
    assert(num * z < 0x3f_ffff_ffff_ffff * ((z * y) * den)) by (nonlinear_arith)
        requires
            num < (0x3f_ffff_ffff_ffff * y) * den,
            z > 0,
    ;
    let w = (z * y) * den;
    assert(x * den == 2 * w) by (nonlinear_arith)
        requires
            x == 2 * (z * y),
            w == (z * y) * den,
    ;
    assert(w >= 0) by (nonlinear_arith)
        requires
            w == (z * y) * den,
            z >= 0,
            y >= 0,
            den >= 0,
    ;
    if power > 2045 {
        lemma_pow2_grows(2045, power);
        let p = power2::pow2(power);
        assert(p * den >= x * den) by (nonlinear_arith)
            requires
                p >= x,
                den >= 0,
        ;
    }
}

/// What is read from a finite fraction is a finite number.
#[verifier::spinoff_prover]
pub proof fn lemma_finite(num: nat, den: nat)
    requires
        den > 0,
        num < scale::binary64_end() * den,
    ensures
        is_double(double_of(num, den)),
        double_of(num, den).power <= 2045,
{
    let units = in_units(num);
    lemma_some_power(units, den);
    let p = choose|power: nat| is_power(units, den, power);
    let u = power2::pow2(p) * den;
    power2::lemma_pow2_pos(p);
    assert(u > 0) by (nonlinear_arith)
        requires
            u == power2::pow2(p) * den,
            power2::pow2(p) > 0,
            den > 0,
    ;
    if p > 0 {
        power2::lemma_pow2_unfold(p);
        let less = (p - 1) as nat;
        let x = power2::pow2(less);
        assert((2 * x) * den == 2 * (x * den)) by (nonlinear_arith);
        lemma_last_power(num, den, less);
    }
    lemma_last_power(num, den, p);
    let h = scale::half_even(units, u);
    lemma_half_even(units, u, h);
    lemma_half_even(units, u, 0x20_0000_0000_0000);
    let k = h as int;
    assert((2 * k - 1) * u == 2 * (k * u) - u) by (nonlinear_arith);
    assert((2 * k + 1) * u == 2 * (k * u) + u) by (nonlinear_arith);
    assert(k > 0x20_0000_0000_0000 ==> k * u >= 0x20_0000_0000_0001 * u) by (nonlinear_arith)
        requires
            u > 0,
    ;
    assert(k < 0x10_0000_0000_0000 ==> k * u <= 0x0f_ffff_ffff_ffff * u) by (nonlinear_arith)
        requires
            u > 0,
    ;
}

/// A number that is read from a fraction and is finite is read from a finite one.
pub proof fn lemma_read_from_finite(d: Double, num: nat, den: nat)
    requires
        is_double(d),
        d.power <= 2045,
        den > 0,
        double_of(num, den) == d,
    ensures
        num < scale::binary64_end() * den,
{
    lemma_read_as(d, num, den);
    let units = in_units(num);
    let z = power2::pow2(1074);
    let y = power2::pow2(970);
    power2::lemma_pow2_pos(1074);
    power2::lemma_pow2_pos(970);
    power2::lemma_pow2_adds(1074, 970);
    power2::lemma_pow2_unfold(2045);
    if d.power < 2045 {
        lemma_pow2_grows(d.power, 2045);
    }
    power2::lemma_pow2_pos(d.power);
    let p = power2::pow2(d.power);
    let u = p * den;
    let w = (z * y) * den;
    assert(u <= 2 * w) by (nonlinear_arith)
        requires
            u == p * den,
            p <= 2 * (z * y),
            w == (z * y) * den,
            den >= 0,
    ;
    assert(u > 0) by (nonlinear_arith)
        requires
            u == p * den,
            p > 0,
            den > 0,
    ;
    let m = d.mantissa as int;
    assert((4 * m + 2) * u == 4 * (m * u) + 2 * u) by (nonlinear_arith);
    assert(m == 0x1f_ffff_ffff_ffff || m * u <= 0x1f_ffff_ffff_fffe * u) by (nonlinear_arith)
        requires
            m <= 0x1f_ffff_ffff_ffff,
            u > 0,
    ;
    assert(m == 0x1f_ffff_ffff_ffff ==> m * u == 0x1f_ffff_ffff_ffff * u);
    assert(4 * units < 0x7f_ffff_ffff_fffe * u);
    assert(units < 0x3f_ffff_ffff_ffff * w);
    let e = scale::binary64_end();
    assert(0x3f_ffff_ffff_ffff * w == (e * den) * z) by (nonlinear_arith)
        requires
            w == (z * y) * den,
            e == 0x3f_ffff_ffff_ffff * y,
    ;
    lemma_same_order(num as int, (e * den) as int, z as int);
}

/// The binary64 number nearest to a fraction.
#[verifier::spinoff_prover]
#[verifier::rlimit(40)]
fn nearest(num: Big, den: &Big) -> (result: (u64, u32))
    requires
        den@ > 0,
        num@ < scale::binary64_end() * den@,
    ensures
        ({
            let d = Double { mantissa: result.0 as nat, power: result.1 as nat };
            d == double_of(num@, den@) && is_double(d) && d.power <= 2045
        }),
{
    let ghost n = num@;
    let mut rest = num;
    double(&mut rest, 1074);
    let mut edge = den.copy();
    double(&mut edge, 53);
    let ghost units = rest@;
    let mut power: u32 = 0;
    proof {
        power2::lemma2_to64();
        power2::lemma_pow2_adds(32, 21);
        assert(power2::pow2(53) == 0x20_0000_0000_0000);
        assert(power2::pow2(0) * den@ == den@) by {
            assert(1 * den@ == den@);
        }
        assert(den@ * power2::pow2(53) == den@ * 0x20_0000_0000_0000);
    }
    while !rest.is_less(&edge)
        invariant
            units == rest@,
            units == in_units(n),
            den@ > 0,
            n < scale::binary64_end() * den@,
            edge@ == 0x20_0000_0000_0000 * (power2::pow2(power as nat) * den@),
            power > 0 ==> units >= 0x10_0000_0000_0000 * (power2::pow2(power as nat) * den@),
            power <= 2045,
            edge@ > 0,
        decreases (if rest@ < edge@ {
            0
        } else {
            rest@ - edge@ + 1
        }),
    {
        proof {
            lemma_last_power(n, den@, power as nat);
            power2::lemma_pow2_unfold((power + 1) as nat);
            let x = power2::pow2(power as nat);
            assert((2 * x) * den@ == 2 * (x * den@)) by (nonlinear_arith);
        }
        edge.scale(2, 0);
        power = power + 1;
    }
    let ghost u = power2::pow2(power as nat) * den@;
    let mut q: u64 = 0;
    let mut i: u32 = 0;
    proof {
        assert(is_power(units, den@, power as nat));
        let p = choose|p: nat| is_power(units, den@, p);
        lemma_power_is_one(units, den@, p, power as nat);
        assert(units * 1 == units);
        assert(0 * edge@ == 0);
    }
    while i < 53
        invariant
            i <= 53,
            edge@ == 0x20_0000_0000_0000 * u,
            rest@ < edge@,
            units * power2::pow2(i as nat) == q * edge@ + rest@,
            q < power2::pow2(i as nat),
            power2::pow2(53) == 0x20_0000_0000_0000,
        decreases 53 - i,
    {
        proof {
            power2::lemma_pow2_unfold((i + 1) as nat);
            let x = power2::pow2(i as nat);
            if i < 52 {
                lemma_pow2_grows((i + 1) as nat, 53);
            }
            assert(units * (2 * x) == 2 * (units * x)) by (nonlinear_arith);
            let e = edge@;
            assert((2 * q) * e == 2 * (q * e)) by (nonlinear_arith);
            assert((2 * q + 1) * e == 2 * (q * e) + e) by (nonlinear_arith);
        }
        rest.scale(2, 0);
        q = 2 * q;
        if !rest.is_less(&edge) {
            rest.take_off(&edge);
            q = q + 1;
        }
        i = i + 1;
    }
    let ghost r = units - q * u;
    proof {
        let b: int = 0x20_0000_0000_0000;
        assert(q * (b * u) == b * (q * u)) by (nonlinear_arith);
        assert(units * power2::pow2(53) == units * b);
        assert(rest@ == b * r);
        assert(u > 0);
        vstd::arithmetic::div_mod::lemma_fundamental_div_mod_converse(
            units as int,
            u as int,
            q as int,
            r,
        );
        assert(units / u == q && units % u == r);
    }
    let twice = rest.plus(&rest);
    let up = edge.is_less(&twice) || (!twice.is_less(&edge) && q % 2 == 1);
    let mantissa: u64 = if up {
        q + 1
    } else {
        q
    };
    proof {
        assert(mantissa == scale::half_even(units, u));
        lemma_finite(n, den@);
    }
    if mantissa == 0x20_0000_0000_0000 {
        (0x10_0000_0000_0000, power + 1)
    } else {
        (mantissa, power)
    }
}

/// What is less than half of the least number above zero is read as zero.
pub proof fn lemma_read_as_zero(num: nat, den: nat)
    requires
        den > 0,
        2 * in_units(num) <= den,
    ensures
        double_of(num, den) == (Double { mantissa: 0, power: 0 }),
{
    let d = Double { mantissa: 0, power: 0 };
    power2::lemma2_to64();
    let u = power2::pow2(0) * den;
    assert(u == den) by {
        assert(1 * den == den);
    }
    lemma_read_as(d, num, den);
    assert((4 * 0 - 2) * u == -2 * u) by (nonlinear_arith);
    assert((4 * 0 + 2) * u == 2 * u) by (nonlinear_arith);
}

/// The binary64 number that digits and a point stand for.
#[verifier::spinoff_prover]
#[verifier::rlimit(40)]
fn double_of_digits(ds: Vec<u8>, point: i128, Ghost(cs): Ghost<Seq<char>>, Ghost(
    exponent,
): Ghost<int>) -> (result: (u64, u32))
    requires
        scale::is_decimal(ds@, point as int, (cs, exponent)),
        scale::is_finite_decimal(cs, exponent),
    ensures
        ({
            let d = Double { mantissa: result.0 as nat, power: result.1 as nat };
            let (num, den) = ratio_of(scale::digits_nat(cs), exponent);
            d == double_of(num, den) && is_double(d) && d.power <= 2045
        }),
{
    proof {
        scale::lemma_same_digits(ds@, cs);
    }
    let n: usize = ds.len();
    let ghost value = scale::value_of(ds@);
    let ghost (num, den) = ratio_of(value, exponent);
    proof {
        if exponent < 0 {
            scale::lemma_pow10_pos((-exponent) as nat);
        }
    }
    let mut zeros: usize = 0;
    while zeros < n && ds[zeros] == 0
        invariant
            zeros <= n,
            n == ds@.len(),
            forall|k: int| 0 <= k < zeros ==> #[trigger] ds@[k] == 0,
        decreases n - zeros,
    {
        zeros = zeros + 1;
    }
    let ghost digits = ds@.skip(zeros as int);
    let ghost m = digits.len();
    proof {
        let head = ds@.take(zeros as int);
        assert(ds@ =~= head + digits);
        scale::lemma_value_concat(head, digits);
        scale::lemma_value_zero(head);
        assert(0 * scale::pow10(digits.len()) == 0);
        assert(scale::value_of(digits) == value);
        assert forall|k: int| 0 <= k < digits.len() implies #[trigger] digits[k] < 10 by {
            assert(digits[k] == ds@[zeros + k]);
        }
        scale::lemma_value_bound(digits);
    }
    if zeros == n {
        proof {
            assert(digits =~= Seq::<u8>::empty());
            assert(value == 0);
            if exponent >= 0 {
                assert(0 * scale::pow10(exponent as nat) == 0);
            }
            assert(num == 0);
            assert(0 * power2::pow2(1074) == 0);
            lemma_read_as_zero(num, den);
        }
        return (0, 0);
    }
    proof {
        scale::lemma_leading_digit(digits);
        if exponent + m > 400 {
            scale::lemma_not_finite(value, m, exponent, cs);
        }
    }
    let left: i128 = point - zeros as i128;
    if left < -400 {
        proof {
            assert(exponent + m < -400);
            let gap = (-exponent - m) as nat;
            scale::lemma_pow10_add(m, gap);
            scale::lemma_pow10_add(400, (gap - 400) as nat);
            scale::lemma_pow10_pos((gap - 400) as nat);
            scale::lemma_pow10_above_pow2(400);
            power2::lemma_pow2_adds(1074, 126);
            power2::lemma_pow2_pos(1074);
            power2::lemma_pow2_unfold(126);
            power2::lemma_pow2_pos(125);
            let z = power2::pow2(1074);
            let t = scale::pow10(m);
            let x = scale::pow10(gap);
            assert(x >= 2 * z) by (nonlinear_arith)
                requires
                    x == scale::pow10(400) * scale::pow10((gap - 400) as nat),
                    scale::pow10((gap - 400) as nat) >= 1,
                    scale::pow10(400) >= z * power2::pow2(126),
                    power2::pow2(126) >= 2,
                    z >= 0,
            ;
            assert(2 * (value * z) <= t * x) by (nonlinear_arith)
                requires
                    value <= t,
                    2 * z <= x,
                    z >= 0,
                    value >= 0,
            ;
            lemma_read_as_zero(num, den);
        }
        return (0, 0);
    }
    let places: i128 = point - n as i128;
    assert(places == exponent);
    let mut top = Big::of(0);
    let mut i: usize = 0;
    assert(ds@.take(0) =~= Seq::<u8>::empty());
    while i < n
        invariant
            i <= n,
            n == ds@.len(),
            top@ == scale::value_of(ds@.take(i as int)),
        decreases n - i,
    {
        top.scale(10, ds[i] as u32);
        assert(ds@.take(i + 1).drop_last() =~= ds@.take(i as int));
        i = i + 1;
    }
    assert(ds@.take(n as int) =~= ds@);
    let mut bottom = Big::of(1);
    if places >= 0 {
        shift(&mut top, places as u128);
    } else {
        shift(&mut bottom, (-places) as u128);
        assert(1 * scale::pow10((-exponent) as nat) == scale::pow10((-exponent) as nat));
    }
    assert(top@ == num);
    assert(bottom@ == den);
    assert(num < scale::binary64_end() * den) by {
        assert(scale::binary64_end() * 1 == scale::binary64_end());
    }
    nearest(top, &bottom)
}

// ---------------------------------------------------------------------------
// Writing

/// So many times a power of ten, as a decimal without an exponent.
pub open spec fn written(n: nat, place: int) -> Seq<char> {
    if place >= 0 {
        text::decimal_text(n * scale::pow10(place as nat))
    } else {
        let one = scale::pow10((-place) as nat);
        text::decimal_text(n / one) + seq!['.'] + scale::fixed_digits(n % one, (-place) as nat)
    }
}

/// How a number is spelled: as the shortest decimal that is read as it.
pub open spec fn double_text(d: Double) -> Seq<char> {
    if d.mantissa == 0 {
        seq!['0']
    } else {
        let (n, place) = choose|n: nat, place: int| is_shortest(d, n, place);
        written(n, place)
    }
}

/// A text behind its sign.
pub open spec fn unsigned(s: Seq<char>) -> Seq<char> {
    if s.len() > 0 && (s[0] == '-' || s[0] == '+') {
        s.drop_first()
    } else {
        s
    }
}

/// The binary64 number that a decimal is read as, and whether it has a minus.
pub open spec fn number_in(s: Seq<char>) -> Option<(bool, Double)> {
    match scale::decimal_parts(unsigned(s)) {
        None => None,
        Some((digits, exponent)) => {
            let (num, den) = ratio_of(scale::digits_nat(digits), exponent);
            Some((s.len() > 0 && s[0] == '-', double_of(num, den)))
        },
    }
}

/// How a minus is written.
pub open spec fn minus_text(minus: bool) -> Seq<char> {
    if minus {
        seq!['-']
    } else {
        Seq::empty()
    }
}

/// The shortest spelling of the binary64 number that a decimal is read as.
pub open spec fn spelled(s: Seq<char>) -> Seq<char> {
    match number_in(s) {
        None => s,
        Some((minus, d)) => minus_text(minus) + double_text(d),
    }
}

/// The characters of digits.
spec fn chars_for(ds: Seq<u8>) -> Seq<char> {
    Seq::new(ds.len(), |i: int| text::digit_char(ds[i] as nat))
}

proof fn lemma_decimal_chars(ds: Seq<u8>)
    requires
        scale::are_digits(ds),
        ds.len() > 0,
        ds[0] > 0 || ds.len() == 1,
    ensures
        text::decimal_text(scale::value_of(ds)) == chars_for(ds),
        ds[0] > 0 ==> scale::value_of(ds) > 0,
    decreases ds.len(),
{
    let front = ds.drop_last();
    if ds.len() == 1 {
        scale::lemma_value_one(ds[0]);
        assert(ds =~= seq![ds[0]]);
        assert(ds[0] < 10);
        assert(chars_for(ds) =~= seq![text::digit_char(ds[0] as nat)]);
    } else {
        assert forall|i: int| 0 <= i < front.len() implies #[trigger] front[i] < 10 by {
            assert(front[i] == ds[i]);
        }
        lemma_decimal_chars(front);
        let v = scale::value_of(front);
        assert(ds[ds.len() - 1] < 10);
        assert((v * 10 + ds.last()) / 10 == v && (v * 10 + ds.last()) % 10 == ds.last());
        assert(chars_for(ds) =~= chars_for(front).push(text::digit_char(ds.last() as nat)));
    }
}

proof fn lemma_fixed_chars(ds: Seq<u8>)
    requires
        scale::are_digits(ds),
    ensures
        scale::fixed_digits(scale::value_of(ds), ds.len()) == chars_for(ds),
    decreases ds.len(),
{
    if ds.len() == 0 {
        assert(chars_for(ds) =~= Seq::<char>::empty());
    } else {
        let front = ds.drop_last();
        assert forall|i: int| 0 <= i < front.len() implies #[trigger] front[i] < 10 by {
            assert(front[i] == ds[i]);
        }
        lemma_fixed_chars(front);
        let v = scale::value_of(front);
        assert(ds[ds.len() - 1] < 10);
        assert((v * 10 + ds.last()) / 10 == v && (v * 10 + ds.last()) % 10 == ds.last());
        assert(chars_for(ds) =~= chars_for(front).push(text::digit_char(ds.last() as nat)));
    }
}

fn push_digits(chars: &mut Vec<char>, digits: &Vec<u8>, from: usize, to: usize)
    requires
        scale::are_digits(digits@),
        from <= to <= digits@.len(),
    ensures
        final(chars)@ == old(chars)@ + chars_for(digits@.subrange(from as int, to as int)),
{
    let ghost before = chars@;
    let mut i: usize = from;
    assert(chars@ =~= before + chars_for(digits@.subrange(from as int, from as int)));
    while i < to
        invariant
            scale::are_digits(digits@),
            from <= i <= to <= digits@.len(),
            chars@ == before + chars_for(digits@.subrange(from as int, i as int)),
        decreases to - i,
    {
        assert(digits@[i as int] < 10);
        chars.push((digits[i] + 48) as char);
        i = i + 1;
        assert(chars@ =~= before + chars_for(digits@.subrange(from as int, i as int)));
    }
}

/// Writes digits, the first of them at the place 399.
#[verifier::spinoff_prover]
fn push_written(chars: &mut Vec<char>, digits: Vec<u8>)
    requires
        scale::are_digits(digits@),
    ensures
        final(chars)@ == old(chars)@ + written(
            scale::value_of(digits@),
            400 - digits@.len(),
        ),
{
    let ghost n = scale::value_of(digits@);
    let ghost place = 400 - digits@.len();
    let mut ds = digits;
    assert(n * 1 == n);
    while ds.len() < 400
        invariant
            scale::are_digits(digits@),
            n == scale::value_of(digits@),
            digits@.len() <= ds@.len(),
            digits@.len() < 400 ==> ds@.len() <= 400,
            digits@.len() >= 400 ==> ds@ == digits@,
            scale::are_digits(ds@),
            scale::value_of(ds@) == n * scale::pow10((ds@.len() - digits@.len()) as nat),
        decreases 400 - ds@.len(),
    {
        let ghost before = ds@;
        ds.push(0);
        proof {
            assert(ds@.drop_last() =~= before);
            let x = scale::pow10((before.len() - digits@.len()) as nat);
            assert(n * (10 * x) == (n * x) * 10) by (nonlinear_arith);
        }
    }
    let mut start: usize = 0;
    while start < 399 && ds[start] == 0
        invariant
            start <= 399,
            ds@.len() >= 400,
            forall|k: int| 0 <= k < start ==> #[trigger] ds@[k] == 0,
        decreases 399 - start,
    {
        start = start + 1;
    }
    let ghost whole = ds@.subrange(start as int, 400);
    let ghost tail = ds@.skip(400);
    let ghost before = chars@;
    proof {
        let zeros = ds@.take(start as int);
        let head = ds@.take(400);
        assert(head =~= zeros + whole);
        scale::lemma_value_concat(zeros, whole);
        scale::lemma_value_zero(zeros);
        assert(0 * scale::pow10(whole.len()) == 0);
        assert forall|k: int| 0 <= k < whole.len() implies #[trigger] whole[k] < 10 by {
            assert(whole[k] == ds@[start + k]);
        }
        assert forall|k: int| 0 <= k < tail.len() implies #[trigger] tail[k] < 10 by {
            assert(tail[k] == ds@[400 + k]);
        }
        lemma_decimal_chars(whole);
        lemma_fixed_chars(tail);
        scale::lemma_value_bound(tail);
        assert(ds@ =~= head + tail);
        scale::lemma_value_concat(head, tail);
        if place < 0 {
            let one = scale::pow10(tail.len());
            scale::lemma_pow10_pos(tail.len());
            vstd::arithmetic::div_mod::lemma_fundamental_div_mod_converse(
                n as int,
                one as int,
                scale::value_of(head) as int,
                scale::value_of(tail) as int,
            );
        } else {
            assert(tail =~= Seq::<u8>::empty());
            assert(scale::value_of(head) * 1 == scale::value_of(head));
        }
    }
    push_digits(chars, &ds, start, 400);
    if ds.len() > 400 {
        chars.push('.');
        let end: usize = ds.len();
        push_digits(chars, &ds, 400, end);
        assert(ds@.subrange(400, end as int) =~= tail);
    }
    assert(chars@ =~= before + written(n, place));
}

/// Brings a decimal to the shortest spelling of the binary64 number that it is read as.
#[verifier::spinoff_prover]
pub fn spell(decimal: &str) -> (result: String)
    requires
        scale::is_finite_number(decimal@),
    ensures
        result@ == spelled(decimal@),
{
    let chars = chars_of(decimal);
    let minus = chars.len() > 0 && chars[0] == '-';
    let from: usize = if chars.len() > 0 && (chars[0] == '-' || chars[0] == '+') {
        1
    } else {
        0
    };
    let rest = suffix_of(&chars, from);
    assert(rest@ =~= unsigned(decimal@));
    let mut spelling: Vec<char> = Vec::new();
    if minus {
        spelling.push('-');
    }
    assert(spelling@ =~= minus_text(minus));
    match read_decimal(&rest) {
        None => {},
        Some((ds, point)) => {
            let ghost (cs, exponent) = scale::decimal_parts(rest@)->0;
            let (mantissa, power) = double_of_digits(ds, point, Ghost(cs), Ghost(exponent));
            let ghost d = Double { mantissa: mantissa as nat, power: power as nat };
            if mantissa == 0 {
                spelling.push('0');
                assert(spelling@ =~= spelled(decimal@));
            } else {
                let digits = shortest_digits(mantissa, power, Ghost(d));
                proof {
                    let n = scale::value_of(digits@);
                    let place = 400 - digits@.len();
                    let (k, other) = choose|k: nat, other: int| is_shortest(d, k, other);
                    lemma_one_shortest(d, n, place, k, other);
                }
                push_written(&mut spelling, digits);
                assert(spelling@ =~= spelled(decimal@));
            }
        },
    }
    let end: usize = spelling.len();
    let result = text_of_range(&spelling, 0, end);
    assert(result@ =~= spelling@);
    result
}

} // verus!
