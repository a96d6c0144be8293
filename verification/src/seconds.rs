//! Times that are added up as binary64 numbers of seconds, with every rounding step.
//!
//! A sum of at least one second is a multiple of two to the power of -52 seconds, since neighbouring
//! binary64 numbers are no closer there. Such a multiple is one unit here.

use crate::binary64::{
    binary64_integer, exponent_field, grain, lemma_grain, nearest, power_of_two, round_half_even,
    rounded_integer, rounding_error, Real, HIDDEN_BIT, MANTISSA_LIMIT, NANOS_PER_SEC,
};
use crate::tools::InputStep;
use vstd::arithmetic::div_mod::{
    lemma_div_denominator, lemma_fundamental_div_mod, lemma_fundamental_div_mod_converse,
};
use vstd::arithmetic::power2::{
    lemma2_to64, lemma2_to64_rest, lemma_pow2_adds, lemma_pow2_pos, lemma_pow2_strictly_increases,
    pow2,
};
use vstd::prelude::*;

verus! {

/// The magnitude of a finite number as a fraction.
pub open spec fn magnitude(number: Real) -> (nat, nat) {
    if number.down_shift() >= 0 {
        (number.mantissa(), pow2(number.down_shift() as nat))
    } else {
        (number.mantissa() * pow2((-number.down_shift()) as nat), 1)
    }
}

/// A number of seconds as a fraction, held between zero and `high`; zero where there is none.
pub open spec fn clamped_fraction(seconds: Option<Real>, high: nat) -> (nat, nat) {
    match seconds {
        None => (0, 1),
        Some(number) => {
            let (n, d) = magnitude(number);
            if number.negative() {
                (0, 1)
            } else if number.infinite() || n > high * d {
                (high, 1)
            } else {
                (n, d)
            }
        },
    }
}

/// The binary64 number nearest to `n / d` units, for at least one second.
pub open spec fn binary64_quotient(n: nat, d: nat) -> nat {
    let spacing = grain(n / d, 1);
    round_half_even(n, d * spacing) * spacing
}

/// A time in units plus a fraction of a second, rounded to binary64.
pub open spec fn plus_seconds(units: nat, fraction: (nat, nat)) -> nat {
    binary64_quotient(units * fraction.1 + HIDDEN_BIT as nat * fraction.0, fraction.1)
}

/// One input step in units: a second of overhead, plus its pause (at most ten seconds), plus its hold
/// (at most thirty).
pub open spec fn step_units(step: InputStep) -> nat {
    plus_seconds(
        plus_seconds(HIDDEN_BIT as nat, clamped_fraction(step.seconds, 10)),
        clamped_fraction(step.duration, 30),
    )
}

/// The steps of a sequence together, added up from the first to the last, in units.
pub open spec fn steps_units(steps: Seq<InputStep>) -> nat
    decreases steps.len(),
{
    if steps.len() == 0 {
        0
    } else {
        binary64_integer(steps_units(steps.drop_last()) + step_units(steps.last()))
    }
}

/// The steps of a sequence together, in whole nanoseconds: the nearest, ties to even.
pub open spec fn steps_nanos(steps: Seq<InputStep>) -> nat {
    round_half_even(steps_units(steps) * (NANOS_PER_SEC as nat), HIDDEN_BIT as nat)
}

proof fn lemma_round_scaled(n: nat, d: nat, k: nat)
    requires
        d > 0,
        k > 0,
    ensures
        round_half_even(k * n, k * d) == round_half_even(n, d),
        (k * n) / (k * d) == n / d,
{
    let q = n / d;
    let r = n % d;
    lemma_fundamental_div_mod(n as int, d as int);
    assert(k * n == q * (k * d) + k * r) by (nonlinear_arith)
        requires
            n == d * q + r,
    ;
    assert(0 <= k * r < k * d) by (nonlinear_arith)
        requires
            0 <= r < d,
            k > 0,
    ;
    lemma_fundamental_div_mod_converse((k * n) as int, (k * d) as int, q as int, (k * r) as int);
    assert((2 * (k * r) > k * d) == (2 * r > d) && (2 * (k * r) == k * d) == (2 * r == d))
        by (nonlinear_arith)
        requires
            k > 0,
    ;
}

proof fn lemma_quotient_scaled(n: nat, d: nat, k: nat)
    requires
        d > 0,
        k > 0,
    ensures
        binary64_quotient(k * n, k * d) == binary64_quotient(n, d),
{
    lemma_round_scaled(n, d, k);
    let g = grain(n / d, 1);
    lemma_grain(n / d, 1);
    assert(d * g > 0) by (nonlinear_arith)
        requires
            d > 0,
            g > 0,
    ;
    lemma_round_scaled(n, d * g, k);
    assert((k * d) * g == k * (d * g)) by (nonlinear_arith);
}

/// Less than half a unit, but more than nothing, rounds the same whatever it is.
proof fn lemma_sticky(units: nat, d: nat, rest: nat)
    requires
        0 < rest,
        2 * rest < d,
    ensures
        binary64_quotient(units * d + rest, d) == binary64_quotient(units * 4 + 1, 4),
{
    lemma_grain(units, 1);
    let g = grain(units, 1);
    lemma_sticky_round(units, d, rest, g);
    lemma_sticky_round(units, 4, 1, g);
    lemma_fundamental_div_mod_converse((units * d + rest) as int, d as int, units as int, rest as int);
    lemma_fundamental_div_mod_converse((units * 4 + 1) as int, 4, units as int, 1);
}

proof fn lemma_sticky_round(units: nat, d: nat, rest: nat, g: nat)
    requires
        0 < rest,
        2 * rest < d,
        0 < g,
    ensures
        round_half_even(units * d + rest, d * g) == if 2 * (units % g) >= g {
            units / g + 1
        } else {
            units / g
        },
{
    let q = units / g;
    let m = units % g;
    lemma_fundamental_div_mod(units as int, g as int);
    let n = units * d + rest;
    let left = m * d + rest;
    assert(n == q * (d * g) + left) by (nonlinear_arith)
        requires
            n == units * d + rest,
            left == m * d + rest,
            units == g * q + m,
    ;
    assert(0 <= left < d * g) by (nonlinear_arith)
        requires
            left == m * d + rest,
            0 <= m,
            m + 1 <= g,
            rest < d,
    ;
    lemma_fundamental_div_mod_converse(n as int, (d * g) as int, q as int, left as int);
    if 2 * m >= g {
        assert(2 * left > d * g) by (nonlinear_arith)
            requires
                left == m * d + rest,
                2 * m >= g,
                rest > 0,
                d > 0,
        ;
    } else {
        assert(2 * left < d * g) by (nonlinear_arith)
            requires
                left == m * d + rest,
                2 * m + 1 <= g,
                2 * rest < d,
        ;
    }
}

proof fn lemma_quotient_bound(n: nat, d: nat)
    requires
        d > 0,
    ensures
        binary64_quotient(n, d) <= 2 * (n / d) + 1,
{
    let p = n / d;
    let g = grain(p, 1);
    lemma_grain(p, 1);
    lemma_div_denominator(n as int, d as int, g as int);
    let q = p / g;
    lemma_fundamental_div_mod(p as int, g as int);
    assert((q + 1) * g <= p + g) by (nonlinear_arith)
        requires
            p == g * q + p % g,
            p % g >= 0,
    ;
    let rounded = round_half_even(n, d * g);
    assert(rounded == q || rounded == q + 1);
    assert(rounded * g <= (q + 1) * g) by (nonlinear_arith)
        requires
            rounded <= q + 1,
    ;
}

/// Rounds a quotient to the nearest binary64 number.
fn rounded_quotient(n: u128, d: u128) -> (rounded: u128)
    requires
        0 < d <= 0x20_0000_0000_0000,
        n / d <= 0x1000_0000_0000_0000,
        n < 0x1_0000_0000_0000_0000_0000_0000_0000,
    ensures
        rounded == binary64_quotient(n as nat, d as nat),
        rounded <= 2 * (n / d) + 1,
{
    let p: u128 = n / d;
    let mut spacing: u128 = 1;
    while p >= 0x20_0000_0000_0000 * spacing
        invariant
            p <= 0x1000_0000_0000_0000,
            0 < spacing <= 0x100,
            grain(p as nat, 1) == grain(p as nat, spacing as nat),
            spacing == 1 || p >= HIDDEN_BIT * spacing,
        decreases p - spacing,
    {
        spacing = spacing * 2;
    }
    proof {
        assert(0 < d * spacing <= 0x20_0000_0000_0000 * 0x100) by (nonlinear_arith)
            requires
                0 < d <= 0x20_0000_0000_0000,
                0 < spacing <= 0x100,
        ;
        lemma_quotient_bound(n as nat, d as nat);
    }
    nearest(n, d * spacing) * spacing
}

proof fn lemma_powers()
    ensures
        pow2(0) == 1,
        pow2(47) == 0x8000_0000_0000,
        pow2(52) == 0x10_0000_0000_0000,
        pow2(53) == 0x20_0000_0000_0000,
        pow2(106) == 0x20_0000_0000_0000 * 0x20_0000_0000_0000,
{
    lemma2_to64();
    lemma2_to64_rest();
    lemma_pow2_adds(53, 53);
}

proof fn lemma_pow2_grows(a: nat, b: nat)
    requires
        a <= b,
    ensures
        pow2(a) <= pow2(b),
{
    if a < b {
        lemma_pow2_strictly_increases(a, b);
    }
}

/// A number of thirty-two seconds or more is above any bound of at most thirty.
proof fn lemma_too_long(number: Real, high: nat)
    requires
        !number.infinite(),
        exponent_field(number.pattern()) > 1027,
        high <= 30,
    ensures
        ({
            let (n, d) = magnitude(number);
            n > high * d
        }),
{
    lemma_powers();
    let m = number.mantissa();
    if number.down_shift() >= 0 {
        let d = pow2(number.down_shift() as nat);
        lemma_pow2_grows(number.down_shift() as nat, 47);
        assert(m > high * d) by (nonlinear_arith)
            requires
                m >= 0x10_0000_0000_0000,
                d <= 0x8000_0000_0000,
                high <= 30,
        ;
    } else {
        let up = pow2((-number.down_shift()) as nat);
        lemma_pow2_pos((-number.down_shift()) as nat);
        assert(m * up > high * 1) by (nonlinear_arith)
            requires
                m >= 0x10_0000_0000_0000,
                up >= 1,
                high <= 30,
        ;
    }
}

/// A whole number of seconds is added as so many units.
proof fn lemma_whole_plus(units: nat, seconds: nat)
    ensures
        plus_seconds(units, (seconds, 1)) == binary64_quotient(
            units + HIDDEN_BIT as nat * seconds,
            1,
        ),
{
    assert(units * 1 == units);
}

/// Adds a number of seconds, held between zero and `high`, to a time in units.
fn add_seconds(units: u128, seconds: &Option<Real>, high: u64) -> (sum: u128)
    requires
        units <= 0x400_0000_0000_0000,
        1 <= high <= 30,
    ensures
        sum == plus_seconds(units as nat, clamped_fraction(*seconds, high as nat)),
        sum <= 2 * (units + high * HIDDEN_BIT) + 1,
{
    let number = match seconds {
        Some(number) => number,
        None => {
            return rounded_quotient(units, 1);
        },
    };
    let bits: u64 = number.bits();
    let exponent: u64 = (bits / HIDDEN_BIT) % 2048;
    let fraction: u64 = bits % HIDDEN_BIT;
    if bits >= 0x8000_0000_0000_0000 {
        proof {
            lemma_whole_plus(units as nat, 0);
        }
        return rounded_quotient(units, 1);
    }
    let whole: u128 = units + (high as u128) * 0x10_0000_0000_0000;
    if exponent > 1027 {
        proof {
            if exponent < 2047 {
                lemma_too_long(*number, high as nat);
            }
            lemma_whole_plus(units as nat, high as nat);
        }
        return rounded_quotient(whole, 1);
    }
    let mantissa: u64 = if exponent == 0 {
        fraction
    } else {
        HIDDEN_BIT + fraction
    };
    let shift: u64 = if exponent == 0 {
        1074
    } else {
        1075 - exponent
    };
    let ghost d = pow2(shift as nat);
    let ghost n = units as nat * d + HIDDEN_BIT as nat * mantissa as nat;
    proof {
        lemma_powers();
        lemma_pow2_pos(shift as nat);
        assert(number.down_shift() == shift);
        assert(number.mantissa() == mantissa);
        assert(magnitude(*number) == (mantissa as nat, d));
    }
    if shift <= 52 {
        let divisor: u128 = power_of_two(shift);
        let factor: u128 = power_of_two(52 - shift);
        proof {
            lemma_pow2_grows(shift as nat, 52);
            lemma_pow2_grows((52 - shift) as nat, 52);
            lemma_pow2_adds(shift as nat, (52 - shift) as nat);
            assert(high * divisor <= 30 * 0x10_0000_0000_0000) by (nonlinear_arith)
                requires
                    high <= 30,
                    divisor <= 0x10_0000_0000_0000,
            ;
        }
        if mantissa as u128 > (high as u128) * divisor {
            proof {
                lemma_whole_plus(units as nat, high as nat);
            }
            return rounded_quotient(whole, 1);
        }
        proof {
            assert(mantissa * factor <= high * HIDDEN_BIT) by (nonlinear_arith)
                requires
                    mantissa <= high * divisor,
                    divisor * factor == HIDDEN_BIT,
                    factor > 0,
            ;
            assert(n == d * (units as nat + mantissa as nat * factor as nat)) by (nonlinear_arith)
                requires
                    n == units as nat * d + HIDDEN_BIT as nat * mantissa as nat,
                    d * factor == HIDDEN_BIT,
            ;
            lemma_quotient_scaled(units as nat + mantissa as nat * factor as nat, 1, d);
        }
        return rounded_quotient(units + (mantissa as u128) * factor, 1);
    }
    proof {
        lemma_pow2_grows(53, shift as nat);
        assert(mantissa <= high * d) by (nonlinear_arith)
            requires
                mantissa < 0x20_0000_0000_0000,
                d >= 0x20_0000_0000_0000,
                high >= 1,
        ;
    }
    if mantissa == 0 {
        proof {
            assert(n == d * (units as nat)) by (nonlinear_arith)
                requires
                    n == units as nat * d + HIDDEN_BIT as nat * mantissa as nat,
                    mantissa == 0,
            ;
            lemma_quotient_scaled(units as nat, 1, d);
        }
        return rounded_quotient(units, 1);
    }
    if shift > 105 {
        proof {
            lemma_pow2_grows(106, shift as nat);
            assert(0 < HIDDEN_BIT * mantissa && 2 * (HIDDEN_BIT * mantissa) < d) by (nonlinear_arith)
                requires
                    0 < mantissa < 0x20_0000_0000_0000,
                    d >= 0x20_0000_0000_0000 * 0x20_0000_0000_0000,
                    HIDDEN_BIT == 0x10_0000_0000_0000,
            ;
            lemma_sticky(units as nat, d, HIDDEN_BIT as nat * mantissa as nat);
        }
        return rounded_quotient(units * 4 + 1, 4);
    }
    let divisor: u128 = power_of_two(shift - 52);
    proof {
        let t = (shift - 52) as nat;
        lemma_pow2_grows(t, 53);
        lemma_pow2_grows(1, t);
        lemma2_to64();
        lemma_pow2_adds(52, t);
        assert(units * divisor <= 0x400_0000_0000_0000 * 0x20_0000_0000_0000) by (nonlinear_arith)
            requires
                units <= 0x400_0000_0000_0000,
                divisor <= 0x20_0000_0000_0000,
        ;
        assert(d == HIDDEN_BIT as nat * divisor as nat);
        assert(n == HIDDEN_BIT as nat * (units as nat * divisor as nat + mantissa as nat))
            by (nonlinear_arith)
            requires
                n == units as nat * d + HIDDEN_BIT as nat * mantissa as nat,
                d == HIDDEN_BIT as nat * divisor as nat,
        ;
        lemma_quotient_scaled(
            units as nat * divisor as nat + mantissa as nat,
            divisor as nat,
            HIDDEN_BIT as nat,
        );
        let total = units * divisor + mantissa;
        assert(total / (divisor as int) <= units + HIDDEN_BIT) by (nonlinear_arith)
            requires
                total == units * divisor + mantissa,
                mantissa < 2 * HIDDEN_BIT,
                divisor >= 2,
        ;
    }
    rounded_quotient(units * divisor + mantissa as u128, divisor)
}

proof fn lemma_grain_chain(smaller: nat, larger: nat, unit: nat)
    requires
        smaller <= larger,
        0 < unit,
        unit == 1 || smaller >= HIDDEN_BIT * unit,
    ensures
        grain(larger, unit) == grain(larger, grain(smaller, unit)),
    decreases smaller - unit,
{
    if smaller >= MANTISSA_LIMIT * unit {
        lemma_grain_chain(smaller, larger, 2 * unit);
    }
}

proof fn lemma_grain_multiple(p: nat, unit: nat)
    requires
        0 < unit,
    ensures
        grain(p, unit) % unit == 0,
        grain(p, unit) >= unit,
    decreases p - unit,
{
    if p >= MANTISSA_LIMIT * unit {
        lemma_grain_multiple(p, 2 * unit);
        let g = grain(p, 2 * unit);
        lemma_fundamental_div_mod(g as int, (2 * unit) as int);
        let k = g / (2 * unit);
        assert(g == (2 * k) * unit + 0) by (nonlinear_arith)
            requires
                g == (2 * unit) * k + 0,
        ;
        lemma_fundamental_div_mod_converse(g as int, unit as int, (2 * k) as int, 0);
    } else {
        lemma_fundamental_div_mod_converse(unit as int, unit as int, 1, 0);
    }
}

proof fn lemma_grain_divides(x: nat, p: nat, unit: nat)
    requires
        0 < unit,
        x < MANTISSA_LIMIT * grain(p, unit),
    ensures
        grain(p, unit) % grain(x, unit) == 0,
    decreases x - unit,
{
    if x < MANTISSA_LIMIT * unit {
        lemma_grain_multiple(p, unit);
    } else {
        lemma_grain_divides(x, p, 2 * unit);
    }
}

/// Whether a number of units is a binary64 number.
spec fn is_binary64(units: nat) -> bool {
    units % grain(units, 1) == 0
}

proof fn lemma_rounded_is_binary64(p: nat)
    ensures
        is_binary64(binary64_integer(p)),
{
    let g = grain(p, 1);
    lemma_grain(p, 1);
    let r = round_half_even(p, g);
    rounding_error(p, g);
    let x = r * g;
    assert(r <= MANTISSA_LIMIT) by (nonlinear_arith)
        requires
            2 * (r * g) <= 2 * p + g,
            p < MANTISSA_LIMIT * g,
            g > 0,
    ;
    lemma_grain(x, 1);
    let h = grain(x, 1);
    if r < MANTISSA_LIMIT {
        assert(x < MANTISSA_LIMIT * g) by (nonlinear_arith)
            requires
                x == r * g,
                r < MANTISSA_LIMIT,
                g > 0,
        ;
        lemma_grain_divides(x, p, 1);
        lemma_fundamental_div_mod(g as int, h as int);
        let k = g / h;
        assert(x == (r * k) * h + 0) by (nonlinear_arith)
            requires
                x == r * g,
                g == h * k + 0,
        ;
        lemma_fundamental_div_mod_converse(x as int, h as int, (r * k) as int, 0);
    } else {
        // The next spacing up: twice as wide.
        assert(x == MANTISSA_LIMIT * g);
        assert(h == 2 * g) by {
            lemma_grain_chain(p, x, 1);
            assert(grain(x, g) == grain(x, 2 * g));
            assert(x < MANTISSA_LIMIT * (2 * g));
        }
        assert(x == HIDDEN_BIT * h + 0);
        lemma_fundamental_div_mod_converse(x as int, h as int, HIDDEN_BIT as int, 0);
    }
}

/// Rounding a sum does not go further beyond it than the summand, since the other one is a binary64
/// number itself.
proof fn lemma_sum_bound(total: nat, more: nat)
    requires
        is_binary64(total),
    ensures
        binary64_integer(total + more) <= total + 2 * more,
{
    let p = total + more;
    let g = grain(p, 1);
    let h = grain(total, 1);
    lemma_grain(p, 1);
    lemma_grain(total, 1);
    lemma_grain_chain(total, p, 1);
    let q = p / g;
    let rest = p % g;
    lemma_fundamental_div_mod(p as int, g as int);
    assert(p == q * g + rest) by (nonlinear_arith)
        requires
            p == g * q + rest,
    ;
    assert(q * g >= total) by {
        if g == h {
            lemma_fundamental_div_mod(total as int, h as int);
            let k = total / h;
            assert(q >= k) by (nonlinear_arith)
                requires
                    q * g + rest >= g * k,
                    0 <= rest < g,
            ;
            assert(q * g >= g * k) by (nonlinear_arith)
                requires
                    q >= k,
                    g > 0,
            ;
        } else {
            assert(p >= MANTISSA_LIMIT * h);
            assert(g == grain(p, 2 * h));
            lemma_grain_multiple(p, 2 * h);
            assert(q >= HIDDEN_BIT) by (nonlinear_arith)
                requires
                    q * g + rest >= HIDDEN_BIT * g,
                    0 <= rest < g,
            ;
            assert(q * g >= HIDDEN_BIT * g) by (nonlinear_arith)
                requires
                    q >= HIDDEN_BIT,
                    g > 0,
            ;
        }
    }
    assert((q + 1) * g == q * g + g) by (nonlinear_arith);
}

/// An even whole number may be set aside before rounding.
proof fn lemma_round_apart(a: nat, b: nat, d: nat)
    requires
        a % 2 == 0,
        d > 0,
    ensures
        round_half_even(a * d + b, d) == a + round_half_even(b, d),
{
    let q = b / d;
    let r = b % d;
    lemma_fundamental_div_mod(b as int, d as int);
    assert(a * d + b == (a + q) * d + r) by (nonlinear_arith)
        requires
            b == d * q + r,
    ;
    lemma_fundamental_div_mod_converse((a * d + b) as int, d as int, (a + q) as int, r as int);
}

/// Whole seconds and the rest of a time may be turned into nanoseconds apart.
proof fn lemma_seconds_apart(whole: nat, part: nat, per_sec: nat, d: nat)
    requires
        per_sec % 2 == 0,
        d > 0,
    ensures
        round_half_even((whole * d + part) * per_sec, d) == whole * per_sec + round_half_even(
            part * per_sec,
            d,
        ),
{
    assert((whole * d + part) * per_sec == (whole * per_sec) * d + part * per_sec)
        by (nonlinear_arith);
    let half = per_sec / 2;
    assert(whole * per_sec == 2 * (whole * half)) by (nonlinear_arith)
        requires
            per_sec == 2 * half,
    ;
    lemma_round_apart(whole * per_sec, part * per_sec, d);
}

/// Adds up the times of an input sequence, in whole nanoseconds.
pub fn sequence_nanos(steps: &Vec<InputStep>) -> (nanos: u128)
    ensures
        nanos == steps_nanos(steps@),
        nanos <= 0x8_0000_0000_0000_0000_0000_0000_0000,
{
    let mut total: u128 = 0;
    let mut i: usize = 0;
    proof {
        assert(steps@.take(0) == Seq::<InputStep>::empty());
        assert(grain(0, 1) == 1);
        assert(is_binary64(0));
    }
    while i < steps.len()
        invariant
            i <= steps.len(),
            total == steps_units(steps@.take(i as int)),
            is_binary64(total as nat),
            total <= i * 0x1000_0000_0000_0000,
        decreases steps.len() - i,
    {
        let step = &steps[i];
        proof {
            let longer = steps@.take(i + 1);
            assert(longer.drop_last() == steps@.take(i as int));
            assert(longer.last() == *step);
        }
        let paused: u128 = add_seconds(0x10_0000_0000_0000, &step.seconds, 10);
        let held: u128 = add_seconds(paused, &step.duration, 30);
        proof {
            lemma_sum_bound(total as nat, held as nat);
            lemma_rounded_is_binary64((total + held) as nat);
        }
        total = rounded_integer(total + held);
        i = i + 1;
    }
    proof {
        assert(steps@.take(steps.len() as int) == steps@);
    }
    let whole: u128 = total / 0x10_0000_0000_0000;
    let part: u128 = total % 0x10_0000_0000_0000;
    proof {
        lemma_seconds_apart(
            whole as nat,
            part as nat,
            NANOS_PER_SEC as nat,
            HIDDEN_BIT as nat,
        );
        rounding_error(part as nat * NANOS_PER_SEC as nat, HIDDEN_BIT as nat);
    }
    whole * 1_000_000_000 + nearest(part * 1_000_000_000, 0x10_0000_0000_0000)
}

/// Whether a time is a whole number of seconds, or not given.
pub open spec fn is_whole(seconds: Option<Real>) -> bool {
    seconds matches Some(number) ==> {
        let (n, d) = magnitude(number);
        !number.infinite() && n % d == 0
    }
}

/// Whether the times of all steps are whole numbers of seconds, or not given.
pub open spec fn whole_steps(steps: Seq<InputStep>) -> bool {
    forall|i: int|
        0 <= i < steps.len() ==> is_whole((#[trigger] steps[i]).seconds) && is_whole(steps[i].duration)
}

/// The whole seconds of a time, held between zero and `high`.
pub open spec fn clamped_whole(seconds: Option<Real>, high: nat) -> nat {
    let (n, d) = clamped_fraction(seconds, high);
    n / d
}

/// The seconds of one step: a second of overhead, its pause and its hold.
pub open spec fn step_seconds(step: InputStep) -> nat {
    1 + clamped_whole(step.seconds, 10) + clamped_whole(step.duration, 30)
}

/// The seconds of the steps together.
pub open spec fn steps_seconds(steps: Seq<InputStep>) -> nat
    decreases steps.len(),
{
    if steps.len() == 0 {
        0
    } else {
        steps_seconds(steps.drop_last()) + step_seconds(steps.last())
    }
}

proof fn lemma_clamped_fraction(seconds: Option<Real>, high: nat)
    ensures
        ({
            let (n, d) = clamped_fraction(seconds, high);
            &&& d > 0
            &&& n <= high * d
            &&& n / d <= high
            &&& is_whole(seconds) ==> n == (n / d) * d
        }),
{
    let (n, d) = clamped_fraction(seconds, high);
    if let Some(number) = seconds {
        if number.down_shift() >= 0 {
            lemma_pow2_pos(number.down_shift() as nat);
        }
    }
    assert(n <= high * d) by (nonlinear_arith)
        requires
            n == 0 || n <= high * d || (n == high && d == 1),
            d > 0,
    ;
    assert(n / d <= high) by (nonlinear_arith)
        requires
            n <= high * d,
            d > 0,
    ;
    lemma_fundamental_div_mod(n as int, d as int);
    if is_whole(seconds) {
        assert(n % d == 0);
        assert(n == (n / d) * d) by (nonlinear_arith)
            requires
                n == d * (n / d) + 0,
        ;
    }
}

proof fn lemma_whole_grain(seconds: nat, exponent: nat)
    requires
        seconds <= MANTISSA_LIMIT,
        exponent <= 53,
        exponent == 53 ==> seconds == MANTISSA_LIMIT,
    ensures
        ({
            let units = HIDDEN_BIT as nat * seconds;
            units % grain(units, pow2(exponent)) == 0
        }),
    decreases 53 - exponent,
{
    let units = HIDDEN_BIT as nat * seconds;
    let unit = pow2(exponent);
    lemma_powers();
    lemma_pow2_pos(exponent);
    if units >= MANTISSA_LIMIT * unit {
        lemma_pow2_adds(1, exponent);
        lemma2_to64();
        assert(pow2(exponent + 1) == 2 * unit);
        assert(seconds >= 2 * unit);
        if exponent == 52 {
            assert(seconds == MANTISSA_LIMIT);
        }
        assert(exponent < 53);
        lemma_whole_grain(seconds, exponent + 1);
    } else if exponent == 53 {
        lemma_fundamental_div_mod_converse(units as int, unit as int, HIDDEN_BIT as int, 0);
    } else {
        lemma_pow2_adds(exponent, (52 - exponent) as nat);
        let rest = pow2((52 - exponent) as nat);
        assert(units == (rest * seconds) * unit + 0) by (nonlinear_arith)
            requires
                units == (unit * rest) * seconds,
        ;
        lemma_fundamental_div_mod_converse(units as int, unit as int, (rest * seconds) as int, 0);
    }
}

/// Up to two to the power of 53, a whole number of seconds is a binary64 number.
proof fn lemma_whole_is_exact(seconds: nat)
    requires
        seconds <= MANTISSA_LIMIT,
    ensures
        binary64_integer(HIDDEN_BIT as nat * seconds) == HIDDEN_BIT as nat * seconds,
{
    let units = HIDDEN_BIT as nat * seconds;
    let g = grain(units, 1);
    lemma_powers();
    lemma_whole_grain(seconds, 0);
    lemma_grain(units, 1);
    lemma_fundamental_div_mod(units as int, g as int);
    assert((units / g) * g == units) by (nonlinear_arith)
        requires
            units == g * (units / g) + 0,
    ;
}

/// Adding a whole number of seconds to another is exact.
proof fn lemma_whole_sum(whole: nat, seconds: Option<Real>, high: nat)
    requires
        is_whole(seconds),
        whole + high <= MANTISSA_LIMIT,
    ensures
        plus_seconds(HIDDEN_BIT as nat * whole, clamped_fraction(seconds, high)) == HIDDEN_BIT as nat * (
        whole + clamped_whole(seconds, high)),
{
    let hidden = HIDDEN_BIT as nat;
    let (n, d) = clamped_fraction(seconds, high);
    let k = n / d;
    lemma_clamped_fraction(seconds, high);
    let units = hidden * (whole + k);
    assert((hidden * whole) * d + hidden * n == d * units) by (nonlinear_arith)
        requires
            n == k * d,
            units == hidden * (whole + k),
    ;
    lemma_quotient_scaled(units, 1, d);
    lemma_whole_is_exact(whole + k);
    assert(d * 1 == d);
    assert(1 * grain(units, 1) == grain(units, 1));
    assert(units / 1 == units);
}

/// A step takes from one second to forty-one, and so many steps so many times as long.
pub proof fn steps_take_seconds(steps: Seq<InputStep>)
    ensures
        steps.len() <= steps_seconds(steps) <= 41 * steps.len(),
    decreases steps.len(),
{
    if steps.len() > 0 {
        steps_take_seconds(steps.drop_last());
        lemma_clamped_fraction(steps.last().seconds, 10);
        lemma_clamped_fraction(steps.last().duration, 30);
    }
}

proof fn lemma_whole_units(steps: Seq<InputStep>)
    requires
        whole_steps(steps),
        steps_seconds(steps) <= MANTISSA_LIMIT,
    ensures
        steps_units(steps) == HIDDEN_BIT as nat * steps_seconds(steps),
    decreases steps.len(),
{
    if steps.len() > 0 {
        let before = steps.drop_last();
        let step = steps.last();
        assert(whole_steps(before)) by {
            assert forall|i: int| 0 <= i < before.len() implies is_whole((#[trigger] before[i]).seconds)
                && is_whole(before[i].duration) by {
                assert(before[i] == steps[i]);
            }
        }
        assert(step == steps[steps.len() - 1]);
        lemma_whole_units(before);
        lemma_clamped_fraction(step.seconds, 10);
        lemma_whole_sum(1, step.seconds, 10);
        lemma_whole_sum(1 + clamped_whole(step.seconds, 10), step.duration, 30);
        lemma_whole_is_exact(steps_seconds(steps));
    }
}

/// Whole seconds are added up without rounding: a sequence whose times are whole seconds takes
/// exactly the seconds of its steps, from one to forty-one for each. This holds up to two to the
/// power of 53 seconds, where binary64 numbers begin to leave out whole seconds.
pub proof fn whole_seconds_are_exact(steps: Seq<InputStep>)
    requires
        whole_steps(steps),
        steps_seconds(steps) <= MANTISSA_LIMIT,
    ensures
        steps_nanos(steps) == steps_seconds(steps) * (NANOS_PER_SEC as nat),
        steps.len() * (NANOS_PER_SEC as nat) <= steps_nanos(steps) <= 41 * steps.len() * (
        NANOS_PER_SEC as nat),
{
    let total = steps_seconds(steps);
    lemma_whole_units(steps);
    steps_take_seconds(steps);
    lemma_seconds_apart(total, 0, NANOS_PER_SEC as nat, HIDDEN_BIT as nat);
    assert(round_half_even(0, HIDDEN_BIT as nat) == 0);
}

proof fn lemma_seconds_of_both(a: Seq<InputStep>, b: Seq<InputStep>)
    ensures
        steps_seconds(a + b) == steps_seconds(a) + steps_seconds(b),
    decreases b.len(),
{
    if b.len() == 0 {
        assert(a + b == a);
    } else {
        assert((a + b).drop_last() == a + b.drop_last());
        assert((a + b).last() == b.last());
        lemma_seconds_of_both(a, b.drop_last());
    }
}

/// The times of whole seconds add up: one sequence after another takes as long as both, and an empty
/// one takes no time.
pub proof fn whole_sequences_add_up(a: Seq<InputStep>, b: Seq<InputStep>)
    requires
        whole_steps(a),
        whole_steps(b),
        steps_seconds(a) + steps_seconds(b) <= MANTISSA_LIMIT,
    ensures
        steps_nanos(a + b) == steps_nanos(a) + steps_nanos(b),
        steps_nanos(Seq::empty()) == 0,
{
    lemma_seconds_of_both(a, b);
    let empty = Seq::<InputStep>::empty();
    whole_seconds_are_exact(a);
    whole_seconds_are_exact(b);
    whole_seconds_are_exact(a + b);
    whole_seconds_are_exact(empty);
}

proof fn lemma_seconds_in_any_order(a: Seq<InputStep>, b: Seq<InputStep>)
    requires
        a.to_multiset() == b.to_multiset(),
    ensures
        steps_seconds(a) == steps_seconds(b),
        whole_steps(a) ==> whole_steps(b),
    decreases a.len(),
{
    broadcast use vstd::seq_lib::group_to_multiset_ensures;

    a.to_multiset_ensures();
    b.to_multiset_ensures();
    if a.len() > 0 {
        let step = a.last();
        let shorter = a.drop_last();
        assert(a == shorter.push(step));
        assert(b.to_multiset().count(step) > 0);
        assert(b.contains(step));
        let at = choose|at: int| 0 <= at < b.len() && b[at] == step;
        let front = b.take(at);
        let back = b.skip(at + 1);
        let rest = front + back;
        assert(rest == b.remove(at));
        assert(shorter.to_multiset() == a.to_multiset().remove(step));
        assert(shorter.to_multiset() == rest.to_multiset());
        lemma_seconds_in_any_order(shorter, rest);
        lemma_seconds_of_both(front, back);
        assert(front.push(step) + back == b);
        assert(front.push(step).drop_last() == front);
        lemma_seconds_of_both(front.push(step), back);
        if whole_steps(a) {
            assert(whole_steps(shorter)) by {
                assert forall|i: int| 0 <= i < shorter.len() implies is_whole(
                    (#[trigger] shorter[i]).seconds,
                ) && is_whole(shorter[i].duration) by {
                    assert(shorter[i] == a[i]);
                }
            }
            assert forall|i: int| 0 <= i < b.len() implies is_whole((#[trigger] b[i]).seconds)
                && is_whole(b[i].duration) by {
                if i < at {
                    assert(rest[i] == b[i]);
                } else if i > at {
                    assert(rest[i - 1] == b[i]);
                } else {
                    assert(a[a.len() - 1] == b[i]);
                }
            }
        }
    }
}

/// A sequence of whole seconds takes the same time in any order of its steps.
pub proof fn whole_steps_take_the_same_in_any_order(a: Seq<InputStep>, b: Seq<InputStep>)
    requires
        whole_steps(a),
        a.to_multiset() == b.to_multiset(),
        steps_seconds(a) <= MANTISSA_LIMIT,
    ensures
        steps_nanos(a) == steps_nanos(b),
{
    lemma_seconds_in_any_order(a, b);
    whole_seconds_are_exact(a);
    whole_seconds_are_exact(b);
}

} // verus!
