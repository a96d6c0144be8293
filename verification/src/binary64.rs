//! Numbers that arrive as IEEE 754 binary64, worked on as integers.
//!
//! Coordinates, sizes and times come over the wire as binary64 numbers. Most of them are only
//! passed on. The few that the router computes with are taken apart here, so that every rounding
//! step is an integer operation with an exact contract.

use vstd::arithmetic::div_mod::lemma_fundamental_div_mod;
use vstd::arithmetic::power2::{
    lemma_pow2_adds, lemma_pow2_pos, lemma_pow2_strictly_increases, lemma_pow2_unfold, pow2,
};
use vstd::prelude::*;

verus! {

/// Two to the power of 52: the mantissas of normal numbers start here.
pub const HIDDEN_BIT: u64 = 0x10_0000_0000_0000;

/// Two to the power of 53: no mantissa reaches this.
pub const MANTISSA_LIMIT: u64 = 0x20_0000_0000_0000;

/// Nanoseconds in a second.
pub const NANOS_PER_SEC: u64 = 1_000_000_000;

/// The integer nearest to `n / d`; of two that are equally near, the even one.
pub open spec fn round_half_even(n: nat, d: nat) -> nat {
    let quotient = n / d;
    let rest = n % d;
    if 2 * rest > d || (2 * rest == d && quotient % 2 == 1) {
        quotient + 1
    } else {
        quotient
    }
}

/// Rounds `n / d` to the nearest integer, ties to even.
pub fn nearest(n: u128, d: u128) -> (rounded: u128)
    requires
        d > 0,
        n < u128::MAX,
    ensures
        rounded == round_half_even(n as nat, d as nat),
{
    let quotient: u128 = n / d;
    let rest: u128 = n % d;
    proof {
        assert(quotient <= n) by (nonlinear_arith)
            requires
                quotient == n / d,
                d > 0,
        ;
    }
    if rest > d - rest || (rest == d - rest && quotient % 2 == 1) {
        quotient + 1
    } else {
        quotient
    }
}

/// What is known of a rounded quotient: it is off by at most one half.
pub proof fn rounding_error(n: nat, d: nat)
    requires
        d > 0,
    ensures
        2 * n <= 2 * (round_half_even(n, d) * d) + d,
        2 * (round_half_even(n, d) * d) <= 2 * n + d,
{
    let q = n / d;
    let r = n % d;
    lemma_fundamental_div_mod(n as int, d as int);
    assert(n == q * d + r) by (nonlinear_arith)
        requires
            n == d * q + r,
    ;
    assert((q + 1) * d == q * d + d) by (nonlinear_arith);
}

/// A binary64 number other than NaN, held as its bit pattern.
#[derive(Clone, Copy, Debug, PartialEq, Eq)]
pub struct Real {
    bits: u64,
}

/// Whether a bit pattern stands for no number.
pub open spec fn is_nan_pattern(bits: u64) -> bool {
    exponent_field(bits) == 2047 && fraction_field(bits) != 0
}

/// The eleven bits of the exponent.
pub open spec fn exponent_field(bits: u64) -> nat {
    ((bits / HIDDEN_BIT) % 2048) as nat
}

/// The fifty-two bits of the fraction.
pub open spec fn fraction_field(bits: u64) -> nat {
    (bits % HIDDEN_BIT) as nat
}

impl Real {
    #[verifier::type_invariant]
    spec fn not_nan(self) -> bool {
        !is_nan_pattern(self.bits)
    }

    /// The bit pattern.
    pub closed spec fn pattern(self) -> u64 {
        self.bits
    }

    /// Whether the number is negative (or minus zero).
    pub open spec fn negative(self) -> bool {
        self.pattern() >= 0x8000_0000_0000_0000
    }

    /// Whether the number is infinite.
    pub open spec fn infinite(self) -> bool {
        exponent_field(self.pattern()) == 2047
    }

    /// The integer mantissa of a finite number.
    pub open spec fn mantissa(self) -> nat {
        if exponent_field(self.pattern()) == 0 {
            fraction_field(self.pattern())
        } else {
            (HIDDEN_BIT + fraction_field(self.pattern())) as nat
        }
    }

    /// The magnitude of a finite number is its mantissa divided by two to this power.
    pub open spec fn down_shift(self) -> int {
        if exponent_field(self.pattern()) == 0 {
            1074
        } else {
            1075 - exponent_field(self.pattern())
        }
    }

    /// The magnitude of a finite number of seconds in whole nanoseconds: the nearest, ties to
    /// even.
    pub open spec fn magnitude_nanos(self) -> nat {
        let scaled = self.mantissa() * (NANOS_PER_SEC as nat);
        if self.down_shift() >= 0 {
            round_half_even(scaled, pow2(self.down_shift() as nat))
        } else {
            scaled * pow2((-self.down_shift()) as nat)
        }
    }

    /// A number of seconds in whole nanoseconds, held between two bounds.
    pub open spec fn clamped_nanos_spec(self, low: u64, high: u64) -> nat {
        if self.negative() {
            low as nat
        } else if self.infinite() || self.magnitude_nanos() > high {
            high as nat
        } else if self.magnitude_nanos() < low {
            low as nat
        } else {
            self.magnitude_nanos()
        }
    }

    /// The number with a given bit pattern; `None` where the pattern is NaN.
    pub fn from_bits(bits: u64) -> (number: Option<Real>)
        ensures
            number is None <==> is_nan_pattern(bits),
            number matches Some(number) ==> number.pattern() == bits,
    {
        if (bits / HIDDEN_BIT) % 2048 == 2047 && bits % HIDDEN_BIT != 0 {
            None
        } else {
            Some(Real { bits })
        }
    }

    /// The bit pattern.
    pub fn bits(&self) -> (bits: u64)
        ensures
            bits == self.pattern(),
    {
        self.bits
    }

    /// A number of seconds in whole nanoseconds, held between two bounds.
    pub fn clamped_nanos(&self, low: u64, high: u64) -> (nanos: u64)
        requires
            low <= high,
        ensures
            nanos == self.clamped_nanos_spec(low, high),
            low <= nanos <= high,
    {
        proof {
            use_type_invariant(self);
        }
        let exponent: u64 = (self.bits / HIDDEN_BIT) % 2048;
        let fraction: u64 = self.bits % HIDDEN_BIT;
        if self.bits >= 0x8000_0000_0000_0000 {
            return low;
        }
        if exponent == 2047 {
            return high;
        }
        let mantissa: u64 = if exponent == 0 {
            fraction
        } else {
            HIDDEN_BIT + fraction
        };
        let scaled: u128 = (mantissa as u128) * (NANOS_PER_SEC as u128);
        proof {
            assert(scaled < 0x20_0000_0000_0000 * 1_000_000_000) by (nonlinear_arith)
                requires
                    scaled == mantissa * 1_000_000_000,
                    mantissa < 0x20_0000_0000_0000,
            ;
        }
        if exponent > 1075 {
            proof {
                let up = (-self.down_shift()) as nat;
                lemma_pow2_pos(up);
                assert(scaled * pow2(up) >= 0x10_0000_0000_0000 * 1_000_000_000) by (nonlinear_arith)
                    requires
                        scaled >= 0x10_0000_0000_0000 * 1_000_000_000,
                        pow2(up) >= 1,
                ;
            }
            return high;
        }
        let shift: u64 = if exponent == 0 {
            1074
        } else {
            1075 - exponent
        };
        if shift > 120 {
            proof {
                lemma_pow2_values();
                lemma_pow2_strictly_increases(120, shift as nat);
                let d = pow2(shift as nat);
                assert(2 * scaled < d);
                assert(scaled as nat / d == 0 && scaled as nat % d == scaled) by (nonlinear_arith)
                    requires
                        scaled < d,
                ;
            }
            return low;
        }
        let divisor: u128 = power_of_two(shift);
        let rounded: u128 = nearest(scaled, divisor);
        if rounded > high as u128 {
            high
        } else if rounded < low as u128 {
            low
        } else {
            rounded as u64
        }
    }
}

proof fn lemma_pow2_values()
    ensures
        pow2(32) == 0x1_0000_0000,
        pow2(64) == 0x1_0000_0000_0000_0000,
        pow2(120) == 0x100_0000_0000_0000_0000_0000_0000_0000,
{
    vstd::arithmetic::power2::lemma2_to64();
    lemma_pow2_adds(56, 64);
    vstd::arithmetic::power2::lemma2_to64_rest();
}

/// A power of two.
pub fn power_of_two(exponent: u64) -> (power: u128)
    requires
        exponent <= 120,
    ensures
        power == pow2(exponent as nat),
        0 < power <= 0x100_0000_0000_0000_0000_0000_0000_0000,
{
    let mut power: u128 = 1;
    let mut i: u64 = 0;
    proof {
        lemma_pow2_values();
        vstd::arithmetic::power2::lemma2_to64();
    }
    while i < exponent
        invariant
            i <= exponent <= 120,
            power == pow2(i as nat),
            pow2(120) == 0x100_0000_0000_0000_0000_0000_0000_0000,
        decreases exponent - i,
    {
        proof {
            lemma_pow2_unfold((i + 1) as nat);
            if i + 1 < 120 {
                lemma_pow2_strictly_increases((i + 1) as nat, 120);
            }
        }
        power = power * 2;
        i = i + 1;
    }
    proof {
        lemma_pow2_pos(exponent as nat);
        if exponent < 120 {
            lemma_pow2_strictly_increases(exponent as nat, 120);
        }
    }
    power
}

/// Doubles `n` and `unit` together until `n / d` has fifty-three significant bits.
pub open spec fn scale_up(n: nat, d: nat, unit: nat) -> (nat, nat)
    decreases MANTISSA_LIMIT * d - n,
{
    if n == 0 || n >= HIDDEN_BIT * d {
        (n, unit)
    } else {
        scale_up(2 * n, d, 2 * unit)
    }
}

/// The binary64 number nearest to `n / d`, for `0 < n < d`, as a mantissa over a power of two.
pub open spec fn binary64_ratio(n: nat, d: nat) -> (nat, nat) {
    let (scaled, unit) = scale_up(n, d, 1);
    (round_half_even(scaled, d), unit)
}

/// The distance between neighbouring binary64 numbers around the integer `p`, or one where they
/// lie closer: the smallest double of `unit` of which `p` is less than fifty-three bits' worth.
pub open spec fn grain(p: nat, unit: nat) -> nat
    decreases p - unit,
{
    if unit == 0 || p < MANTISSA_LIMIT * unit {
        unit
    } else {
        grain(p, 2 * unit)
    }
}

/// The binary64 number nearest to the integer `p`.
pub open spec fn binary64_integer(p: nat) -> nat {
    let spacing = grain(p, 1);
    round_half_even(p, spacing) * spacing
}

/// One side of a picture that is shrunk until its longest side measures `max`. The factor is the
/// binary64 number nearest to `max / longest`, its product with the side is rounded to binary64
/// again and then to the nearest integer (a half goes up), and no side vanishes.
pub open spec fn scaled_side_spec(side: nat, longest: nat, max: nat) -> nat {
    let (factor, unit) = binary64_ratio(max, longest);
    let product = binary64_integer(side * factor);
    let rounded = (2 * product + unit) / (2 * unit);
    if rounded < 1 {
        1
    } else {
        rounded
    }
}

proof fn lemma_scale_up(n: nat, d: nat, unit: nat)
    requires
        0 < n,
        0 < d,
        0 < unit,
        n < MANTISSA_LIMIT * d,
    ensures
        ({
            let (scaled, u) = scale_up(n, d, unit);
            &&& scaled * unit == n * u
            &&& HIDDEN_BIT * d <= scaled < MANTISSA_LIMIT * d
            &&& unit <= u
        }),
    decreases MANTISSA_LIMIT * d - n,
{
    if n < HIDDEN_BIT * d {
        lemma_scale_up(2 * n, d, 2 * unit);
        let (scaled, u) = scale_up(n, d, unit);
        assert(scaled * unit == n * u) by (nonlinear_arith)
            requires
                scaled * (2 * unit) == (2 * n) * u,
        ;
    } else {
        assert(n * unit == n * unit);
    }
}

/// The spacing around an integer gives it fifty-three bits, all of them used where it is wider than
/// one.
pub proof fn lemma_grain(p: nat, unit: nat)
    requires
        0 < unit,
        unit == 1 || p >= HIDDEN_BIT * unit,
    ensures
        ({
            let g = grain(p, unit);
            &&& 0 < g
            &&& p < MANTISSA_LIMIT * g
            &&& g == 1 || p >= HIDDEN_BIT * g
        }),
    decreases p - unit,
{
    if p >= MANTISSA_LIMIT * unit {
        lemma_grain(p, 2 * unit);
    }
}

/// A product of mantissas, rounded to binary64, is off by at most one part in two to the 53.
proof fn lemma_integer_rounding(p: nat)
    ensures
        MANTISSA_LIMIT * p <= MANTISSA_LIMIT * binary64_integer(p) + p,
        MANTISSA_LIMIT * binary64_integer(p) <= MANTISSA_LIMIT * p + p,
{
    lemma_grain(p, 1);
    let g = grain(p, 1);
    rounding_error(p, g);
    if g == 1 {
        assert(p / 1 == p && p % 1 == 0);
        assert(round_half_even(p, 1) * 1 == p);
    }
}

/// The factor is off by at most half a unit of its last place.
proof fn lemma_ratio(n: nat, d: nat)
    requires
        0 < n < d,
        d <= u32::MAX,
    ensures
        ({
            let (factor, unit) = binary64_ratio(n, d);
            &&& 2 * (n * unit) <= 2 * (factor * d) + d
            &&& 2 * (factor * d) <= 2 * (n * unit) + d
            &&& HIDDEN_BIT <= factor <= MANTISSA_LIMIT
            &&& HIDDEN_BIT * d <= n * unit < MANTISSA_LIMIT * d
            &&& 0 < unit
        }),
{
    lemma_scale_up(n, d, 1);
    let (scaled, unit) = scale_up(n, d, 1);
    let factor = round_half_even(scaled, d);
    assert(scaled * 1 == n * unit);
    rounding_error(scaled, d);
    assert(HIDDEN_BIT <= factor <= MANTISSA_LIMIT) by (nonlinear_arith)
        requires
            2 * scaled <= 2 * (factor * d) + d,
            2 * (factor * d) <= 2 * scaled + d,
            HIDDEN_BIT * d <= scaled < MANTISSA_LIMIT * d,
            HIDDEN_BIT == 0x10_0000_0000_0000,
            MANTISSA_LIMIT == 0x20_0000_0000_0000,
            d > 0,
    ;
}

/// A scaled side is the integer nearest to `side * max / longest` (where two are equally near it is
/// one of them), but at least one; it never exceeds `max`, and the longest side becomes `max`.
pub proof fn scaled_side_is_nearest(side: nat, longest: nat, max: nat)
    requires
        0 < max < longest,
        max <= 0xffff,
        side <= longest,
        longest <= u32::MAX,
    ensures
        ({
            let scaled = scaled_side_spec(side, longest, max);
            &&& 1 <= scaled <= max
            &&& scaled == 1 || 2 * (scaled * longest) <= 2 * (side * max) + longest
            &&& 2 * (side * max) <= 2 * (scaled * longest) + longest
            &&& side == longest ==> scaled == max
            &&& side > 0 ==> scaled <= side
        }),
{
    lemma_ratio(max, longest);
    let (factor, unit) = binary64_ratio(max, longest);
    let p = side * factor;
    lemma_integer_rounding(p);
    let product = binary64_integer(p);
    let rounded = (2 * product + unit) / (2 * unit);
    let d = longest;
    // The product differs from side * max / longest by at most three halves of side, in units.
    assert(p <= MANTISSA_LIMIT * side) by (nonlinear_arith)
        requires
            p == side * factor,
            factor <= MANTISSA_LIMIT,
    ;
    assert(p <= product + side && product <= p + side) by (nonlinear_arith)
        requires
            MANTISSA_LIMIT * p <= MANTISSA_LIMIT * product + p,
            MANTISSA_LIMIT * product <= MANTISSA_LIMIT * p + p,
            p <= MANTISSA_LIMIT * side,
            MANTISSA_LIMIT == 0x20_0000_0000_0000,
    ;
    let exact = side * (max * unit);
    assert(2 * (p * d) <= 2 * exact + side * d && 2 * exact <= 2 * (p * d) + side * d)
        by (nonlinear_arith)
        requires
            p == side * factor,
            exact == side * (max * unit),
            2 * (max * unit) <= 2 * (factor * d) + d,
            2 * (factor * d) <= 2 * (max * unit) + d,
    ;
    assert(2 * (product * d) <= 2 * exact + 3 * (side * d)) by (nonlinear_arith)
        requires
            product <= p + side,
            2 * (p * d) <= 2 * exact + side * d,
    ;
    assert(2 * exact <= 2 * (product * d) + 3 * (side * d)) by (nonlinear_arith)
        requires
            p <= product + side,
            2 * exact <= 2 * (p * d) + side * d,
    ;
    // A unit is large against the sides.
    assert(unit * 0xffff >= HIDDEN_BIT * d) by (nonlinear_arith)
        requires
            HIDDEN_BIT * d <= max * unit,
            max <= 0xffff,
    ;
    assert(3 * side < unit) by {
        assert(unit >= 0x10_0000_0000 * d);
    }
    assert(3 * (side * d) < unit * d) by (nonlinear_arith)
        requires
            3 * side < unit,
            d > 0,
    ;
    lemma_fundamental_div_mod((2 * product + unit) as int, (2 * unit) as int);
    let rest = (2 * product + unit) % (2 * unit);
    assert(2 * product + unit == 2 * (rounded * unit) + rest) by (nonlinear_arith)
        requires
            2 * product + unit == (2 * unit) * rounded + rest,
    ;
    // |rounded * unit - product| <= unit / 2
    assert(2 * (rounded * unit) <= 2 * product + unit);
    assert(2 * product < 2 * (rounded * unit) + unit);
    // Scale by longest and divide by unit again.
    let upper = 2 * (rounded * d) - 2 * (side * max) - d;
    assert(upper * unit <= 3 * (side * d)) by (nonlinear_arith)
        requires
            upper == 2 * (rounded * d) - 2 * (side * max) - d,
            2 * (rounded * unit) <= 2 * product + unit,
            2 * (product * d) <= 2 * exact + 3 * (side * d),
            exact == side * (max * unit),
            d > 0,
    ;
    assert(3 * (side * d) < unit * d);
    let lower = 2 * (side * max) - 2 * (rounded * d) - d;
    assert(lower * unit <= 3 * (side * d)) by (nonlinear_arith)
        requires
            lower == 2 * (side * max) - 2 * (rounded * d) - d,
            2 * product < 2 * (rounded * unit) + unit,
            2 * exact <= 2 * (product * d) + 3 * (side * d),
            exact == side * (max * unit),
            d > 0,
    ;
    assert(3 * (side * d) < unit) by (nonlinear_arith)
        requires
            unit >= 0x10_0000_0000 * d,
            side <= 0xffff_ffff,
            d > 0,
    ;
    assert(upper <= 0 && lower <= 0) by (nonlinear_arith)
        requires
            upper * unit <= 3 * (side * d),
            lower * unit <= 3 * (side * d),
            3 * (side * d) < unit,
            unit > 0,
    ;
    assert(rounded <= max) by (nonlinear_arith)
        requires
            2 * (rounded * d) <= 2 * (side * max) + d,
            side <= d,
            d > 1,
            max >= 1,
    ;
    if side == longest {
        assert(rounded >= max) by (nonlinear_arith)
            requires
                2 * (side * max) <= 2 * (rounded * d) + d,
                side == d,
                d > 1,
        ;
    }
    if side > 0 {
        assert(rounded <= side) by (nonlinear_arith)
            requires
                2 * (rounded * d) <= 2 * (side * max) + d,
                max < d,
                side >= 1,
                d > 1,
        ;
    }
    let scaled = scaled_side_spec(side, longest, max);
    assert(2 * (side * max) <= 2 * (scaled * d) + d) by (nonlinear_arith)
        requires
            2 * (side * max) <= 2 * (rounded * d) + d,
            rounded <= scaled,
            d > 0,
    ;
}

/// A side of a picture whose longest side is to measure nothing is one pixel long.
pub proof fn scaled_to_nothing(side: nat, longest: nat)
    requires
        longest > 0,
    ensures
        scaled_side_spec(side, longest, 0) == 1,
{
    let (factor, unit) = binary64_ratio(0, longest);
    assert(factor == 0 && unit == 1) by {
        assert(0nat / longest == 0 && 0nat % longest == 0) by (nonlinear_arith)
            requires
                longest > 0,
        ;
    }
    lemma_integer_rounding(0);
    assert(side * factor == 0) by (nonlinear_arith)
        requires
            factor == 0,
    ;
}

/// Rounds an integer to the nearest binary64 number.
pub fn rounded_integer(p: u128) -> (rounded: u128)
    requires
        p <= 0x2000_0000_0000_0000_0000_0000_0000_0000,
    ensures
        rounded == binary64_integer(p as nat),
        rounded <= 2 * p,
{
    let mut spacing: u128 = 1;
    while p >= 0x20_0000_0000_0000 * spacing
        invariant
            p <= 0x2000_0000_0000_0000_0000_0000_0000_0000,
            0 < spacing <= 0x200_0000_0000_0000_0000,
            grain(p as nat, 1) == grain(p as nat, spacing as nat),
            spacing == 1 || p >= HIDDEN_BIT * spacing,
        decreases p - spacing,
    {
        spacing = spacing * 2;
    }
    proof {
        lemma_integer_rounding(p as nat);
        rounding_error(p as nat, spacing as nat);
        assert(binary64_integer(p as nat) <= 2 * p);
    }
    nearest(p, spacing) * spacing
}

/// Shrinks one side of a picture whose longest side is to measure `max`.
pub fn scaled_side(side: u32, longest: u32, max: u32) -> (scaled: u32)
    requires
        max < longest,
        side <= longest,
    ensures
        scaled == scaled_side_spec(side as nat, longest as nat, max as nat),
{
    if max == 0 {
        proof {
            scaled_to_nothing(side as nat, longest as nat);
        }
        return 1;
    }
    let d: u128 = longest as u128;
    let mut n: u128 = max as u128;
    let mut unit: u128 = 1;
    while n < 0x10_0000_0000_0000 * d
        invariant
            d == longest,
            0 < max < longest,
            0 < n < 0x20_0000_0000_0000 * d,
            n == max * unit,
            0 < unit,
            scale_up(max as nat, d as nat, 1) == scale_up(n as nat, d as nat, unit as nat),
        decreases MANTISSA_LIMIT * d - n,
    {
        proof {
            assert(unit <= n) by (nonlinear_arith)
                requires
                    n == max * unit,
                    max > 0,
            ;
            assert(2 * n == max * (2 * unit)) by (nonlinear_arith)
                requires
                    n == max * unit,
            ;
        }
        n = n * 2;
        unit = unit * 2;
    }
    let factor: u128 = nearest(n, d);
    proof {
        lemma_ratio(max as nat, longest as nat);
        assert(side * factor <= 0xffff_ffff * 0x20_0000_0000_0000) by (nonlinear_arith)
            requires
                side <= 0xffff_ffff,
                factor <= 0x20_0000_0000_0000,
        ;
        assert(unit <= n) by (nonlinear_arith)
            requires
                n == max * unit,
                max > 0,
        ;
    }
    let product: u128 = rounded_integer((side as u128) * factor);
    let rounded: u128 = (2 * product + unit) / (2 * unit);
    proof {
        lemma_rounded_fits(side as nat, longest as nat, max as nat);
    }
    if rounded < 1 {
        1
    } else {
        rounded as u32
    }
}

proof fn lemma_rounded_fits(side: nat, longest: nat, max: nat)
    requires
        0 < max < longest,
        side <= longest,
        longest <= u32::MAX,
    ensures
        ({
            let (factor, unit) = binary64_ratio(max, longest);
            (2 * binary64_integer(side * factor) + unit) / (2 * unit) <= u32::MAX
        }),
{
    lemma_ratio(max, longest);
    let (factor, unit) = binary64_ratio(max, longest);
    let p = side * factor;
    lemma_integer_rounding(p);
    let product = binary64_integer(p);
    let d = longest;
    assert(2 * p <= 2 * (max * unit) + d) by (nonlinear_arith)
        requires
            p == side * factor,
            side <= d,
            2 * (factor * d) <= 2 * (max * unit) + d,
    ;
    assert(p <= MANTISSA_LIMIT * d) by (nonlinear_arith)
        requires
            p == side * factor,
            side <= d,
            factor <= MANTISSA_LIMIT,
    ;
    assert(product <= p + d) by (nonlinear_arith)
        requires
            MANTISSA_LIMIT * product <= MANTISSA_LIMIT * p + p,
            p <= MANTISSA_LIMIT * d,
            MANTISSA_LIMIT == 0x20_0000_0000_0000,
    ;
    assert(unit > 0x1000 && 8 * d < 0x1_0000_0000 * unit) by (nonlinear_arith)
        requires
            HIDDEN_BIT * d <= max * unit,
            max < d,
            d <= 0xffff_ffff,
            HIDDEN_BIT == 0x10_0000_0000_0000,
            d > 1,
    ;
    assert(unit >= HIDDEN_BIT) by (nonlinear_arith)
        requires
            HIDDEN_BIT * d <= max * unit,
            max < d,
    ;
    assert(2 * product + unit <= 2 * (max * unit) + 2 * unit);
    let bound = 2 * (max * unit) + 2 * unit;
    assert(bound == (2 * unit) * (max + 1)) by (nonlinear_arith)
        requires
            bound == 2 * (max * unit) + 2 * unit,
    ;
    assert((2 * product + unit) / (2 * unit) <= max + 1) by (nonlinear_arith)
        requires
            2 * product + unit <= (2 * unit) * (max + 1),
            unit > 0,
    ;
}

} // verus!
