//! Double-precision numbers as bit patterns, and their conversions from and
//! to integers.

use vstd::arithmetic::div_mod::{
    lemma_basic_div, lemma_div_by_multiple, lemma_div_is_ordered, lemma_fundamental_div_mod,
};
use vstd::arithmetic::mul::{lemma_mul_inequality, lemma_mul_strict_inequality};
use vstd::arithmetic::power2::{
    lemma2_to64, lemma2_to64_rest, lemma_pow2_adds, lemma_pow2_pos, lemma_pow2_strictly_increases,
    lemma_pow2_unfold, pow2,
};
use vstd::prelude::*;

verus! {

/// A double-precision floating point number, held as its IEEE 754 binary64
/// bit pattern: one sign bit, eleven exponent bits, fifty-two fraction bits.
#[derive(Clone, Copy, Debug, PartialEq, Eq, Structural)]
pub struct Float64 {
    pub bits: u64,
}

/// The position of the highest bit of `v` that is set.
pub open spec fn log2_floor(v: nat) -> nat
    decreases v,
{
    if v <= 1 {
        0
    } else {
        1 + log2_floor(v / 2)
    }
}

/// The distance between the doubles around the natural number `n`.
pub open spec fn spacing(n: nat) -> nat {
    if n < pow2(53) {
        1
    } else {
        pow2((log2_floor(n) - 52) as nat)
    }
}

/// The multiple of `unit` nearest to `n`; of two that are equally near, the
/// even multiple.
pub open spec fn nearest_multiple(n: nat, unit: nat) -> nat {
    let q = n / unit;
    let r = n % unit;
    if 2 * r < unit || (2 * r == unit && q % 2 == 0) {
        q * unit
    } else {
        (q + 1) * unit
    }
}

/// The natural number that the double nearest to `n` stands for.
pub open spec fn rounded(n: nat) -> nat {
    nearest_multiple(n, spacing(n))
}

/// The fifty-three significant bits of a natural number that has no more.
pub open spec fn significand(v: nat) -> nat {
    let e = log2_floor(v);
    if e <= 52 {
        v * pow2((52 - e) as nat)
    } else {
        v / pow2((e - 52) as nat)
    }
}

/// The bit pattern of the double that stands for the natural number `v`,
/// where there is one.
pub open spec fn bits_of_natural(v: nat) -> nat {
    if v == 0 {
        0
    } else {
        ((1023 + log2_floor(v)) * pow2(52) + significand(v) - pow2(52)) as nat
    }
}

/// The bit pattern of the double nearest to an integer, ties going to the
/// double with an even significand.
pub open spec fn bits_of_integer(n: int) -> nat {
    if n < 0 {
        pow2(63) + bits_of_natural(rounded((-n) as nat))
    } else {
        bits_of_natural(rounded(n as nat))
    }
}

/// The exponent field of a bit pattern.
pub open spec fn exponent_field(bits: u64) -> nat {
    ((bits as nat) / pow2(52)) % 2048
}

/// The fraction field of a bit pattern.
pub open spec fn fraction_field(bits: u64) -> nat {
    (bits as nat) % pow2(52)
}

/// Whether the sign bit of a bit pattern is set.
pub open spec fn sign_field(bits: u64) -> bool {
    bits as nat >= pow2(63)
}

/// Whether a bit pattern is not a number.
pub open spec fn is_nan(bits: u64) -> bool {
    exponent_field(bits) == 2047 && fraction_field(bits) != 0
}

/// The magnitude of a double without its fractional part. For an infinite
/// double it is a number beyond every 64-bit integer.
pub open spec fn whole_magnitude(bits: u64) -> nat {
    let x = exponent_field(bits);
    let m = pow2(52) + fraction_field(bits);
    if x == 0 {
        0
    } else if x >= 1075 {
        m * pow2((x - 1075) as nat)
    } else {
        m / pow2((1075 - x) as nat)
    }
}

/// The integer that a double turns into: its value without the fractional
/// part, kept within the 64-bit signed integers; zero where it is not a
/// number.
pub open spec fn integer_of_bits(bits: u64) -> int {
    if is_nan(bits) {
        0
    } else if sign_field(bits) {
        if whole_magnitude(bits) >= pow2(63) {
            i64::MIN as int
        } else {
            -(whole_magnitude(bits) as int)
        }
    } else {
        if whole_magnitude(bits) > i64::MAX {
            i64::MAX as int
        } else {
            whole_magnitude(bits) as int
        }
    }
}

/// A number between two neighbouring powers of two has the smaller one's
/// exponent as the position of its highest bit.
pub proof fn lemma_log2_between(v: nat, e: nat)
    requires
        pow2(e) <= v < pow2(e + 1),
    ensures
        log2_floor(v) == e,
    decreases e,
{
    lemma2_to64();
    if e == 0 {
        assert(v == 1);
    } else {
        lemma_pow2_unfold(e);
        lemma_pow2_unfold(e + 1);
        lemma_pow2_pos((e - 1) as nat);
        assert(v >= 2);
        lemma_log2_between(v / 2, (e - 1) as nat);
    }
}

/// Multiplying by a power of two moves the highest bit up by the exponent.
pub proof fn lemma_log2_scaled(m: nat, k: nat)
    requires
        m >= 1,
    ensures
        log2_floor(m * pow2(k)) == log2_floor(m) + k,
    decreases k,
{
    lemma2_to64();
    if k == 0 {
        assert(m * pow2(0) == m);
    } else {
        lemma_pow2_unfold(k);
        lemma_pow2_pos((k - 1) as nat);
        let half = m * pow2((k - 1) as nat);
        assert(m * pow2(k) == 2 * half) by (nonlinear_arith)
            requires
                pow2(k) == 2 * pow2((k - 1) as nat),
                half == m * pow2((k - 1) as nat),
        ;
        assert(half >= 1) by (nonlinear_arith)
            requires
                half == m * pow2((k - 1) as nat),
                m >= 1,
                pow2((k - 1) as nat) >= 1,
        ;
        lemma_log2_scaled(m, (k - 1) as nat);
        assert((2 * half) / 2 == half);
    }
}

/// The power of two with exponent `k`.
fn power_of_two(k: u32) -> (p: u64)
    requires
        k < 64,
    ensures
        p == pow2(k as nat),
        p >= 1,
{
    let mut p: u64 = 1;
    let mut i: u32 = 0;
    proof {
        lemma2_to64();
    }
    while i < k
        invariant
            i <= k < 64,
            p == pow2(i as nat),
            p >= 1,
        decreases k - i,
    {
        proof {
            lemma_pow2_unfold((i + 1) as nat);
            lemma2_to64();
            lemma2_to64_rest();
            if i + 1 < 63 {
                lemma_pow2_strictly_increases((i + 1) as nat, 63);
            }
        }
        p = p * 2;
        i += 1;
    }
    p
}

/// The position of the highest bit of `n` that is set.
fn highest_bit(n: u64) -> (e: u32)
    requires
        n > 0,
    ensures
        e == log2_floor(n as nat),
        e < 64,
        pow2(e as nat) <= n < pow2((e + 1) as nat),
{
    let mut e: u32 = 0;
    let mut rest: u64 = n;
    proof {
        lemma2_to64();
        assert(rest * pow2(0) == n) by (nonlinear_arith)
            requires
                rest == n,
                pow2(0) == 1,
        ;
    }
    while rest > 1
        invariant
            rest >= 1,
            e < 64,
            rest * pow2(e as nat) <= n < (rest + 1) * pow2(e as nat),
            rest > 1 ==> e < 63,
        decreases rest,
    {
        let half = rest / 2;
        proof {
            let p = pow2(e as nat);
            lemma_pow2_unfold((e + 1) as nat);
            lemma_pow2_pos(e as nat);
            assert(half * (2 * p) <= rest * p) by (nonlinear_arith)
                requires
                    2 * half <= rest,
                    p >= 0,
            ;
            assert((rest + 1) * p <= (half + 1) * (2 * p)) by (nonlinear_arith)
                requires
                    rest + 1 <= 2 * half + 2,
                    p >= 0,
            ;
            if half > 1 {
                lemma2_to64();
                if e + 1 >= 63 {
                    lemma_pow2_strictly_increases(63, (e + 2) as nat);
                    if e + 1 > 63 {
                        lemma_pow2_strictly_increases(63, (e + 1) as nat);
                    }
                    lemma2_to64_rest();
                    assert(half * pow2((e + 1) as nat) >= 2 * pow2(63)) by (nonlinear_arith)
                        requires
                            half >= 2,
                            pow2((e + 1) as nat) >= pow2(63),
                    ;
                    assert(false);
                }
            }
            if e + 1 >= 64 {
                lemma2_to64();
                lemma_pow2_pos(64);
                assert(half >= 1);
                assert(half * pow2((e + 1) as nat) >= pow2(64)) by (nonlinear_arith)
                    requires
                        half >= 1,
                        pow2((e + 1) as nat) == pow2(64),
                ;
                assert(false);
            }
        }
        rest = half;
        e += 1;
    }
    proof {
        let p = pow2(e as nat);
        assert(rest == 1);
        assert(1 * p == p && 2 * p == (rest + 1) * p) by (nonlinear_arith)
            requires
                rest == 1,
        ;
        lemma_pow2_unfold((e + 1) as nat);
        lemma_log2_between(n as nat, e as nat);
    }
    e
}

impl Float64 {
    /// The number with the given bit pattern.
    pub fn from_bits(bits: u64) -> (number: Float64)
        ensures
            number.bits == bits,
    {
        Float64 { bits }
    }

    /// The bit pattern of the number.
    pub fn to_bits(self) -> (bits: u64)
        ensures
            bits == self.bits,
    {
        self.bits
    }

    /// The double nearest to an unsigned integer. Of two doubles that are
    /// equally near, the one with the even significand is taken.
    pub fn from_u64(value: u64) -> (number: Float64)
        ensures
            number.bits == bits_of_natural(rounded(value as nat)),
    {
        proof {
            lemma2_to64();
            lemma2_to64_rest();
        }
        if value == 0 {
            assert(rounded(0) == 0) by {
                assert(spacing(0) == 1);
            }
            return Float64 { bits: 0 };
        }
        let e = highest_bit(value);
        let ghost n = value as nat;
        if e <= 52 {
            let scale = power_of_two(52 - e);
            proof {
                if e < 52 {
                    lemma_pow2_strictly_increases((e + 1) as nat, 53);
                }
                lemma_rounded_small(n);
            }
            let m = value * scale;
            let bits = (1023 + (e as u64)) * 4503599627370496 + m - 4503599627370496;
            Float64 { bits }
        } else {
            let shift = e - 52;
            let unit = power_of_two(shift);
            proof {
                lemma_pow2_strictly_increases(52, e as nat);
                if e > 53 {
                    lemma_pow2_strictly_increases(53, e as nat);
                }
                lemma_rounded_large(n);
                lemma_pow2_strictly_increases(shift as nat, 12);
            }
            let q = value / unit;
            let r = value % unit;
            let up = !(2 * r < unit || (2 * r == unit && q % 2 == 0));
            let m = if up {
                q + 1
            } else {
                q
            };
            let bits = (1023 + (e as u64)) * 4503599627370496 + m - 4503599627370496;
            Float64 { bits }
        }
    }

    /// The double nearest to a signed integer. Of two doubles that are
    /// equally near, the one with the even significand is taken.
    pub fn from_i64(value: i64) -> (number: Float64)
        ensures
            number.bits == bits_of_integer(value as int),
    {
        proof {
            lemma2_to64();
            lemma2_to64_rest();
        }
        if value < 0 {
            let magnitude: u64 = ((-(value + 1)) as u64) + 1;
            let positive = Float64::from_u64(magnitude);
            proof {
                lemma_bits_below_sign(magnitude as nat);
            }
            Float64 { bits: 9223372036854775808 + positive.bits }
        } else {
            Float64::from_u64(value as u64)
        }
    }

    /// The integer that the double turns into: its value without the
    /// fractional part, kept within the 64-bit signed integers; zero where
    /// it is not a number.
    pub fn to_i64(self) -> (integer: i64)
        ensures
            integer == integer_of_bits(self.bits),
    {
        proof {
            lemma2_to64();
            lemma2_to64_rest();
        }
        let bits = self.bits;
        let x: u64 = (bits / 4503599627370496) % 2048;
        let f: u64 = bits % 4503599627370496;
        let negative = bits >= 9223372036854775808;
        let m: u64 = 4503599627370496 + f;
        if x == 2047 && f != 0 {
            return 0;
        }
        if x < 1023 {
            proof {
                if x > 0 {
                    if x < 1022 {
                        lemma_pow2_strictly_increases(53, (1075 - x) as nat);
                    }
                    lemma_basic_div(m as int, pow2((1075 - x) as nat) as int);
                }
                assert(whole_magnitude(bits) == 0);
            }
            return 0;
        }
        if x >= 1086 {
            proof {
                if x > 1086 {
                    lemma_pow2_strictly_increases(11, (x - 1075) as nat);
                }
                lemma_mul_inequality(
                    pow2(11) as int,
                    pow2((x - 1075) as nat) as int,
                    m as int,
                );
                lemma_mul_inequality(pow2(52) as int, m as int, pow2(11) as int);
                assert(pow2(52) * pow2(11) == pow2(63)) by {
                    lemma_pow2_adds(52, 11);
                }
                assert(m * pow2((x - 1075) as nat) == pow2((x - 1075) as nat) * m)
                    by (nonlinear_arith);
                assert(m * pow2(11) == pow2(11) * m) by (nonlinear_arith);
                assert(whole_magnitude(bits) >= pow2(63));
            }
            if negative {
                return i64::MIN;
            } else {
                return i64::MAX;
            }
        }
        let magnitude: u64 = if x >= 1075 {
            let scale = power_of_two((x - 1075) as u32);
            proof {
                if x < 1085 {
                    lemma_pow2_strictly_increases((x - 1075) as nat, 10);
                }
                lemma_mul_inequality(scale as int, pow2(10) as int, m as int);
                lemma_mul_strict_inequality(m as int, pow2(53) as int, pow2(10) as int);
                lemma_pow2_adds(53, 10);
                assert(m * scale == scale * m) by (nonlinear_arith);
                assert(m * pow2(10) == pow2(10) * m) by (nonlinear_arith);
            }
            m * scale
        } else {
            let scale = power_of_two((1075 - x) as u32);
            proof {
                lemma_div_is_ordered(0, m as int, scale as int);
                lemma_fundamental_div_mod(m as int, scale as int);
                assert(m / scale <= m) by (nonlinear_arith)
                    requires
                        m == scale * (m / scale) + m % scale,
                        scale >= 1,
                        m / scale >= 0,
                        m % scale >= 0,
                ;
            }
            m / scale
        };
        assert(magnitude == whole_magnitude(bits));
        assert(magnitude < 9223372036854775808);
        if negative {
            -(magnitude as i64)
        } else {
            magnitude as i64
        }
    }
}

/// The bit pattern of the double of a natural number below 2^64 leaves the
/// sign bit free.
pub proof fn lemma_bits_below_sign(n: nat)
    requires
        0 < n <= pow2(63),
    ensures
        bits_of_natural(rounded(n)) < pow2(63),
{
    lemma2_to64();
    lemma2_to64_rest();
    let e = log2_floor(n);
    lemma_log2_range(n);
    assert(e <= 63) by {
        if e > 63 {
            lemma_pow2_strictly_increases(63, e);
        }
    }
    let v = rounded(n);
    lemma_rounded_shape(n);
}

/// A positive number lies between the power of two at its highest bit and
/// the next one.
pub proof fn lemma_log2_range(v: nat)
    requires
        v > 0,
    ensures
        pow2(log2_floor(v)) <= v < pow2(log2_floor(v) + 1),
    decreases v,
{
    lemma2_to64();
    if v > 1 {
        lemma_log2_range(v / 2);
        lemma_pow2_unfold(log2_floor(v));
        lemma_pow2_unfold(log2_floor(v) + 1);
    }
}

/// How many times the spacing around `n` the double nearest to `n` holds.
pub open spec fn rounded_multiple(n: nat) -> nat {
    let q = n / spacing(n);
    let r = n % spacing(n);
    if 2 * r < spacing(n) || (2 * r == spacing(n) && q % 2 == 0) {
        q
    } else {
        q + 1
    }
}

/// Of a natural number of more than fifty-three bits: the spacing around it
/// is a power of two, the number holds the spacing between 2^52 and 2^53
/// times, and the double nearest to it is the spacing times that count or
/// the next.
pub proof fn lemma_rounded_large(n: nat)
    requires
        n >= pow2(53),
    ensures
        log2_floor(n) >= 53,
        spacing(n) == pow2((log2_floor(n) - 52) as nat),
        spacing(n) >= 2,
        n == (n / spacing(n)) * spacing(n) + n % spacing(n),
        n % spacing(n) < spacing(n),
        pow2(52) <= n / spacing(n) < pow2(53),
        rounded(n) == rounded_multiple(n) * spacing(n),
        rounded(n) > 0,
        rounded_multiple(n) < pow2(53) ==> log2_floor(rounded(n)) == log2_floor(n) && significand(
            rounded(n),
        ) == rounded_multiple(n),
        rounded_multiple(n) >= pow2(53) ==> rounded_multiple(n) == pow2(53) && log2_floor(
            rounded(n),
        ) == log2_floor(n) + 1 && significand(rounded(n)) == pow2(52),
{
    lemma2_to64();
    lemma2_to64_rest();
    let e = log2_floor(n);
    lemma_log2_range(n);
    assert(e >= 53) by {
        if e < 53 {
            if e + 1 < 53 {
                lemma_pow2_strictly_increases(e + 1, 53);
            }
        }
    }
    let shift = (e - 52) as nat;
    let unit = pow2(shift);
    lemma_pow2_pos(shift);
    assert(unit >= 2) by {
        if shift > 1 {
            lemma_pow2_strictly_increases(1, shift);
        }
    }
    let q = n / unit;
    let r = n % unit;
    lemma_pow2_adds(52, shift);
    lemma_pow2_adds(53, shift);
    lemma_fundamental_div_mod(n as int, unit as int);
    assert(n == q * unit + r) by (nonlinear_arith)
        requires
            n == unit * q + r,
    ;
    lemma_div_by_multiple(pow2(52) as int, unit as int);
    lemma_div_is_ordered((pow2(52) * unit) as int, n as int, unit as int);
    assert(q >= pow2(52));
    assert(q < pow2(53)) by {
        if q >= pow2(53) {
            lemma_mul_inequality(pow2(53) as int, q as int, unit as int);
            assert(unit * q == q * unit) by (nonlinear_arith);
        }
    }
    let m = rounded_multiple(n);
    let v = m * unit;
    assert(rounded(n) == v);
    lemma_log2_scaled(m, shift);
    lemma_div_by_multiple(m as int, unit as int);
    assert(v > 0) by (nonlinear_arith)
        requires
            v == m * unit,
            m >= 1,
            unit >= 1,
    ;
    if m < pow2(53) {
        lemma_log2_between(m, 52);
        assert(significand(v) == m);
    } else {
        lemma_log2_between(m, 53);
        lemma_pow2_unfold(shift + 1);
        assert(v == pow2(52) * pow2(shift + 1)) by (nonlinear_arith)
            requires
                v == m * unit,
                m == 2 * pow2(52),
                unit == pow2(shift),
                pow2(shift + 1) == 2 * pow2(shift),
        ;
        lemma_pow2_pos(shift + 1);
        lemma_div_by_multiple(pow2(52) as int, pow2(shift + 1) as int);
        assert(significand(v) == pow2(52));
    }
}

/// A natural number of at most fifty-three bits is its own nearest double,
/// and its significand has fifty-three bits.
pub proof fn lemma_rounded_small(n: nat)
    requires
        0 < n < pow2(53),
    ensures
        rounded(n) == n,
        log2_floor(n) <= 52,
        significand(n) == n * pow2((52 - log2_floor(n)) as nat),
        pow2(52) <= significand(n) < pow2(53),
{
    lemma2_to64();
    lemma2_to64_rest();
    let e = log2_floor(n);
    lemma_log2_range(n);
    assert(spacing(n) == 1);
    assert(n / 1 == n && n % 1 == 0);
    assert(rounded(n) == n) by {
        assert(n * 1 == n);
    }
    assert(e <= 52) by {
        if e > 52 {
            lemma_pow2_strictly_increases(52, e);
            if e > 53 {
                lemma_pow2_strictly_increases(53, e);
            }
        }
    }
    lemma_pow2_adds(e, (52 - e) as nat);
    lemma_pow2_adds(e + 1, (52 - e) as nat);
    lemma_pow2_pos((52 - e) as nat);
    lemma_mul_inequality(pow2(e) as int, n as int, pow2((52 - e) as nat) as int);
    lemma_mul_strict_inequality(n as int, pow2(e + 1) as int, pow2((52 - e) as nat) as int);
}

/// The double of a positive natural number has the exponent of the number's
/// highest bit, or the next one, and a significand of fifty-three bits.
pub proof fn lemma_rounded_shape(n: nat)
    requires
        n > 0,
    ensures
        rounded(n) > 0,
        log2_floor(n) <= log2_floor(rounded(n)) <= log2_floor(n) + 1,
        pow2(52) <= significand(rounded(n)) < pow2(53),
{
    lemma2_to64();
    lemma2_to64_rest();
    if n < pow2(53) {
        lemma_rounded_small(n);
    } else {
        lemma_rounded_large(n);
    }
}

/// Whether a natural number is the value of a double: a number of at most
/// fifty-three bits times a power of two.
pub open spec fn is_representable(v: nat) -> bool {
    exists|m: nat, k: nat| m < pow2(53) && v == #[trigger] (m * pow2(k))
}

/// How far two natural numbers are apart.
pub open spec fn distance(a: nat, b: nat) -> nat {
    if a >= b {
        (a - b) as nat
    } else {
        (b - a) as nat
    }
}

/// Between two neighbouring multiples of the spacing around a number of
/// more than fifty-three bits lies no value of a double.
pub proof fn lemma_no_double_between(n: nat, w: nat)
    requires
        n >= pow2(53),
        is_representable(w),
    ensures
        w <= (n / spacing(n)) * spacing(n) || w >= (n / spacing(n) + 1) * spacing(n),
{
    lemma2_to64();
    lemma2_to64_rest();
    lemma_rounded_large(n);
    let shift = (log2_floor(n) - 52) as nat;
    let unit = spacing(n);
    let q = n / unit;
    let (m, k) = choose|m: nat, k: nat| m < pow2(53) && w == #[trigger] (m * pow2(k));
    lemma_pow2_pos(k);
    if q * unit < w && w < (q + 1) * unit {
        if k >= shift {
            lemma_pow2_adds((k - shift) as nat, shift);
            let t = m * pow2((k - shift) as nat);
            assert(w == t * unit) by (nonlinear_arith)
                requires
                    w == m * pow2(k),
                    pow2(k) == pow2((k - shift) as nat) * unit,
                    t == m * pow2((k - shift) as nat),
            ;
            assert(q < t) by (nonlinear_arith)
                requires
                    q * unit < t * unit,
                    unit > 0,
            ;
            assert(t < q + 1) by (nonlinear_arith)
                requires
                    t * unit < (q + 1) * unit,
                    unit > 0,
            ;
        } else {
            if k < shift - 1 {
                lemma_pow2_strictly_increases(k, (shift - 1) as nat);
            }
            lemma_pow2_unfold(shift);
            let small = pow2((shift - 1) as nat);
            assert(w < pow2(52) * unit) by (nonlinear_arith)
                requires
                    w == m * pow2(k),
                    m < pow2(53),
                    pow2(53) == 2 * pow2(52),
                    pow2(k) <= small,
                    unit == 2 * small,
                    pow2(k) > 0,
            ;
            assert(pow2(52) * unit <= q * unit) by (nonlinear_arith)
                requires
                    pow2(52) <= q,
                    unit > 0,
            ;
        }
    }
}

/// The double nearest to a natural number stands for a value of a double,
/// and no value of a double is nearer to the number.
pub proof fn law_rounded_is_nearest(n: nat, w: nat)
    requires
        is_representable(w),
    ensures
        is_representable(rounded(n)),
        distance(rounded(n), n) <= distance(w, n),
{
    lemma2_to64();
    lemma2_to64_rest();
    if n < pow2(53) {
        if n > 0 {
            lemma_rounded_small(n);
        } else {
            assert(spacing(0) == 1);
            assert(rounded(0) == 0);
        }
        assert(n == n * pow2(0)) by (nonlinear_arith)
            requires
                pow2(0) == 1,
        ;
    } else {
        lemma_rounded_large(n);
        lemma_no_double_between(n, w);
        let unit = spacing(n);
        let shift = (log2_floor(n) - 52) as nat;
        let q = n / unit;
        let r = n % unit;
        let m = rounded_multiple(n);
        assert((q + 1) * unit == q * unit + unit) by (nonlinear_arith);
        if m < pow2(53) {
            assert(rounded(n) == m * pow2(shift));
        } else {
            lemma_pow2_unfold(shift + 1);
            assert(rounded(n) == pow2(52) * pow2(shift + 1)) by (nonlinear_arith)
                requires
                    rounded(n) == m * unit,
                    m == 2 * pow2(52),
                    unit == pow2(shift),
                    pow2(shift + 1) == 2 * pow2(shift),
            ;
        }
    }
}

/// Where two values of doubles are equally near to a natural number, the
/// double nearest to the number is the one with the even significand.
pub proof fn law_rounded_ties_to_even(n: nat, w: nat)
    requires
        is_representable(w),
        w != rounded(n),
        distance(w, n) == distance(rounded(n), n),
    ensures
        significand(rounded(n)) % 2 == 0,
{
    lemma2_to64();
    lemma2_to64_rest();
    if n < pow2(53) {
        if n > 0 {
            lemma_rounded_small(n);
        } else {
            assert(spacing(0) == 1);
            assert(rounded(0) == 0);
        }
    } else {
        lemma_rounded_large(n);
        lemma_no_double_between(n, w);
        let unit = spacing(n);
        let q = n / unit;
        assert((q + 1) * unit == q * unit + unit) by (nonlinear_arith);
    }
}

/// An integer of at most fifty-three bits is the value of the double
/// nearest to it, and turning that double into an integer gives it back.
pub proof fn law_small_integers_survive(n: int)
    requires
        -pow2(53) < n < pow2(53),
    ensures
        bits_of_integer(n) < pow2(64),
        integer_of_bits(bits_of_integer(n) as u64) == n,
{
    lemma2_to64();
    lemma2_to64_rest();
    let magnitude = if n < 0 {
        (-n) as nat
    } else {
        n as nat
    };
    if magnitude == 0 {
        assert(spacing(0) == 1);
        assert(rounded(0) == 0);
        assert(bits_of_integer(n) == 0);
        assert(0nat / pow2(52) == 0);
        assert(whole_magnitude(0u64) == 0);
    } else {
        lemma_rounded_small(magnitude);
        let e = log2_floor(magnitude);
        let scale = pow2((52 - e) as nat);
        lemma_pow2_pos((52 - e) as nat);
        let sig = significand(magnitude);
        let low = (bits_of_natural(magnitude)) as nat;
        let fraction = (sig - pow2(52)) as nat;
        assert(low == (1023 + e) * pow2(52) + fraction);
        let bits = bits_of_integer(n);
        assert(bits == if n < 0 {
            pow2(63) + low
        } else {
            low
        });
        assert(low < pow2(63)) by (nonlinear_arith)
            requires
                low == (1023 + e) * pow2(52) + fraction,
                e <= 52,
                fraction < pow2(52),
                pow2(52) == 0x10000000000000,
                pow2(63) == 0x8000000000000000,
        ;
        let field = (1023 + e) as nat;
        let wide = if n < 0 {
            (2048 + field) as nat
        } else {
            field
        };
        assert(bits == wide * pow2(52) + fraction) by (nonlinear_arith)
            requires
                bits == if n < 0 {
                    pow2(63) + low
                } else {
                    low
                },
                low == field * pow2(52) + fraction,
                wide == if n < 0 {
                    (2048 + field) as nat
                } else {
                    field
                },
                pow2(63) == 2048 * pow2(52),
        ;
        vstd::arithmetic::div_mod::lemma_fundamental_div_mod_converse(
            bits as int,
            pow2(52) as int,
            wide as int,
            fraction as int,
        );
        let pattern = bits as u64;
        assert(pattern as nat == bits);
        assert(exponent_field(pattern) == field);
        assert(fraction_field(pattern) == fraction);
        assert(sign_field(pattern) == (n < 0));
        lemma_div_by_multiple(magnitude as int, scale as int);
        assert(whole_magnitude(pattern) == magnitude);
    }
}

} // verus!
