//! Exact rational durations: a fraction of a whole note, kept as a
//! numerator/denominator pair of machine integers.

use vstd::prelude::*;
use vstd::arithmetic::div_mod::*;
use vstd::arithmetic::mul::*;

verus! {

/// `d` measures `n`: some whole multiple of `d` equals `n`.
pub open spec fn divides(d: int, n: int) -> bool {
    exists|k: int| n == #[trigger] (k * d)
}

/// Greatest common divisor, by Euclid's algorithm.
pub open spec fn spec_gcd(a: nat, b: nat) -> nat
    decreases b,
{
    if b == 0 {
        a
    } else {
        spec_gcd(b, a % b)
    }
}

/// The gcd divides both of its arguments.
pub proof fn lemma_gcd_divides(a: nat, b: nat)
    ensures
        divides(spec_gcd(a, b) as int, a as int),
        divides(spec_gcd(a, b) as int, b as int),
    decreases b,
{
    if b == 0 {
        assert(a as int == 1 * (a as int));
        assert(b as int == 0 * (a as int));
    } else {
        lemma_gcd_divides(b, a % b);
        let g = spec_gcd(b, a % b) as int;
        let k1 = choose|k: int| b as int == #[trigger] (k * g);
        let k2 = choose|k: int| (a % b) as int == #[trigger] (k * g);
        lemma_fundamental_div_mod(a as int, b as int);
        assert(a as int == (k1 * ((a as int) / (b as int)) + k2) * g) by (nonlinear_arith)
            requires
                a as int == (b as int) * ((a as int) / (b as int)) + (a % b) as int,
                b as int == k1 * g,
                (a % b) as int == k2 * g,
        ;
    }
}

/// Every common divisor of `a` and `b` divides their gcd.
pub proof fn lemma_common_divisor_divides_gcd(c: nat, a: nat, b: nat)
    requires
        divides(c as int, a as int),
        divides(c as int, b as int),
    ensures
        divides(c as int, spec_gcd(a, b) as int),
    decreases b,
{
    if b == 0 {
    } else {
        let ka = choose|k: int| a as int == #[trigger] (k * (c as int));
        let kb = choose|k: int| b as int == #[trigger] (k * (c as int));
        lemma_fundamental_div_mod(a as int, b as int);
        assert((a % b) as int == (ka - kb * ((a as int) / (b as int))) * (c as int))
            by (nonlinear_arith)
            requires
                a as int == (b as int) * ((a as int) / (b as int)) + (a % b) as int,
                a as int == ka * (c as int),
                b as int == kb * (c as int),
        ;
        lemma_common_divisor_divides_gcd(c, b, a % b);
    }
}

/// The gcd of two numbers, at least one positive, is positive.
pub proof fn lemma_gcd_pos(a: nat, b: nat)
    requires
        a > 0 || b > 0,
    ensures
        spec_gcd(a, b) > 0,
    decreases b,
{
    if b != 0 {
        lemma_gcd_pos(b, a % b);
    }
}

/// A positive divisor of a positive number is no larger than it.
pub proof fn lemma_divides_le(d: int, n: int)
    requires
        0 < d,
        0 < n,
        divides(d, n),
    ensures
        d <= n,
{
    let k = choose|k: int| n == #[trigger] (k * d);
    assert(k >= 1 ==> n >= d) by (nonlinear_arith)
        requires
            n == k * d,
            d > 0,
    ;
    assert(k >= 1) by (nonlinear_arith)
        requires
            n == k * d,
            d > 0,
            n > 0,
    ;
}

/// Scaling both arguments scales the gcd: `gcd(a*c, b*c) == gcd(a, b)*c`.
pub proof fn lemma_gcd_scale(a: nat, b: nat, c: nat)
    requires
        c > 0,
    ensures
        spec_gcd(a * c, b * c) == spec_gcd(a, b) * c,
    decreases b,
{
    if b == 0 {
        assert(b * c == 0);
    } else {
        assert(b * c > 0) by (nonlinear_arith)
            requires
                b > 0,
                c > 0,
        ;
        let m0 = a % b;
        lemma_truncate_middle(a as int, c as int, b as int);
        assert((c * (a as int)) % (c * (b as int)) == c * (m0 as int));
        assert((a * c) as int == c * (a as int)) by (nonlinear_arith);
        assert((b * c) as int == c * (b as int)) by (nonlinear_arith);
        assert((m0 * c) as int == c * (m0 as int)) by (nonlinear_arith);
        assert((a * c) % (b * c) == m0 * c);
        lemma_gcd_scale(b, a % b, c);
        assert(spec_gcd(a * c, b * c) == spec_gcd(b * c, (a * c) % (b * c)));
    }
}

/// The gcd does not depend on the order of its arguments.
pub proof fn lemma_gcd_comm(a: nat, b: nat)
    ensures
        spec_gcd(a, b) == spec_gcd(b, a),
{
    if a == 0 && b == 0 {
        assert(spec_gcd(0, 0) == 0);
    } else {
        lemma_gcd_divides(a, b);
        lemma_gcd_divides(b, a);
        lemma_common_divisor_divides_gcd(spec_gcd(a, b), b, a);
        lemma_common_divisor_divides_gcd(spec_gcd(b, a), a, b);
        lemma_gcd_pos(a, b);
        lemma_gcd_pos(b, a);
        lemma_divides_le(spec_gcd(a, b) as int, spec_gcd(b, a) as int);
        lemma_divides_le(spec_gcd(b, a) as int, spec_gcd(a, b) as int);
    }
}

/// Euclid's lemma: a number coprime to `x` that divides `x*d` divides `d`.
pub proof fn lemma_coprime_divides(p: nat, x: nat, d: nat)
    requires
        p > 0,
        spec_gcd(p, x) == 1,
        divides(p as int, (x * d) as int),
    ensures
        divides(p as int, d as int),
{
    if d == 0 {
        assert(d as int == 0 * (p as int));
    } else {
        lemma_gcd_scale(p, x, d);
        assert(spec_gcd(p * d, x * d) == d) by {
            assert(1 * d == d) by (nonlinear_arith);
        }
        assert(divides(p as int, (p * d) as int)) by {
            assert((p * d) as int == (d as int) * (p as int)) by (nonlinear_arith);
        }
        lemma_common_divisor_divides_gcd(p, p * d, x * d);
    }
}

/// The product of two 64-bit values fits in 128 bits.
proof fn lemma_u64_mul_in_u128(a: u64, b: u64)
    ensures
        0 <= (a as int) * (b as int) <= u128::MAX,
{
    lemma_mul_upper_bound(a as int, u64::MAX as int, b as int, u64::MAX as int);
    lemma_mul_nonnegative(a as int, b as int);
}

/// A fraction of a whole note. Arithmetic results are exact; `simplify`
/// reduces to lowest terms.
#[derive(Clone, Copy, Debug, PartialEq, Eq, Structural)]
pub struct Fraction {
    /// Numerator.
    pub num: u64,
    /// Denominator; positive in every fraction the engine builds.
    pub den: u64,
}

/// The fraction's denominator is positive and it shares no factor with the
/// numerator.
pub open spec fn in_lowest_terms(f: Fraction) -> bool {
    f.den > 0 && spec_gcd(f.num as nat, f.den as nat) == 1
}

/// `f` and the fraction `m / d` stand for the same rational value.
pub open spec fn same_value(f: Fraction, m: int, d: int) -> bool {
    (f.num as int) * d == m * (f.den as int)
}

/// Among all pairs of equal value with a positive denominator, a fraction in
/// lowest terms has the smallest denominator, and that denominator measures
/// every other one.
pub proof fn lemma_lowest_terms_minimal(f: Fraction, m: int, d: int)
    requires
        in_lowest_terms(f),
        0 < d,
        0 <= m,
        same_value(f, m, d),
    ensures
        divides(f.den as int, d),
        f.den as int <= d,
{
    lemma_gcd_comm(f.num as nat, f.den as nat);
    assert(divides(f.den as int, (f.num as nat * d as nat) as int)) by {
        assert((f.num as nat * d as nat) as int == m * (f.den as int)) by (nonlinear_arith)
            requires
                (f.num as int) * d == m * (f.den as int),
                0 <= m,
                0 < d,
        ;
    }
    lemma_coprime_divides(f.den as nat, f.num as nat, d as nat);
    lemma_divides_le(f.den as int, d);
}

/// Two fractions in lowest terms with the same value are the same pair.
pub proof fn lemma_lowest_terms_unique(f1: Fraction, f2: Fraction)
    requires
        in_lowest_terms(f1),
        in_lowest_terms(f2),
        (f1.num as int) * (f2.den as int) == (f2.num as int) * (f1.den as int),
    ensures
        f1 == f2,
{
    lemma_lowest_terms_minimal(f1, f2.num as int, f2.den as int);
    lemma_lowest_terms_minimal(f2, f1.num as int, f1.den as int);
    assert(f1.den == f2.den);
    assert(f1.num == f2.num) by (nonlinear_arith)
        requires
            (f1.num as int) * (f2.den as int) == (f2.num as int) * (f1.den as int),
            f1.den == f2.den,
            f1.den > 0,
    ;
}

/// Greatest common divisor of two machine integers.
pub fn gcd(a: u64, b: u64) -> (r: u64)
    ensures
        r == spec_gcd(a as nat, b as nat),
{
    let mut x = a;
    let mut y = b;
    while y != 0
        invariant
            spec_gcd(x as nat, y as nat) == spec_gcd(a as nat, b as nat),
        decreases y,
    {
        let t = x % y;
        x = y;
        y = t;
    }
    x
}

impl Fraction {
    /// Build a fraction from its parts, unreduced.
    pub fn new(num: u64, den: u64) -> (r: Self)
        ensures
            r.num == num,
            r.den == den,
    {
        Fraction { num, den }
    }

    /// Exact sum; the caller simplifies when a reduced form is wanted.
    pub fn add(self, other: Self) -> (r: Self)
        requires
            self.den > 0,
            other.den > 0,
            self.num * other.den + other.num * self.den <= u64::MAX,
            self.den * other.den <= u64::MAX,
        ensures
            r.num == self.num * other.den + other.num * self.den,
            r.den == self.den * other.den,
    {
        Fraction { num: self.num * other.den + other.num * self.den, den: self.den * other.den }
    }

    /// Exact product; the caller simplifies when a reduced form is wanted.
    pub fn multiply(self, other: Self) -> (r: Self)
        requires
            self.den > 0,
            other.den > 0,
            self.num * other.num <= u64::MAX,
            self.den * other.den <= u64::MAX,
        ensures
            r.num == self.num * other.num,
            r.den == self.den * other.den,
    {
        Fraction { num: self.num * other.num, den: self.den * other.den }
    }

    /// The equivalent fraction with the smallest denominator.
    pub fn simplify(self) -> (r: Self)
        requires
            self.den > 0,
        ensures
            in_lowest_terms(r),
            same_value(r, self.num as int, self.den as int),
            r.den <= self.den,
            r.num <= self.num,
            divides(r.den as int, self.den as int),
    {
        let g = gcd(self.num, self.den);
        proof {
            lemma_gcd_pos(self.num as nat, self.den as nat);
            lemma_gcd_divides(self.num as nat, self.den as nat);
        }
        let ghost gi = g as int;
        let ghost kn = choose|k: int| self.num as int == #[trigger] (k * gi);
        let ghost kd = choose|k: int| self.den as int == #[trigger] (k * gi);
        proof {
            lemma_div_multiples_vanish(kn, gi);
            lemma_div_multiples_vanish(kd, gi);
            assert(gi * kn == kn * gi) by (nonlinear_arith);
            assert(gi * kd == kd * gi) by (nonlinear_arith);
            assert((self.num as int) / gi == kn);
            assert((self.den as int) / gi == kd);
            assert(kn >= 0 && kd >= 1) by (nonlinear_arith)
                requires
                    self.num as int == kn * gi,
                    self.den as int == kd * gi,
                    gi > 0,
                    self.num >= 0,
                    self.den > 0,
            ;
            assert(spec_gcd((kn * gi) as nat, (kd * gi) as nat) == spec_gcd(
                kn as nat * gi as nat,
                kd as nat * gi as nat,
            )) by (nonlinear_arith)
                requires
                    kn >= 0,
                    kd >= 1,
                    gi > 0,
            ;
            lemma_gcd_scale(kn as nat, kd as nat, gi as nat);
            assert(spec_gcd(kn as nat, kd as nat) * (gi as nat) == 1 * gi as nat);
            assert(spec_gcd(kn as nat, kd as nat) == 1) by (nonlinear_arith)
                requires
                    spec_gcd(kn as nat, kd as nat) * (gi as nat) == 1 * (gi as nat),
                    gi > 0,
            ;
            assert(kn * (kd * gi) == (kn * gi) * kd) by (nonlinear_arith);
            assert(kd <= self.den as int && kn <= self.num as int) by (nonlinear_arith)
                requires
                    self.num as int == kn * gi,
                    self.den as int == kd * gi,
                    gi >= 1,
                    kn >= 0,
                    kd >= 1,
            ;
        }
        Fraction { num: self.num / g, den: self.den / g }
    }

    /// Whether this fraction is smaller than `other`, by cross multiplication.
    pub fn less_than(self, other: Self) -> (r: bool)
        requires
            self.den > 0,
            other.den > 0,
        ensures
            r == ((self.num as int) * (other.den as int) < (other.num as int) * (self.den
                as int)),
    {
        proof {
            lemma_u64_mul_in_u128(self.num, other.den);
            lemma_u64_mul_in_u128(other.num, self.den);
        }
        (self.num as u128) * (other.den as u128) < (other.num as u128) * (self.den as u128)
    }

    /// Whether this fraction and `other` stand for the same value, by cross
    /// multiplication.
    pub fn equals(self, other: Self) -> (r: bool)
        requires
            self.den > 0,
            other.den > 0,
        ensures
            r == ((self.num as int) * (other.den as int) == (other.num as int) * (self.den
                as int)),
    {
        proof {
            lemma_u64_mul_in_u128(self.num, other.den);
            lemma_u64_mul_in_u128(other.num, self.den);
        }
        (self.num as u128) * (other.den as u128) == (other.num as u128) * (self.den as u128)
    }

    /// This fraction of the span `x`, rounded toward zero.
    pub fn scale(self, x: i32) -> (r: i32)
        requires
            self.den > 0,
            x >= 0,
            (self.num as int) * (x as int) / (self.den as int) <= i32::MAX,
        ensures
            r == (self.num as int) * (x as int) / (self.den as int),
    {
        proof {
            lemma_u64_mul_in_u128(self.num, x as u64);
            lemma_mul_nonnegative(self.num as int, x as int);
            lemma_div_pos_is_pos((self.num as int) * (x as int), self.den as int);
        }
        let wide: u128 = (self.num as u128) * (x as u128) / (self.den as u128);
        wide as i32
    }
}

} // verus!
