//! Exact rational ratios and durations without floating point.
//!
//! Both [`EvidenceRatio`] and [`FlowDuration`] are non-negative fractions with a
//! positive denominator. Values built by `from_fraction` are in lowest terms.

use vstd::prelude::*;
use vstd::arithmetic::div_mod::*;

verus! {

/// Greatest common divisor (Euclid), as a mathematical function.
pub open spec fn gcd_spec(a: nat, b: nat) -> nat
    decreases b,
{
    if b == 0 {
        a
    } else {
        gcd_spec(b, a % b)
    }
}

/// The gcd is zero only for (0, 0), and otherwise divides both arguments.
pub proof fn lemma_gcd_divides(a: nat, b: nat)
    ensures
        gcd_spec(a, b) == 0 <==> (a == 0 && b == 0),
        gcd_spec(a, b) > 0 ==> a % gcd_spec(a, b) == 0 && b % gcd_spec(a, b) == 0,
    decreases b,
{
    if b == 0 {
        if a > 0 {
            lemma_mod_self_zero(a as int);
            lemma_mod_zero(a as int);
        }
    } else {
        lemma_gcd_divides(b, a % b);
        let g = gcd_spec(b, a % b);
        let r = a % b;
        assert(g > 0);
        lemma_fundamental_div_mod(a as int, b as int);
        lemma_fundamental_div_mod(b as int, g as int);
        lemma_fundamental_div_mod(r as int, g as int);
        let q = a / b;
        let k1 = b / g;
        let k2 = r / g;
        assert(a == g * (k1 * q + k2)) by (nonlinear_arith)
            requires
                a == b * q + r,
                b == g * k1,
                r == g * k2,
        ;
        lemma_mod_multiples_basic((k1 * q + k2) as int, g as int);
        assert((g * (k1 * q + k2)) == ((k1 * q + k2) * g)) by (nonlinear_arith);
    }
}

proof fn lemma_mod_self_zero(a: int)
    requires
        a > 0,
    ensures
        a % a == 0,
{
    lemma_mod_multiples_basic(1, a);
}

proof fn lemma_mod_zero(a: int)
    requires
        a > 0,
    ensures
        0int % a == 0,
{
    lemma_mod_multiples_basic(0, a);
}

/// Greatest common divisor for 128-bit unsigned integers.
pub fn gcd(a: u128, b: u128) -> (g: u128)
    ensures
        g == gcd_spec(a as nat, b as nat),
{
    let mut x = a;
    let mut y = b;
    while y != 0
        invariant
            gcd_spec(x as nat, y as nat) == gcd_spec(a as nat, b as nat),
        decreases y,
    {
        let t = y;
        y = x % y;
        x = t;
    }
    x
}

/// The lowest-terms form `(n / g, d / g)` of the fraction `n / d`, where `g = gcd(n, d)`.
pub open spec fn reduced(n: nat, d: nat) -> (nat, nat) {
    let g = gcd_spec(n, d);
    ((n / g) as nat, (d / g) as nat)
}

/// Whether the lowest-terms form of `n / d` (with `d > 0`) fits two 64-bit fields.
pub open spec fn reducible_to_u64(n: nat, d: nat) -> bool {
    &&& d > 0
    &&& reduced(n, d).0 <= u64::MAX
    &&& reduced(n, d).1 <= u64::MAX
}

/// Two fractions denote the same rational number.
pub open spec fn same_value(a: (nat, nat), b: (nat, nat)) -> bool {
    a.0 * b.1 == b.0 * a.1
}

/// `a <= b` as rational numbers (denominators positive).
pub open spec fn value_le(a: (nat, nat), b: (nat, nat)) -> bool {
    a.0 * b.1 <= b.0 * a.1
}

/// `a < b` as rational numbers (denominators positive).
pub open spec fn value_lt(a: (nat, nat), b: (nat, nat)) -> bool {
    a.0 * b.1 < b.0 * a.1
}

/// Reducing a fraction keeps its value and a positive denominator.
pub proof fn lemma_reduced_same_value(n: nat, d: nat)
    requires
        d > 0,
    ensures
        reduced(n, d).1 > 0,
        same_value(reduced(n, d), (n, d)),
{
    lemma_gcd_divides(n, d);
    let g = gcd_spec(n, d);
    lemma_fundamental_div_mod(n as int, g as int);
    lemma_fundamental_div_mod(d as int, g as int);
    let p = n / g;
    let q = d / g;
    assert(q > 0) by (nonlinear_arith)
        requires
            d == g * q,
            d > 0,
            g > 0,
            q >= 0,
    ;
    assert(p * d == n * q) by (nonlinear_arith)
        requires
            n == g * p,
            d == g * q,
    ;
}

/// Computes the lowest-terms form of `n / d`, if `d > 0` and both parts fit 64 bits.
fn reduce_fraction(n: u128, d: u128) -> (res: Option<(u64, u64)>)
    ensures
        res is Some <==> reducible_to_u64(n as nat, d as nat),
        res matches Some(p) ==> (p.0 as nat, p.1 as nat) == reduced(n as nat, d as nat),
{
    if d == 0 {
        return None;
    }
    let g = gcd(n, d);
    proof {
        lemma_gcd_divides(n as nat, d as nat);
    }
    let rn = n / g;
    let rd = d / g;
    if rn > u64::MAX as u128 || rd > u64::MAX as u128 {
        return None;
    }
    Some((rn as u64, rd as u64))
}

proof fn lemma_u64_product_fits(a: u64, b: u64)
    ensures
        (a as nat) * (b as nat) <= u128::MAX,
{
    assert((a as nat) * (b as nat) <= (u64::MAX as nat) * (u64::MAX as nat)) by (nonlinear_arith);
}


/// Equality of value is transitive through a fraction with a positive denominator.
pub proof fn lemma_same_value_trans(x: (nat, nat), y: (nat, nat), z: (nat, nat))
    requires
        same_value(x, y),
        same_value(y, z),
        y.1 > 0,
    ensures
        same_value(x, z),
{
    assert(x.0 * z.1 * y.1 == z.0 * x.1 * y.1) by (nonlinear_arith)
        requires
            x.0 * y.1 == y.0 * x.1,
            y.0 * z.1 == z.0 * y.1,
    ;
    assert(x.0 * z.1 == z.0 * x.1) by (nonlinear_arith)
        requires
            x.0 * z.1 * y.1 == z.0 * x.1 * y.1,
            y.1 > 0,
    ;
}

/// The parts of the quotient `(a.0 / a.1) / (c.0 / c.1)` after cancelling the common
/// factors of the numerators and of the denominators.
pub open spec fn cross_parts(a: (nat, nat), c: (nat, nat)) -> (nat, nat) {
    let g1 = gcd_spec(a.0, c.0);
    let g2 = gcd_spec(c.1, a.1);
    ((a.0 / g1) * (c.1 / g2), (a.1 / g2) * (c.0 / g1))
}

/// The exact quotient of two fractions in lowest terms, when the divisor is non-zero and
/// the result fits 64-bit parts.
pub open spec fn quotient(a: (nat, nat), c: (nat, nat)) -> Option<(nat, nat)> {
    if c.0 != 0 && reducible_to_u64(cross_parts(a, c).0, cross_parts(a, c).1) {
        Some(reduced(cross_parts(a, c).0, cross_parts(a, c).1))
    } else {
        None
    }
}

proof fn lemma_div_parts(x: nat, g: nat)
    requires
        g > 0,
        x % g == 0,
    ensures
        x == g * (x / g),
        x / g <= x,
{
    lemma_fundamental_div_mod(x as int, g as int);
    assert(x / g <= x) by (nonlinear_arith)
        requires
            x == g * (x / g),
            g > 0,
    ;
}

/// Cancelling common factors keeps the value of `(a.0 * c.1) / (a.1 * c.0)` and bounds
/// each part by the original ones.
pub proof fn lemma_cross_parts(a: (nat, nat), c: (nat, nat))
    requires
        a.1 > 0,
        c.0 > 0,
        c.1 > 0,
    ensures
        cross_parts(a, c).1 > 0,
        same_value(cross_parts(a, c), (a.0 * c.1, a.1 * c.0)),
        a.0 / gcd_spec(a.0, c.0) <= a.0,
        c.0 / gcd_spec(a.0, c.0) <= c.0,
        c.1 / gcd_spec(c.1, a.1) <= c.1,
        a.1 / gcd_spec(c.1, a.1) <= a.1,
{
    let g1 = gcd_spec(a.0, c.0);
    let g2 = gcd_spec(c.1, a.1);
    lemma_gcd_divides(a.0, c.0);
    lemma_gcd_divides(c.1, a.1);
    lemma_div_parts(a.0, g1);
    lemma_div_parts(c.0, g1);
    lemma_div_parts(c.1, g2);
    lemma_div_parts(a.1, g2);
    let a1 = a.0 / g1;
    let c1 = c.0 / g1;
    let d1 = c.1 / g2;
    let b1 = a.1 / g2;
    assert(b1 > 0 && c1 > 0) by (nonlinear_arith)
        requires
            a.1 == g2 * b1,
            c.0 == g1 * c1,
            a.1 > 0,
            c.0 > 0,
    ;
    assert(b1 * c1 > 0) by (nonlinear_arith)
        requires
            b1 > 0,
            c1 > 0,
    ;
    assert((a1 * d1) * (a.1 * c.0) == (a.0 * c.1) * (b1 * c1)) by (nonlinear_arith)
        requires
            a.0 == g1 * a1,
            c.0 == g1 * c1,
            c.1 == g2 * d1,
            a.1 == g2 * b1,
    ;
}

/// Each part of a 64-bit product fits 128 bits.
pub proof fn lemma_u64_parts_product(x: nat, y: nat)
    requires
        x <= u64::MAX,
        y <= u64::MAX,
    ensures
        x * y <= u128::MAX,
{
    assert(x * y <= (u64::MAX as nat) * (u64::MAX as nat)) by (nonlinear_arith)
        requires
            x <= u64::MAX,
            y <= u64::MAX,
    ;
}


/// The lowest-terms parts are no larger than the original parts; a positive numerator
/// stays positive.
pub proof fn lemma_reduced_bounds(n: nat, d: nat)
    requires
        d > 0,
    ensures
        reduced(n, d).0 <= n,
        reduced(n, d).1 <= d,
        reduced(n, d).1 > 0,
        n > 0 ==> reduced(n, d).0 > 0,
        n <= d ==> reduced(n, d).0 <= reduced(n, d).1,
{
    lemma_gcd_divides(n, d);
    let g = gcd_spec(n, d);
    lemma_div_parts(d, g);
    if n > 0 {
        lemma_div_parts(n, g);
        assert(n / g > 0) by (nonlinear_arith)
            requires
                n == g * (n / g),
                n > 0,
        ;
    } else {
        lemma_div_parts(n, g);
    }
    lemma_reduced_same_value(n, d);
    if n <= d {
        assert((n / g) <= (d / g)) by (nonlinear_arith)
            requires
                n == g * (n / g),
                d == g * (d / g),
                n <= d,
                g > 0,
        ;
    }
}

/// Exact non-negative rational ratio in lowest terms.
#[derive(Debug, Clone, Copy, PartialEq, Eq, Structural, Hash)]
pub struct EvidenceRatio {
    numerator: u64,
    denominator: u64,
}

impl View for EvidenceRatio {
    type V = (nat, nat);

    /// The fraction as `(numerator, denominator)`.
    closed spec fn view(&self) -> (nat, nat) {
        (self.numerator as nat, self.denominator as nat)
    }
}

impl EvidenceRatio {
    /// The denominator is always positive.
    #[verifier::type_invariant]
    closed spec fn inv(self) -> bool {
        self.denominator > 0
    }

    /// The ratio `0/1`.
    pub fn zero() -> (r: EvidenceRatio)
        ensures
            r@ == (0nat, 1nat),
    {
        EvidenceRatio { numerator: 0, denominator: 1 }
    }

    /// The ratio `1/1`.
    pub fn one() -> (r: EvidenceRatio)
        ensures
            r@ == (1nat, 1nat),
    {
        EvidenceRatio { numerator: 1, denominator: 1 }
    }

    /// A ratio from parts that are already in lowest terms.
    pub(crate) fn from_lowest_terms(numerator: u64, denominator: u64) -> (r: EvidenceRatio)
        requires
            denominator > 0,
        ensures
            r@ == (numerator as nat, denominator as nat),
    {
        EvidenceRatio { numerator, denominator }
    }

    /// Builds `numerator / denominator` in lowest terms; `None` for a zero denominator
    /// or when the reduced parts do not fit 64 bits.
    pub fn from_fraction(numerator: u128, denominator: u128) -> (r: Option<EvidenceRatio>)
        ensures
            r is Some <==> reducible_to_u64(numerator as nat, denominator as nat),
            r matches Some(x) ==> x@ == reduced(numerator as nat, denominator as nat)
                && same_value(x@, (numerator as nat, denominator as nat)),
    {
        match reduce_fraction(numerator, denominator) {
            Some((n, d)) => {
                proof {
                    lemma_reduced_same_value(numerator as nat, denominator as nat);
                }
                Some(EvidenceRatio { numerator: n, denominator: d })
            },
            None => None,
        }
    }

    /// Returns the numerator.
    pub fn numerator(&self) -> (n: u64)
        ensures
            n == self@.0,
    {
        self.numerator
    }

    /// Returns the denominator, which is positive.
    pub fn denominator(&self) -> (d: u64)
        ensures
            d == self@.1,
            d > 0,
    {
        proof { use_type_invariant(self); }
        self.denominator
    }

    /// Whether this ratio is zero.
    pub fn is_zero(&self) -> (b: bool)
        ensures
            b == (self@.0 == 0),
    {
        self.numerator == 0
    }

    /// `self <= other` as rational numbers.
    pub fn le(&self, other: &EvidenceRatio) -> (b: bool)
        ensures
            b == value_le(self@, other@),
    {
        proof {
            lemma_u64_product_fits(self.numerator, other.denominator);
            lemma_u64_product_fits(other.numerator, self.denominator);
        }
        (self.numerator as u128) * (other.denominator as u128) <= (other.numerator as u128) * (
        self.denominator as u128)
    }

    /// `self < other` as rational numbers.
    pub fn lt(&self, other: &EvidenceRatio) -> (b: bool)
        ensures
            b == value_lt(self@, other@),
    {
        proof {
            lemma_u64_product_fits(self.numerator, other.denominator);
            lemma_u64_product_fits(other.numerator, self.denominator);
        }
        (self.numerator as u128) * (other.denominator as u128) < (other.numerator as u128) * (
        self.denominator as u128)
    }

    /// Whether this ratio exceeds one.
    pub fn exceeds_one(&self) -> (b: bool)
        ensures
            b == (self@.0 > self@.1),
    {
        self.numerator > self.denominator
    }
}

/// Exact non-negative temporal duration in seconds, as a fraction in lowest terms.
#[derive(Debug, Clone, Copy, PartialEq, Eq, Structural, Hash)]
pub struct FlowDuration {
    numerator: u64,
    denominator: u64,
}

impl View for FlowDuration {
    type V = (nat, nat);

    /// The duration in seconds as `(numerator, denominator)`.
    closed spec fn view(&self) -> (nat, nat) {
        (self.numerator as nat, self.denominator as nat)
    }
}

/// The exact difference `a - b` of two fractions, as an unreduced `(numerator, denominator)`.
pub open spec fn difference(a: (nat, nat), b: (nat, nat)) -> (int, int) {
    (a.0 * b.1 - b.0 * a.1, (a.1 * b.1) as int)
}

impl FlowDuration {
    /// The denominator is always positive.
    #[verifier::type_invariant]
    closed spec fn inv(self) -> bool {
        self.denominator > 0
    }

    /// The zero duration.
    pub fn zero() -> (r: FlowDuration)
        ensures
            r@ == (0nat, 1nat),
    {
        FlowDuration { numerator: 0, denominator: 1 }
    }

    /// A whole number of seconds.
    pub fn from_secs(secs: u64) -> (r: FlowDuration)
        ensures
            r@ == (secs as nat, 1nat),
    {
        FlowDuration { numerator: secs, denominator: 1 }
    }

    /// Builds `numerator / denominator` seconds in lowest terms; `None` for a zero denominator
    /// or when the reduced parts do not fit 64 bits.
    pub fn from_fraction(numerator: u128, denominator: u128) -> (r: Option<FlowDuration>)
        ensures
            r is Some <==> reducible_to_u64(numerator as nat, denominator as nat),
            r matches Some(x) ==> x@ == reduced(numerator as nat, denominator as nat)
                && same_value(x@, (numerator as nat, denominator as nat)),
    {
        match reduce_fraction(numerator, denominator) {
            Some((n, d)) => {
                proof {
                    lemma_reduced_same_value(numerator as nat, denominator as nat);
                }
                Some(FlowDuration { numerator: n, denominator: d })
            },
            None => None,
        }
    }

    /// Returns the numerator.
    pub fn numerator(&self) -> (n: u64)
        ensures
            n == self@.0,
    {
        self.numerator
    }

    /// Returns the denominator, which is positive.
    pub fn denominator(&self) -> (d: u64)
        ensures
            d == self@.1,
            d > 0,
    {
        proof { use_type_invariant(self); }
        self.denominator
    }

    /// `self <= other` as rational numbers.
    pub fn le(&self, other: &FlowDuration) -> (b: bool)
        ensures
            b == value_le(self@, other@),
    {
        proof {
            lemma_u64_product_fits(self.numerator, other.denominator);
            lemma_u64_product_fits(other.numerator, self.denominator);
        }
        (self.numerator as u128) * (other.denominator as u128) <= (other.numerator as u128) * (
        self.denominator as u128)
    }

    /// `self < other` as rational numbers.
    pub fn lt(&self, other: &FlowDuration) -> (b: bool)
        ensures
            b == value_lt(self@, other@),
    {
        proof {
            lemma_u64_product_fits(self.numerator, other.denominator);
            lemma_u64_product_fits(other.numerator, self.denominator);
        }
        (self.numerator as u128) * (other.denominator as u128) < (other.numerator as u128) * (
        self.denominator as u128)
    }

    /// The exact difference `self - other`, or `None` when it is negative or its
    /// lowest-terms form does not fit 64 bits.
    pub fn checked_sub(&self, other: &FlowDuration) -> (r: Option<FlowDuration>)
        ensures
            r is Some <==> (value_le(other@, self@) && reducible_to_u64(
                difference(self@, other@).0 as nat,
                difference(self@, other@).1 as nat,
            )),
            r matches Some(x) ==> x@ == reduced(
                difference(self@, other@).0 as nat,
                difference(self@, other@).1 as nat,
            ),
    {
        proof {
            use_type_invariant(self);
            use_type_invariant(other);
            lemma_u64_product_fits(self.numerator, other.denominator);
            lemma_u64_product_fits(other.numerator, self.denominator);
            lemma_u64_product_fits(self.denominator, other.denominator);
            assert((self.denominator as nat) * (other.denominator as nat) > 0) by (nonlinear_arith)
                requires
                    self.denominator > 0,
                    other.denominator > 0,
            ;
        }
        let lhs = (self.numerator as u128) * (other.denominator as u128);
        let rhs = (other.numerator as u128) * (self.denominator as u128);
        if lhs < rhs {
            return None;
        }
        let den = (self.denominator as u128) * (other.denominator as u128);
        Self::from_fraction(lhs - rhs, den)
    }
}

} // verus!
