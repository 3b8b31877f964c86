//! Exact positive rational numbers on machine integers.
//!
//! Frequency relations between just-intonation intervals are ratios of
//! small positive integers, and every operation the library needs on
//! them (multiply, invert, compare) is exact integer arithmetic.  A
//! `Ratio` is kept in lowest terms so that two ratios are equal as
//! values exactly when they are equal as structs.

use vstd::arithmetic::div_mod::{
    lemma_fundamental_div_mod, lemma_fundamental_div_mod_converse_mod,
    lemma_mod_multiples_vanish, lemma_mod_self_0, lemma_small_mod, lemma_add_mod_noop,
    lemma_sub_mod_noop, lemma_div_is_ordered_by_denominator, lemma_div_basics_1,
    lemma_div_pos_is_pos,
};
use vstd::prelude::*;

verus! {

/// Greatest common divisor by Euclid's algorithm.
pub open spec fn spec_gcd(a: nat, b: nat) -> nat
    decreases b,
{
    if b == 0 {
        a
    } else {
        spec_gcd(b, a % b)
    }
}

/// `d` divides `x` exactly.
pub open spec fn spec_divides(d: nat, x: nat) -> bool {
    d >= 1 && x % d == 0
}

/// A multiple of a multiple of `m` is a multiple of `m`.
proof fn lemma_divides_scaled(k: int, x: int, m: int)
    requires
        m >= 1,
        x % m == 0,
    ensures
        (k * x) % m == 0,
{
    lemma_fundamental_div_mod(x, m);
    assert(k * x == m * (k * (x / m))) by (nonlinear_arith)
        requires
            x == m * (x / m),
    ;
    lemma_mod_multiples_vanish(k * (x / m), 0, m);
}

/// The gcd of two numbers divides both of them and is positive.
pub proof fn lemma_gcd_divides(a: nat, b: nat)
    requires
        a >= 1,
    ensures
        spec_divides(spec_gcd(a, b), a),
        spec_divides(spec_gcd(a, b), b),
    decreases b,
{
    if b == 0 {
        lemma_mod_self_0(a as int);
        lemma_small_mod(0, a);
    } else {
        lemma_gcd_divides(b, a % b);
        let g = spec_gcd(b, a % b);
        lemma_fundamental_div_mod(a as int, b as int);
        lemma_divides_scaled(a as int / b as int, b as int, g as int);
        lemma_add_mod_noop((a as int / b as int) * b, (a % b) as int, g as int);
        assert(a as int == (a as int / b as int) * b + (a % b)) by (nonlinear_arith)
            requires
                a as int == b * (a as int / b as int) + (a as int % b as int),
                a % b == a as int % b as int,
        ;
        lemma_small_mod(0, g);
    }
}

/// Any common divisor of `a` and `b` divides their gcd.
pub proof fn lemma_gcd_greatest(a: nat, b: nat, d: nat)
    requires
        a >= 1,
        spec_divides(d, a),
        spec_divides(d, b),
    ensures
        spec_divides(d, spec_gcd(a, b)),
    decreases b,
{
    if b == 0 {
    } else {
        lemma_fundamental_div_mod(a as int, b as int);
        lemma_divides_scaled(a as int / b as int, b as int, d as int);
        lemma_sub_mod_noop(a as int, (a as int / b as int) * b, d as int);
        assert(a as int - (a as int / b as int) * b == (a % b) as int) by (nonlinear_arith)
            requires
                a as int == b * (a as int / b as int) + (a as int % b as int),
                a % b == a as int % b as int,
        ;
        lemma_small_mod(0, d);
        lemma_gcd_greatest(b, a % b, d);
    }
}

/// Dividing both parts by their gcd leaves a coprime pair.
proof fn lemma_reduced_coprime(a: nat, b: nat)
    requires
        a >= 1,
        b >= 1,
    ensures
        spec_gcd(a / spec_gcd(a, b), b / spec_gcd(a, b)) == 1,
{
    let g = spec_gcd(a, b);
    lemma_gcd_divides(a, b);
    lemma_fundamental_div_mod(a as int, g as int);
    lemma_fundamental_div_mod(b as int, g as int);
    let a1 = a / g;
    let b1 = b / g;
    lemma_div_pos_is_pos(a as int, g as int);
    lemma_div_pos_is_pos(b as int, g as int);
    assert(a1 >= 1) by {
        if a1 == 0 {
            assert(a as int == g * 0 + 0);
        }
    }
    assert(b1 >= 1) by {
        if b1 == 0 {
            assert(b as int == g * 0 + 0);
        }
    }
    let e = spec_gcd(a1, b1);
    lemma_gcd_divides(a1, b1);
    lemma_fundamental_div_mod(a1 as int, e as int);
    lemma_fundamental_div_mod(b1 as int, e as int);
    // a == (e * g) * (a1 / e), so e * g divides a; likewise for b.
    assert(a as int == (e * g) * (a1 as int / e as int)) by (nonlinear_arith)
        requires
            a as int == g * a1,
            a1 as int == e * (a1 as int / e as int),
    ;
    assert(b as int == (e * g) * (b1 as int / e as int)) by (nonlinear_arith)
        requires
            b as int == g * b1,
            b1 as int == e * (b1 as int / e as int),
    ;
    assert(e * g >= 1) by (nonlinear_arith)
        requires
            e >= 1,
            g >= 1,
    ;
    lemma_div_pos_is_pos(a1 as int, e as int);
    lemma_fundamental_div_mod_converse_mod(a as int, (e * g) as int, a1 as int / e as int, 0);
    lemma_div_pos_is_pos(b1 as int, e as int);
    lemma_fundamental_div_mod_converse_mod(b as int, (e * g) as int, b1 as int / e as int, 0);
    lemma_gcd_greatest(a, b, e * g);
    // g is a positive multiple of e * g, hence e == 1.
    assert(e == 1) by {
        if g < e * g {
            lemma_small_mod(g, e * g);
            assert(false);
        }
        assert(g >= e * g);
        assert(e <= 1) by (nonlinear_arith)
            requires
                g >= e * g,
                g >= 1,
                e >= 1,
        ;
    }
}

/// The gcd is symmetric in its arguments.
pub proof fn lemma_gcd_sym(a: nat, b: nat)
    requires
        a >= 1,
        b >= 1,
    ensures
        spec_gcd(a, b) == spec_gcd(b, a),
{
    let g1 = spec_gcd(a, b);
    let g2 = spec_gcd(b, a);
    lemma_gcd_divides(a, b);
    lemma_gcd_divides(b, a);
    lemma_gcd_greatest(b, a, g1);
    lemma_gcd_greatest(a, b, g2);
    assert(g1 == g2) by {
        if g1 < g2 {
            lemma_small_mod(g1, g2);
            assert(false);
        }
        if g2 < g1 {
            lemma_small_mod(g2, g1);
            assert(false);
        }
    }
}

/// The product of two 64-bit values fits into 128 bits.
proof fn lemma_u64_mul_fits(a: int, b: int)
    requires
        0 <= a <= u64::MAX,
        0 <= b <= u64::MAX,
    ensures
        0 <= a * b <= u128::MAX,
{
    assert(a * b <= u64::MAX * u64::MAX) by (nonlinear_arith)
        requires
            0 <= a <= u64::MAX,
            0 <= b <= u64::MAX,
    ;
    assert(0 <= a * b) by (nonlinear_arith)
        requires
            0 <= a,
            0 <= b,
    ;
}

/// Euclid's algorithm, on machine words.
fn gcd_exec(a: u128, b: u128) -> (g: u128)
    requires
        a >= 1,
    ensures
        g as nat == spec_gcd(a as nat, b as nat),
        g >= 1,
{
    let mut x = a;
    let mut y = b;
    while y != 0
        invariant
            x >= 1,
            spec_gcd(x as nat, y as nat) == spec_gcd(a as nat, b as nat),
        decreases y,
    {
        let r = x % y;
        x = y;
        y = r;
    }
    proof {
        lemma_gcd_divides(a as nat, b as nat);
    }
    x
}

/// Whether the pair `n / d`, in lowest terms, fits into 64-bit parts.
pub open spec fn reduced_fits_u64(n: nat, d: nat) -> bool {
    &&& n / spec_gcd(n, d) <= u64::MAX
    &&& d / spec_gcd(n, d) <= u64::MAX
}

/// Exact positive rational number, kept in lowest terms.
#[derive(Debug, Clone, Copy, PartialEq, Eq, Structural)]
pub struct Ratio {
    pub num: u64,
    pub den: u64,
}

impl Ratio {
    /// Both parts are positive.
    pub open spec fn wf(self) -> bool {
        self.num >= 1 && self.den >= 1
    }

    /// The two parts share no factor.
    pub open spec fn reduced(self) -> bool {
        spec_gcd(self.num as nat, self.den as nat) == 1
    }

    /// This ratio equals `n / d` as a rational value.
    pub open spec fn is_value(self, n: int, d: int) -> bool {
        self.num * d == n * self.den
    }

    /// Lowest-terms form of `num / den`.
    pub fn new(num: u64, den: u64) -> (r: Ratio)
        requires
            num >= 1,
            den >= 1,
        ensures
            r.wf(),
            r.reduced(),
            r.is_value(num as int, den as int),
    {
        proof {
            let g = spec_gcd(num as nat, den as nat);
            lemma_gcd_divides(num as nat, den as nat);
            lemma_div_is_ordered_by_denominator(num as int, 1, g as int);
            lemma_div_is_ordered_by_denominator(den as int, 1, g as int);
            lemma_div_basics_1(num as int);
            lemma_div_basics_1(den as int);
        }
        reduce_parts(num as u128, den as u128)
    }

    /// The reciprocal.
    pub fn inverse(&self) -> (r: Ratio)
        requires
            self.wf(),
        ensures
            r.num == self.den,
            r.den == self.num,
            r.wf(),
            self.reduced() ==> r.reduced(),
    {
        proof {
            if self.reduced() {
                lemma_gcd_sym(self.num as nat, self.den as nat);
            }
        }
        Ratio { num: self.den, den: self.num }
    }

    /// The product of two ratios, in lowest terms.
    pub fn times(&self, other: &Ratio) -> (r: Ratio)
        requires
            self.wf(),
            other.wf(),
            reduced_fits_u64((self.num * other.num) as nat, (self.den * other.den) as nat),
        ensures
            r.wf(),
            r.reduced(),
            r.is_value(self.num * other.num, self.den * other.den),
    {
        proof {
            lemma_u64_mul_fits(self.num as int, other.num as int);
            lemma_u64_mul_fits(self.den as int, other.den as int);
        }
        let n = (self.num as u128) * (other.num as u128);
        let d = (self.den as u128) * (other.den as u128);
        proof {
            assert(n >= 1 && d >= 1) by (nonlinear_arith)
                requires
                    self.num >= 1,
                    other.num >= 1,
                    self.den >= 1,
                    other.den >= 1,
                    n == self.num as int * other.num as int,
                    d == self.den as int * other.den as int,
            ;
        }
        reduce_parts(n, d)
    }

    /// Strictly less than, by cross multiplication.
    pub fn lt(&self, other: &Ratio) -> (b: bool)
        ensures
            b == (self.num * other.den < other.num * self.den),
    {
        proof {
            lemma_u64_mul_fits(self.num as int, other.den as int);
            lemma_u64_mul_fits(other.num as int, self.den as int);
        }
        (self.num as u128) * (other.den as u128) < (other.num as u128) * (self.den as u128)
    }

    /// Strictly greater than, by cross multiplication.
    pub fn gt(&self, other: &Ratio) -> (b: bool)
        ensures
            b == (self.num * other.den > other.num * self.den),
    {
        proof {
            lemma_u64_mul_fits(self.num as int, other.den as int);
            lemma_u64_mul_fits(other.num as int, self.den as int);
        }
        (self.num as u128) * (other.den as u128) > (other.num as u128) * (self.den as u128)
    }
}

/// Lowest-terms form of `n / d` for wide intermediate products.
pub(crate) fn reduce_parts(n: u128, d: u128) -> (r: Ratio)
    requires
        n >= 1,
        d >= 1,
        reduced_fits_u64(n as nat, d as nat),
    ensures
        r.wf(),
        r.reduced(),
        r.is_value(n as int, d as int),
{
    let g = gcd_exec(n, d);
    proof {
        lemma_gcd_divides(n as nat, d as nat);
        lemma_fundamental_div_mod(n as int, g as int);
        lemma_fundamental_div_mod(d as int, g as int);
        lemma_div_pos_is_pos(n as int, g as int);
        lemma_div_pos_is_pos(d as int, g as int);
        assert(n / g >= 1) by {
            if n as int / g as int == 0 {
                assert(n as int == g * 0 + 0);
            }
        }
        assert(d / g >= 1) by {
            if d as int / g as int == 0 {
                assert(d as int == g * 0 + 0);
            }
        }
        lemma_reduced_coprime(n as nat, d as nat);
        // value preservation: (n/g) * d == n * (d/g)
        assert((n as int / g as int) * d == n * (d as int / g as int)) by (nonlinear_arith)
            requires
                n as int == g * (n as int / g as int),
                d as int == g * (d as int / g as int),
        ;
    }
    Ratio { num: (n / g) as u64, den: (d / g) as u64 }
}

} // verus!
