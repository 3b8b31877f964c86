//! Signed combinations of the three generator intervals.
//!
//! An `IntervalSet` counts how often each generator (major third,
//! perfect fourth, perfect fifth) occurs, negative counts meaning the
//! inverted interval.  It evaluates to a half-step total
//! `4*n3 + 5*n4 + 7*n5` and to the exact frequency ratio
//! `(5/4)^n3 * (4/3)^n4 * (3/2)^n5`.  Expanding-shell searches find a
//! combination for a target half-step count and a pair of
//! tuning-neutral combinations that bracket the ratio one.

use crate::interval_sequences::{
    lemma_seq_counts_from_multiset, lemma_seq_half_steps_counts, seq_half_steps, seq_n3, seq_n4,
    seq_n5, IntervalSequence,
};
use crate::just_intervals::JustInterval;
use crate::ratio::{reduce_parts, reduced_fits_u64, Ratio};
use crate::vector_distributor::{
    counts_ms, counts_total, distribute, lemma_repeat_value_count, repeat_value,
};
use vstd::arithmetic::div_mod::lemma_fundamental_div_mod;
use vstd::arithmetic::power::{lemma_pow_increases, lemma_pow_positive, pow};
use vstd::multiset::Multiset;
use vstd::prelude::*;

verus! {

/// Absolute value.
pub open spec fn iabs(x: int) -> int {
    if x < 0 {
        -x
    } else {
        x
    }
}

/// Whether the combination `(a, b, c)` evaluates to `h` half-steps.
pub open spec fn hits_half_steps(h: int, a: int, b: int, c: int) -> bool {
    4 * a + 5 * b + 7 * c == h
}

/// One axis' contribution to a ratio product: `(n/d)^k` contributes
/// `n^k` for `k >= 0` and `d^(-k)` for `k < 0` to the numerator.
pub open spec fn axis_factor(up: int, dn: int, k: int) -> int {
    if k >= 0 {
        pow(up, k as nat)
    } else {
        pow(dn, (-k) as nat)
    }
}

/// Numerator of `(5/4)^a * (4/3)^b * (3/2)^c` as a product of integers.
pub open spec fn scale_num(a: int, b: int, c: int) -> int {
    axis_factor(5, 4, a) * axis_factor(4, 3, b) * axis_factor(3, 2, c)
}

/// Denominator of `(5/4)^a * (4/3)^b * (3/2)^c` as a product of integers.
pub open spec fn scale_den(a: int, b: int, c: int) -> int {
    axis_factor(4, 5, a) * axis_factor(3, 4, b) * axis_factor(2, 3, c)
}

/// A tuning-neutral, nonempty combination whose ratio is below one.
pub open spec fn down_candidate(a: int, b: int, c: int) -> bool {
    &&& !(a == 0 && b == 0 && c == 0)
    &&& hits_half_steps(0, a, b, c)
    &&& scale_num(a, b, c) < scale_den(a, b, c)
}

/// A tuning-neutral, nonempty combination whose ratio is above one and
/// whose entries are each unequal to the negated entries of the down
/// combination `(d3, d4, d5)`.
pub open spec fn up_candidate(d3: int, d4: int, d5: int, a: int, b: int, c: int) -> bool {
    &&& !(a == 0 && b == 0 && c == 0)
    &&& hits_half_steps(0, a, b, c)
    &&& scale_num(a, b, c) > scale_den(a, b, c)
    &&& a != -d3
    &&& b != -d4
    &&& c != -d5
}

/// The search enumeration `0, 1, -1, 2, -2, ...` by index.
pub open spec fn signed_val(i: int) -> int {
    if i % 2 == 1 {
        (i + 1) / 2
    } else {
        -(i / 2)
    }
}

/// Index of a value in the search enumeration.
pub open spec fn signed_idx(v: int) -> int {
    if v > 0 {
        2 * v - 1
    } else {
        -2 * v
    }
}

/// Every value of magnitude below the shell radius is enumerated.
proof fn lemma_signed_val_covers(v: int)
    ensures
        0 <= signed_idx(v),
        v > 0 ==> signed_idx(v) == 2 * v - 1,
        v <= 0 ==> signed_idx(v) == 2 * (-v),
        signed_val(signed_idx(v)) == v,
{
    if v > 0 {
        assert((2 * v - 1) % 2 == 1) by (nonlinear_arith);
        assert((2 * v - 1 + 1) / 2 == v) by (nonlinear_arith);
    } else {
        assert((-2 * v) % 2 == 0) by (nonlinear_arith);
        assert((-2 * v) / 2 == -v) by (nonlinear_arith);
    }
}

/// The search enumeration, executable.
fn signed_val_exec(i: i64) -> (v: i64)
    requires
        0 <= i < i64::MAX,
    ensures
        v as int == signed_val(i as int),
        2 * v <= i + 1,
        -2 * v <= i,
{
    proof {
        assert(i as int % 2 == 0 || i as int % 2 == 1);
        assert(2 * ((i as int + 1) / 2) <= i + 1);
        assert(2 * (i as int / 2) <= i);
    }
    if i % 2 == 1 {
        (i + 1) / 2
    } else {
        -(i / 2)
    }
}

/// An axis factor is a positive integer.
proof fn lemma_axis_factor_positive(up: int, dn: int, k: int)
    requires
        1 <= up,
        1 <= dn,
    ensures
        axis_factor(up, dn, k) >= 1,
{
    if k >= 0 {
        lemma_pow_positive(up, k as nat);
    } else {
        lemma_pow_positive(dn, (-k) as nat);
    }
}

/// Powers grow with the base.
proof fn lemma_pow_base_mono(b1: int, b2: int, e: nat)
    requires
        0 <= b1 <= b2,
    ensures
        0 <= pow(b1, e) <= pow(b2, e),
    decreases e,
{
    reveal(pow);
    if e > 0 {
        lemma_pow_base_mono(b1, b2, (e - 1) as nat);
        assert(0 <= b1 * pow(b1, (e - 1) as nat) <= b2 * pow(b2, (e - 1) as nat))
            by (nonlinear_arith)
            requires
                0 <= b1 <= b2,
                0 <= pow(b1, (e - 1) as nat) <= pow(b2, (e - 1) as nat),
        ;
    }
}

/// Small powers of the generator parts stay below `5^8`.
proof fn lemma_small_pow_bound(b: int, e: nat)
    requires
        1 <= b <= 5,
        e <= 8,
    ensures
        1 <= pow(b, e) <= 390625,
{
    lemma_pow_positive(b, e);
    lemma_pow_base_mono(b, 5, e);
    lemma_pow_increases(5, e, 8);
    assert(pow(5, 8) == 390625) by {
        reveal_with_fuel(pow, 9);
    };
}

/// `base^exp` for the small candidates a shell search examines.
fn pow_small(base: u64, exp: u64) -> (r: u64)
    requires
        1 <= base <= 5,
        exp <= 8,
    ensures
        r as int == pow(base as int, exp as nat),
        1 <= r <= 390625,
{
    proof {
        lemma_small_pow_bound(base as int, exp as nat);
        assert(pow(base as int, 0) == 1) by {
            reveal(pow);
        };
    }
    let mut r: u64 = 1;
    let mut k: u64 = 0;
    while k < exp
        invariant
            k <= exp,
            1 <= base <= 5,
            exp <= 8,
            r as int == pow(base as int, k as nat),
            1 <= r <= 390625,
        decreases exp - k,
    {
        proof {
            lemma_small_pow_bound(base as int, (k + 1) as nat);
            assert(pow(base as int, (k + 1) as nat) == base * pow(base as int, k as nat)) by {
                reveal(pow);
            };
        }
        r = r * base;
        k = k + 1;
    }
    r
}

/// `base^exp` over the full 128-bit range.
pub(crate) fn pow_wide(base: u64, exp: u64) -> (r: u128)
    requires
        1 <= base,
        pow(base as int, exp as nat) <= u128::MAX,
    ensures
        r as int == pow(base as int, exp as nat),
        r >= 1,
{
    proof {
        lemma_pow_positive(base as int, exp as nat);
        assert(pow(base as int, 0) == 1) by {
            reveal(pow);
        };
    }
    let mut r: u128 = 1;
    let mut k: u64 = 0;
    while k < exp
        invariant
            k <= exp,
            1 <= base,
            pow(base as int, exp as nat) <= u128::MAX,
            r as int == pow(base as int, k as nat),
            r >= 1,
        decreases exp - k,
    {
        proof {
            assert(pow(base as int, (k + 1) as nat) == base * pow(base as int, k as nat)) by {
                reveal(pow);
            };
            lemma_pow_increases(base as nat, (k + 1) as nat, exp as nat);
            lemma_pow_positive(base as int, (k + 1) as nat);
            assert(r * (base as int) == base * pow(base as int, k as nat)) by (nonlinear_arith)
                requires
                    r as int == pow(base as int, k as nat),
            ;
            assert(0 <= r * (base as int)) by (nonlinear_arith)
                requires
                    r >= 1,
                    base >= 1,
            ;
        }
        r = r * (base as u128);
        k = k + 1;
    }
    r
}

/// Numerator and denominator of a candidate's ratio, for candidates
/// within shell radius nine.
fn candidate_scale(a: i64, b: i64, c: i64) -> (r: (u64, u64))
    requires
        -8 <= a <= 8,
        -8 <= b <= 8,
        -8 <= c <= 8,
    ensures
        r.0 as int == scale_num(a as int, b as int, c as int),
        r.1 as int == scale_den(a as int, b as int, c as int),
        1 <= r.0,
        1 <= r.1,
{
    let (an, ad) = if a >= 0 {
        (pow_small(5, a as u64), pow_small(4, a as u64))
    } else {
        (pow_small(4, (-a) as u64), pow_small(5, (-a) as u64))
    };
    let (bn, bd) = if b >= 0 {
        (pow_small(4, b as u64), pow_small(3, b as u64))
    } else {
        (pow_small(3, (-b) as u64), pow_small(4, (-b) as u64))
    };
    let (cn, cd) = if c >= 0 {
        (pow_small(3, c as u64), pow_small(2, c as u64))
    } else {
        (pow_small(2, (-c) as u64), pow_small(3, (-c) as u64))
    };
    proof {
        assert(1 <= an * bn <= 390625 * 390625 && an * bn * cn <= 390625 * 390625 * 390625 && 1
            <= an * bn * cn) by (nonlinear_arith)
            requires
                1 <= an <= 390625,
                1 <= bn <= 390625,
                1 <= cn <= 390625,
        ;
        assert(1 <= ad * bd <= 390625 * 390625 && ad * bd * cd <= 390625 * 390625 * 390625 && 1
            <= ad * bd * cd) by (nonlinear_arith)
            requires
                1 <= ad <= 390625,
                1 <= bd <= 390625,
                1 <= cd <= 390625,
        ;
    }
    (an * bn * cn, ad * bd * cd)
}

/// Vector addition acts on evaluations as a group action: composing a
/// combination with its componentwise negation evaluates to zero
/// half-steps and to the frequency ratio one.
pub proof fn lemma_negation_cancels(v: IntervalSet, w: IntervalSet)
    requires
        w.n3() == -v.n3(),
        w.n4() == -v.n4(),
        w.n5() == -v.n5(),
    ensures
        hits_half_steps(0, v.n3() + w.n3(), v.n4() + w.n4(), v.n5() + w.n5()),
        scale_num(v.n3() + w.n3(), v.n4() + w.n4(), v.n5() + w.n5()) == 1,
        scale_den(v.n3() + w.n3(), v.n4() + w.n4(), v.n5() + w.n5()) == 1,
{
    reveal_with_fuel(pow, 2);
    assert(scale_num(0, 0, 0) == 1);
    assert(scale_den(0, 0, 0) == 1);
}

/// A combination of the three generator intervals, by signed counts.
#[derive(Debug, PartialEq, Eq, Clone, Copy, Structural)]
pub struct IntervalSet {
    pub n_major_third: i32,
    pub n_perfect_fourth: i32,
    pub n_perfect_fifth: i32,
}

impl IntervalSet {
    /// Major-third count, as a mathematical integer.
    pub open spec fn n3(self) -> int {
        self.n_major_third as int
    }

    /// Perfect-fourth count, as a mathematical integer.
    pub open spec fn n4(self) -> int {
        self.n_perfect_fourth as int
    }

    /// Perfect-fifth count, as a mathematical integer.
    pub open spec fn n5(self) -> int {
        self.n_perfect_fifth as int
    }

    /// The half-step total this combination evaluates to.
    pub open spec fn spec_half_steps(self) -> int {
        4 * self.n3() + 5 * self.n4() + 7 * self.n5()
    }

    /// Numerator of the exact frequency ratio this combination evaluates to.
    pub open spec fn spec_scale_num(self) -> int {
        scale_num(self.n3(), self.n4(), self.n5())
    }

    /// Denominator of the exact frequency ratio this combination evaluates to.
    pub open spec fn spec_scale_den(self) -> int {
        scale_den(self.n3(), self.n4(), self.n5())
    }

    /// Total number of atomic intervals in the combination.
    pub open spec fn spec_num_intervals(self) -> int {
        iabs(self.n3()) + iabs(self.n4()) + iabs(self.n5())
    }

    pub fn new_empty() -> (r: Self)
        ensures
            r.n3() == 0,
            r.n4() == 0,
            r.n5() == 0,
    {
        IntervalSet::new_from_vals(0, 0, 0)
    }

    pub fn new_from_vals(n_major_third: i32, n_perfect_fourth: i32, n_perfect_fifth: i32) -> (r:
        Self)
        ensures
            r.n3() == n_major_third as int,
            r.n4() == n_perfect_fourth as int,
            r.n5() == n_perfect_fifth as int,
    {
        Self { n_major_third, n_perfect_fourth, n_perfect_fifth }
    }

    pub fn get_half_steps(&self) -> (r: i32)
        requires
            i32::MIN <= self.spec_half_steps() <= i32::MAX,
        ensures
            r as int == self.spec_half_steps(),
    {
        let total: i64 = 4 * (self.n_major_third as i64) + 5 * (self.n_perfect_fourth as i64) + 7
            * (self.n_perfect_fifth as i64);
        total as i32
    }

    pub fn num_intervals(&self) -> (r: usize)
        requires
            self.spec_num_intervals() <= usize::MAX,
        ensures
            r as int == self.spec_num_intervals(),
    {
        let a: i64 = self.n_major_third as i64;
        let b: i64 = self.n_perfect_fourth as i64;
        let c: i64 = self.n_perfect_fifth as i64;
        let a = if a < 0 { -a } else { a };
        let b = if b < 0 { -b } else { b };
        let c = if c < 0 { -c } else { c };
        (a + b + c) as usize
    }

    /// Componentwise vector addition.
    pub fn add(&mut self, other: &Self)
        requires
            i32::MIN <= old(self).n3() + other.n3() <= i32::MAX,
            i32::MIN <= old(self).n4() + other.n4() <= i32::MAX,
            i32::MIN <= old(self).n5() + other.n5() <= i32::MAX,
        ensures
            final(self).n3() == old(self).n3() + other.n3(),
            final(self).n4() == old(self).n4() + other.n4(),
            final(self).n5() == old(self).n5() + other.n5(),
    {
        self.n_major_third = ((self.n_major_third as i64) + (other.n_major_third as i64)) as i32;
        self.n_perfect_fourth = ((self.n_perfect_fourth as i64) + (other.n_perfect_fourth as i64))
            as i32;
        self.n_perfect_fifth = ((self.n_perfect_fifth as i64) + (other.n_perfect_fifth as i64))
            as i32;
    }

    /// Search for the first combination, in the fixed shell order, that
    /// evaluates to `half_steps` half-steps.
    ///
    /// Shells of growing radius enumerate each axis over
    /// `0, 1, -1, 2, -2, ...`; the first matching triple is returned.
    /// Enough shells are scanned that a match is always found: the
    /// proof exhibits the witness `(h/4 - h%4, h%4, 0)`, whose weighted
    /// sum is `h` and whose entries lie within the scanned radius.
    #[verifier::loop_isolation(false)]
    #[verifier::rlimit(50)]
    pub fn new_with_hstep(half_steps: i32) -> (r: Self)
        ensures
            r.spec_half_steps() == half_steps as int,
            iabs(r.n3()) <= iabs(half_steps as int) / 4 + 6,
            iabs(r.n4()) <= iabs(half_steps as int) / 4 + 6,
            iabs(r.n5()) <= iabs(half_steps as int) / 4 + 6,
    {
        let h: i64 = half_steps as i64;
        let habs: i64 = if h < 0 {
            -h
        } else {
            h
        };
        let cap: i64 = habs / 4 + 7;
        proof {
            lemma_fundamental_div_mod(habs as int, 4);
        }
        let mut maxval: i64 = 1;
        while maxval <= cap
            invariant
                1 <= maxval <= cap + 1,
                forall|a: int, b: int, c: int|
                    iabs(a) <= maxval - 2 && iabs(b) <= maxval - 2 && iabs(c) <= maxval - 2
                        ==> !#[trigger] hits_half_steps(h as int, a, b, c),
            decreases cap + 1 - maxval,
        {
            let len: i64 = 2 * maxval - 1;
            let mut ia: i64 = 0;
            while ia < len
                invariant
                    0 <= ia <= len,
                    forall|ja: int, jb: int, jc: int|
                        0 <= ja < ia && 0 <= jb < len && 0 <= jc < len ==> !hits_half_steps(
                            h as int,
                            #[trigger] signed_val(ja),
                            #[trigger] signed_val(jb),
                            #[trigger] signed_val(jc),
                        ),
                decreases len - ia,
            {
                let a = signed_val_exec(ia);
                let mut ib: i64 = 0;
                while ib < len
                    invariant
                        0 <= ib <= len,
                        forall|jb: int, jc: int|
                            0 <= jb < ib && 0 <= jc < len ==> !hits_half_steps(
                                h as int,
                                a as int,
                                #[trigger] signed_val(jb),
                                #[trigger] signed_val(jc),
                            ),
                    decreases len - ib,
                {
                    let b = signed_val_exec(ib);
                    let mut ic: i64 = 0;
                    while ic < len
                        invariant
                            0 <= ic <= len,
                            forall|jc: int|
                                0 <= jc < ic ==> !hits_half_steps(
                                    h as int,
                                    a as int,
                                    b as int,
                                    #[trigger] signed_val(jc),
                                ),
                        decreases len - ic,
                    {
                        let c = signed_val_exec(ic);
                        let s: i64 = 4 * a + 5 * b + 7 * c;
                        if s == h {
                            return IntervalSet {
                                n_major_third: a as i32,
                                n_perfect_fourth: b as i32,
                                n_perfect_fifth: c as i32,
                            };
                        }
                        ic = ic + 1;
                    }
                    ib = ib + 1;
                }
                ia = ia + 1;
            }
            proof {
                assert forall|a: int, b: int, c: int|
                    iabs(a) <= maxval - 1 && iabs(b) <= maxval - 1 && iabs(c)
                        <= maxval - 1 implies !#[trigger] hits_half_steps(
                    h as int,
                    a,
                    b,
                    c,
                ) by {
                    lemma_signed_val_covers(a);
                    lemma_signed_val_covers(b);
                    lemma_signed_val_covers(c);
                    assert(0 <= signed_idx(a) < len);
                    assert(0 <= signed_idx(b) < len);
                    assert(0 <= signed_idx(c) < len);
                    assert(!hits_half_steps(
                        h as int,
                        signed_val(signed_idx(a)),
                        signed_val(signed_idx(b)),
                        signed_val(signed_idx(c)),
                    ));
                }
            }
            maxval = maxval + 1;
        }
        proof {
            let hh = h as int;
            lemma_fundamental_div_mod(hh, 4);
            let q = hh / 4;
            let bw = hh % 4;
            let aw = q - bw;
            assert(hh == 4 * q + bw);
            assert(0 <= bw <= 3);
            assert(hits_half_steps(hh, aw, bw, 0));
            assert(4 * q <= habs && -habs - 3 <= 4 * q);
            assert(iabs(aw) <= cap - 1);
            assert(iabs(bw) <= cap - 1);
            assert(iabs(0) <= cap - 1);
            assert(false);
        }
        IntervalSet::new_from_vals(0, 0, 0)
    }

    /// Search for the first tuning-neutral combination whose ratio
    /// falls below one.  The proof exhibits the witness `(1, 2, -2)`
    /// (ratio 80/81) inside the scanned shells, so the search is total.
    #[verifier::loop_isolation(false)]
    fn search_down() -> (r: Self)
        ensures
            down_candidate(r.n3(), r.n4(), r.n5()),
            iabs(r.n3()) <= 8,
            iabs(r.n4()) <= 8,
            iabs(r.n5()) <= 8,
    {
        let cap: i64 = 9;
        let mut maxval: i64 = 1;
        while maxval <= cap
            invariant
                1 <= maxval <= cap + 1,
                forall|a: int, b: int, c: int|
                    iabs(a) <= maxval - 2 && iabs(b) <= maxval - 2 && iabs(c) <= maxval - 2
                        ==> !#[trigger] down_candidate(a, b, c),
            decreases cap + 1 - maxval,
        {
            let len: i64 = 2 * maxval - 1;
            let mut ia: i64 = 0;
            while ia < len
                invariant
                    0 <= ia <= len,
                    forall|ja: int, jb: int, jc: int|
                        0 <= ja < ia && 0 <= jb < len && 0 <= jc < len ==> !down_candidate(
                            #[trigger] signed_val(ja),
                            #[trigger] signed_val(jb),
                            #[trigger] signed_val(jc),
                        ),
                decreases len - ia,
            {
                let a = signed_val_exec(ia);
                let mut ib: i64 = 0;
                while ib < len
                    invariant
                        0 <= ib <= len,
                        forall|jb: int, jc: int|
                            0 <= jb < ib && 0 <= jc < len ==> !down_candidate(
                                a as int,
                                #[trigger] signed_val(jb),
                                #[trigger] signed_val(jc),
                            ),
                    decreases len - ib,
                {
                    let b = signed_val_exec(ib);
                    let mut ic: i64 = 0;
                    while ic < len
                        invariant
                            0 <= ic <= len,
                            forall|jc: int|
                                0 <= jc < ic ==> !down_candidate(
                                    a as int,
                                    b as int,
                                    #[trigger] signed_val(jc),
                                ),
                        decreases len - ic,
                    {
                        let c = signed_val_exec(ic);
                        let s: i64 = 4 * a + 5 * b + 7 * c;
                        if !(a == 0 && b == 0 && c == 0) && s == 0 {
                            let (num, den) = candidate_scale(a, b, c);
                            if num < den {
                                return IntervalSet {
                                    n_major_third: a as i32,
                                    n_perfect_fourth: b as i32,
                                    n_perfect_fifth: c as i32,
                                };
                            }
                        }
                        ic = ic + 1;
                    }
                    ib = ib + 1;
                }
                ia = ia + 1;
            }
            proof {
                assert forall|a: int, b: int, c: int|
                    iabs(a) <= maxval - 1 && iabs(b) <= maxval - 1 && iabs(c)
                        <= maxval - 1 implies !#[trigger] down_candidate(a, b, c) by {
                    lemma_signed_val_covers(a);
                    lemma_signed_val_covers(b);
                    lemma_signed_val_covers(c);
                    assert(!down_candidate(
                        signed_val(signed_idx(a)),
                        signed_val(signed_idx(b)),
                        signed_val(signed_idx(c)),
                    ));
                }
            }
            maxval = maxval + 1;
        }
        proof {
            reveal_with_fuel(pow, 9);
            assert(axis_factor(5, 4, 1) == 5);
            assert(axis_factor(4, 3, 2) == 16);
            assert(axis_factor(3, 2, -2) == 4);
            assert(axis_factor(4, 5, 1) == 4);
            assert(axis_factor(3, 4, 2) == 9);
            assert(axis_factor(2, 3, -2) == 9);
            assert(scale_num(1, 2, -2) == 320);
            assert(scale_den(1, 2, -2) == 324);
            assert(down_candidate(1, 2, -2));
            assert(false);
        }
        IntervalSet::new_from_vals(0, 0, 0)
    }

    /// Search for the first tuning-neutral combination whose ratio
    /// rises above one and whose entries are each unequal to the
    /// negated entries of `down`.  Whatever `down` holds, one of the
    /// four witnesses `(-k, -2k, 2k)` for `k` up to four (ratios
    /// `(81/80)^k`) passes the entrywise exclusion, since three entries
    /// can pin at most three of the four, so the search is total.
    #[verifier::loop_isolation(false)]
    fn search_up(down: &Self) -> (r: Self)
        ensures
            up_candidate(down.n3(), down.n4(), down.n5(), r.n3(), r.n4(), r.n5()),
            iabs(r.n3()) <= 8,
            iabs(r.n4()) <= 8,
            iabs(r.n5()) <= 8,
    {
        let d3: i64 = down.n_major_third as i64;
        let d4: i64 = down.n_perfect_fourth as i64;
        let d5: i64 = down.n_perfect_fifth as i64;
        let cap: i64 = 9;
        let mut maxval: i64 = 1;
        while maxval <= cap
            invariant
                1 <= maxval <= cap + 1,
                forall|a: int, b: int, c: int|
                    iabs(a) <= maxval - 2 && iabs(b) <= maxval - 2 && iabs(c) <= maxval - 2
                        ==> !#[trigger] up_candidate(d3 as int, d4 as int, d5 as int, a, b, c),
            decreases cap + 1 - maxval,
        {
            let len: i64 = 2 * maxval - 1;
            let mut ia: i64 = 0;
            while ia < len
                invariant
                    0 <= ia <= len,
                    forall|ja: int, jb: int, jc: int|
                        0 <= ja < ia && 0 <= jb < len && 0 <= jc < len ==> !up_candidate(
                            d3 as int,
                            d4 as int,
                            d5 as int,
                            #[trigger] signed_val(ja),
                            #[trigger] signed_val(jb),
                            #[trigger] signed_val(jc),
                        ),
                decreases len - ia,
            {
                let a = signed_val_exec(ia);
                let mut ib: i64 = 0;
                while ib < len
                    invariant
                        0 <= ib <= len,
                        forall|jb: int, jc: int|
                            0 <= jb < ib && 0 <= jc < len ==> !up_candidate(
                                d3 as int,
                                d4 as int,
                                d5 as int,
                                a as int,
                                #[trigger] signed_val(jb),
                                #[trigger] signed_val(jc),
                            ),
                    decreases len - ib,
                {
                    let b = signed_val_exec(ib);
                    let mut ic: i64 = 0;
                    while ic < len
                        invariant
                            0 <= ic <= len,
                            forall|jc: int|
                                0 <= jc < ic ==> !up_candidate(
                                    d3 as int,
                                    d4 as int,
                                    d5 as int,
                                    a as int,
                                    b as int,
                                    #[trigger] signed_val(jc),
                                ),
                        decreases len - ic,
                    {
                        let c = signed_val_exec(ic);
                        let s: i64 = 4 * a + 5 * b + 7 * c;
                        if !(a == 0 && b == 0 && c == 0) && s == 0 && a != -d3 && b != -d4 && c
                            != -d5 {
                            let (num, den) = candidate_scale(a, b, c);
                            if num > den {
                                return IntervalSet {
                                    n_major_third: a as i32,
                                    n_perfect_fourth: b as i32,
                                    n_perfect_fifth: c as i32,
                                };
                            }
                        }
                        ic = ic + 1;
                    }
                    ib = ib + 1;
                }
                ia = ia + 1;
            }
            proof {
                assert forall|a: int, b: int, c: int|
                    iabs(a) <= maxval - 1 && iabs(b) <= maxval - 1 && iabs(c)
                        <= maxval - 1 implies !#[trigger] up_candidate(
                    d3 as int,
                    d4 as int,
                    d5 as int,
                    a,
                    b,
                    c,
                ) by {
                    lemma_signed_val_covers(a);
                    lemma_signed_val_covers(b);
                    lemma_signed_val_covers(c);
                    assert(!up_candidate(
                        d3 as int,
                        d4 as int,
                        d5 as int,
                        signed_val(signed_idx(a)),
                        signed_val(signed_idx(b)),
                        signed_val(signed_idx(c)),
                    ));
                }
            }
            maxval = maxval + 1;
        }
        proof {
            reveal_with_fuel(pow, 9);
            let g3 = d3 as int;
            let g4 = d4 as int;
            let g5 = d5 as int;
            if 1 != g3 && 2 != g4 && 2 != -g5 {
                assert(axis_factor(5, 4, -1) == 4);
                assert(axis_factor(4, 3, -2) == 9);
                assert(axis_factor(3, 2, 2) == 9);
                assert(axis_factor(4, 5, -1) == 5);
                assert(axis_factor(3, 4, -2) == 16);
                assert(axis_factor(2, 3, 2) == 4);
                assert(scale_num(-1, -2, 2) == 324);
                assert(scale_den(-1, -2, 2) == 320);
                assert(up_candidate(g3, g4, g5, -1, -2, 2));
            } else if 2 != g3 && 4 != g4 && 4 != -g5 {
                assert(axis_factor(5, 4, -2) == 16);
                assert(axis_factor(4, 3, -4) == 81);
                assert(axis_factor(3, 2, 4) == 81);
                assert(axis_factor(4, 5, -2) == 25);
                assert(axis_factor(3, 4, -4) == 256);
                assert(axis_factor(2, 3, 4) == 16);
                assert(scale_num(-2, -4, 4) == 104976);
                assert(scale_den(-2, -4, 4) == 102400);
                assert(up_candidate(g3, g4, g5, -2, -4, 4));
            } else if 3 != g3 && 6 != g4 && 6 != -g5 {
                assert(axis_factor(5, 4, -3) == 64);
                assert(axis_factor(4, 3, -6) == 729);
                assert(axis_factor(3, 2, 6) == 729);
                assert(axis_factor(4, 5, -3) == 125);
                assert(axis_factor(3, 4, -6) == 4096);
                assert(axis_factor(2, 3, 6) == 64);
                assert(scale_num(-3, -6, 6) == 34012224);
                assert(scale_den(-3, -6, 6) == 32768000);
                assert(up_candidate(g3, g4, g5, -3, -6, 6));
            } else if 4 != g3 && 8 != g4 && 8 != -g5 {
                assert(axis_factor(5, 4, -4) == 256);
                assert(axis_factor(4, 3, -8) == 6561);
                assert(axis_factor(3, 2, 8) == 6561);
                assert(axis_factor(4, 5, -4) == 625);
                assert(axis_factor(3, 4, -8) == 65536);
                assert(axis_factor(2, 3, 8) == 256);
                assert(scale_num(-4, -8, 8) == 11019960576);
                assert(scale_den(-4, -8, 8) == 10485760000);
                assert(up_candidate(g3, g4, g5, -4, -8, 8));
            } else {
                // three entries cannot pin all four witnesses
                assert(false);
            }
            assert(false);
        }
        IntervalSet::new_from_vals(0, 0, 0)
    }

    /// Search for a pair of tuning-neutral combinations bracketing the
    /// ratio one: the first with a ratio below one, and the first above
    /// one whose entries are each unequal to the negated entries of the
    /// down combination.
    pub fn new_with_freq_scale() -> (r: (Self, Self))
        ensures
            down_candidate(r.0.n3(), r.0.n4(), r.0.n5()),
            up_candidate(r.0.n3(), r.0.n4(), r.0.n5(), r.1.n3(), r.1.n4(), r.1.n5()),
            iabs(r.0.n3()) <= 8 && iabs(r.0.n4()) <= 8 && iabs(r.0.n5()) <= 8,
            iabs(r.1.n3()) <= 8 && iabs(r.1.n4()) <= 8 && iabs(r.1.n5()) <= 8,
    {
        let down = Self::search_down();
        let up = Self::search_up(&down);
        (down, up)
    }

    /// The exact frequency ratio this combination evaluates to, in
    /// lowest terms.  The bounds demand only what the machine forces:
    /// the integer products must fit the word sizes used.
    pub fn get_freq_scale(&self) -> (r: Ratio)
        requires
            self.spec_scale_num() <= u128::MAX,
            self.spec_scale_den() <= u128::MAX,
            reduced_fits_u64(self.spec_scale_num() as nat, self.spec_scale_den() as nat),
        ensures
            r.wf(),
            r.reduced(),
            r.is_value(self.spec_scale_num(), self.spec_scale_den()),
    {
        let num = self.scale_parts_wide(false);
        let den = self.scale_parts_wide(true);
        reduce_parts(num, den)
    }

    /// One side of the ratio product: the numerator, or with `flip`
    /// the denominator.
    fn scale_parts_wide(&self, flip: bool) -> (r: u128)
        requires
            !flip ==> self.spec_scale_num() <= u128::MAX,
            flip ==> self.spec_scale_den() <= u128::MAX,
        ensures
            !flip ==> r as int == self.spec_scale_num(),
            flip ==> r as int == self.spec_scale_den(),
            r >= 1,
    {
        let a: i64 = self.n_major_third as i64;
        let b: i64 = self.n_perfect_fourth as i64;
        let c: i64 = self.n_perfect_fifth as i64;
        let ghost total: int = if flip {
            self.spec_scale_den()
        } else {
            self.spec_scale_num()
        };
        let ghost f1: int = if flip {
            axis_factor(4, 5, a as int)
        } else {
            axis_factor(5, 4, a as int)
        };
        let ghost f2: int = if flip {
            axis_factor(3, 4, b as int)
        } else {
            axis_factor(4, 3, b as int)
        };
        let ghost f3: int = if flip {
            axis_factor(2, 3, c as int)
        } else {
            axis_factor(3, 2, c as int)
        };
        proof {
            lemma_axis_factor_positive(5, 4, a as int);
            lemma_axis_factor_positive(4, 3, b as int);
            lemma_axis_factor_positive(3, 2, c as int);
            lemma_axis_factor_positive(4, 5, a as int);
            lemma_axis_factor_positive(3, 4, b as int);
            lemma_axis_factor_positive(2, 3, c as int);
            assert(f1 <= total && f2 <= total && f3 <= total && 1 <= f1 * f2 <= total && 1
                <= total && total == f1 * f2 * f3) by (nonlinear_arith)
                requires
                    f1 >= 1,
                    f2 >= 1,
                    f3 >= 1,
                    total == f1 * f2 * f3,
            ;
        }
        let p1 = if flip {
            if a >= 0 {
                pow_wide(4, a as u64)
            } else {
                pow_wide(5, (-a) as u64)
            }
        } else {
            if a >= 0 {
                pow_wide(5, a as u64)
            } else {
                pow_wide(4, (-a) as u64)
            }
        };
        let p2 = if flip {
            if b >= 0 {
                pow_wide(3, b as u64)
            } else {
                pow_wide(4, (-b) as u64)
            }
        } else {
            if b >= 0 {
                pow_wide(4, b as u64)
            } else {
                pow_wide(3, (-b) as u64)
            }
        };
        let p3 = if flip {
            if c >= 0 {
                pow_wide(2, c as u64)
            } else {
                pow_wide(3, (-c) as u64)
            }
        } else {
            if c >= 0 {
                pow_wide(3, c as u64)
            } else {
                pow_wide(2, (-c) as u64)
            }
        };
        p1 * p2 * p3
    }

    /// Which token the major-third count expands to.
    pub open spec fn spec_tok3(self) -> JustInterval {
        if self.n3() > 0 {
            JustInterval::MajorThird
        } else {
            JustInterval::IMajorThird
        }
    }

    /// Which token the perfect-fourth count expands to.
    pub open spec fn spec_tok4(self) -> JustInterval {
        if self.n4() > 0 {
            JustInterval::PerfectFourth
        } else {
            JustInterval::IPerfectFourth
        }
    }

    /// Which token the perfect-fifth count expands to.
    pub open spec fn spec_tok5(self) -> JustInterval {
        if self.n5() > 0 {
            JustInterval::PerfectFifth
        } else {
            JustInterval::IPerfectFifth
        }
    }

    /// The multiset of atomic tokens this combination expands to: the
    /// magnitude of each count, of the positive or inverted token by
    /// its sign.
    pub open spec fn spec_expansion_ms(self) -> Multiset<JustInterval> {
        repeat_value(self.spec_tok3(), iabs(self.n3()) as nat).add(
            repeat_value(self.spec_tok4(), iabs(self.n4()) as nat),
        ).add(repeat_value(self.spec_tok5(), iabs(self.n5()) as nat))
    }

    /// Expand the combination into its token multiset and spread the
    /// tokens evenly with the fair scheduler.  The result holds
    /// exactly the expansion multiset, so its signed counts, and with
    /// them its half-step total, are those of the combination.
    #[verifier::rlimit(80)]
    pub fn to_interval_sequence(&self) -> (r: IntervalSequence)
        requires
            self.spec_num_intervals() <= usize::MAX as int / 4,
        ensures
            r.intervals@.to_multiset() == self.spec_expansion_ms(),
            r.intervals@.len() == self.spec_num_intervals(),
            seq_n3(r.intervals@) == self.n3(),
            seq_n4(r.intervals@) == self.n4(),
            seq_n5(r.intervals@) == self.n5(),
            seq_half_steps(r.intervals@) == self.spec_half_steps(),
    {
        broadcast use vstd::multiset::group_multiset_axioms;

        let tok3 = if self.n_major_third > 0 {
            JustInterval::MajorThird
        } else {
            JustInterval::IMajorThird
        };
        let tok4 = if self.n_perfect_fourth > 0 {
            JustInterval::PerfectFourth
        } else {
            JustInterval::IPerfectFourth
        };
        let tok5 = if self.n_perfect_fifth > 0 {
            JustInterval::PerfectFifth
        } else {
            JustInterval::IPerfectFifth
        };
        let a: i64 = self.n_major_third as i64;
        let b: i64 = self.n_perfect_fourth as i64;
        let c: i64 = self.n_perfect_fifth as i64;
        let c3: usize = (if a < 0 {
            -a
        } else {
            a
        }) as usize;
        let c4: usize = (if b < 0 {
            -b
        } else {
            b
        }) as usize;
        let c5: usize = (if c < 0 {
            -c
        } else {
            c
        }) as usize;
        let mut counts: Vec<(usize, JustInterval)> = Vec::new();
        counts.push((c3, tok3));
        counts.push((c4, tok4));
        counts.push((c5, tok5));
        proof {
            reveal_with_fuel(counts_total, 5);
            reveal_with_fuel(counts_ms, 5);
            let s = counts@;
            assert(s.drop_last() =~= seq![(c3, tok3), (c4, tok4)]);
            assert(s.drop_last().drop_last() =~= seq![(c3, tok3)]);
            assert(s.drop_last().drop_last().drop_last() =~= Seq::<(usize, JustInterval)>::empty());
            assert(counts_total(s) == c3 + c4 + c5);
            assert(counts_ms(s) =~= self.spec_expansion_ms());
        }
        let toks = distribute(&counts);
        proof {
            lemma_seq_counts_from_multiset(toks@);
            lemma_seq_half_steps_counts(toks@);
            let ms = self.spec_expansion_ms();
            lemma_repeat_value_count(self.spec_tok3(), iabs(self.n3()) as nat, JustInterval::MajorThird);
            lemma_repeat_value_count(self.spec_tok3(), iabs(self.n3()) as nat, JustInterval::IMajorThird);
            lemma_repeat_value_count(self.spec_tok4(), iabs(self.n4()) as nat, JustInterval::MajorThird);
            lemma_repeat_value_count(self.spec_tok4(), iabs(self.n4()) as nat, JustInterval::IMajorThird);
            lemma_repeat_value_count(self.spec_tok5(), iabs(self.n5()) as nat, JustInterval::MajorThird);
            lemma_repeat_value_count(self.spec_tok5(), iabs(self.n5()) as nat, JustInterval::IMajorThird);
            lemma_repeat_value_count(self.spec_tok3(), iabs(self.n3()) as nat, JustInterval::PerfectFourth);
            lemma_repeat_value_count(self.spec_tok3(), iabs(self.n3()) as nat, JustInterval::IPerfectFourth);
            lemma_repeat_value_count(self.spec_tok4(), iabs(self.n4()) as nat, JustInterval::PerfectFourth);
            lemma_repeat_value_count(self.spec_tok4(), iabs(self.n4()) as nat, JustInterval::IPerfectFourth);
            lemma_repeat_value_count(self.spec_tok5(), iabs(self.n5()) as nat, JustInterval::PerfectFourth);
            lemma_repeat_value_count(self.spec_tok5(), iabs(self.n5()) as nat, JustInterval::IPerfectFourth);
            lemma_repeat_value_count(self.spec_tok3(), iabs(self.n3()) as nat, JustInterval::PerfectFifth);
            lemma_repeat_value_count(self.spec_tok3(), iabs(self.n3()) as nat, JustInterval::IPerfectFifth);
            lemma_repeat_value_count(self.spec_tok4(), iabs(self.n4()) as nat, JustInterval::PerfectFifth);
            lemma_repeat_value_count(self.spec_tok4(), iabs(self.n4()) as nat, JustInterval::IPerfectFifth);
            lemma_repeat_value_count(self.spec_tok5(), iabs(self.n5()) as nat, JustInterval::PerfectFifth);
            lemma_repeat_value_count(self.spec_tok5(), iabs(self.n5()) as nat, JustInterval::IPerfectFifth);
            assert(ms.count(JustInterval::MajorThird) - ms.count(JustInterval::IMajorThird)
                == self.n3());
            assert(ms.count(JustInterval::PerfectFourth) - ms.count(JustInterval::IPerfectFourth)
                == self.n4());
            assert(ms.count(JustInterval::PerfectFifth) - ms.count(JustInterval::IPerfectFifth)
                == self.n5());
        }
        IntervalSequence { intervals: toks }
    }

    /// The counts as a plain tuple.
    pub fn coefficients(&self) -> (r: (i32, i32, i32))
        ensures
            r.0 as int == self.n3(),
            r.1 as int == self.n4(),
            r.2 as int == self.n5(),
    {
        (self.n_major_third, self.n_perfect_fourth, self.n_perfect_fifth)
    }
}

} // verus!
