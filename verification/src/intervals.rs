//! A single interval as a half-step count with an exact ratio.
//!
//! Every interval the system uses is built from the three generators:
//! major third, perfect fourth, perfect fifth.

use crate::interval_set::{axis_factor, pow_wide};
use crate::ratio::{reduce_parts, reduced_fits_u64, Ratio};
use vstd::arithmetic::power::lemma_pow_positive;
use vstd::prelude::*;

verus! {

#[derive(Debug, PartialEq, Eq, Clone, Structural)]
pub struct Interval {
    pub half_tone_steps: i32,
    pub frequency_scale: Ratio,
}

impl Interval {
    pub fn major_third() -> (r: Self)
        ensures
            r.half_tone_steps == 4,
            r.frequency_scale.wf(),
            r.frequency_scale.reduced(),
            r.frequency_scale.is_value(5, 4),
    {
        Interval::new(4, (5, 4))
    }

    pub fn perfect_fourth() -> (r: Self)
        ensures
            r.half_tone_steps == 5,
            r.frequency_scale.wf(),
            r.frequency_scale.reduced(),
            r.frequency_scale.is_value(4, 3),
    {
        Interval::new(5, (4, 3))
    }

    pub fn perfect_fifth() -> (r: Self)
        ensures
            r.half_tone_steps == 7,
            r.frequency_scale.wf(),
            r.frequency_scale.reduced(),
            r.frequency_scale.is_value(3, 2),
    {
        Interval::new(7, (3, 2))
    }

    pub fn new(half_tone_steps: i32, frequency_scale: (u64, u64)) -> (r: Interval)
        requires
            frequency_scale.0 >= 1,
            frequency_scale.1 >= 1,
        ensures
            r.half_tone_steps == half_tone_steps,
            r.frequency_scale.wf(),
            r.frequency_scale.reduced(),
            r.frequency_scale.is_value(frequency_scale.0 as int, frequency_scale.1 as int),
    {
        Interval { half_tone_steps, frequency_scale: Ratio::new(frequency_scale.0, frequency_scale.1) }
    }

    /// The inverse interval: negated half-steps, inverted ratio.
    pub fn negated(&self) -> (r: Self)
        requires
            self.half_tone_steps > i32::MIN,
            self.frequency_scale.wf(),
        ensures
            r.half_tone_steps == -self.half_tone_steps,
            r.frequency_scale.num == self.frequency_scale.den,
            r.frequency_scale.den == self.frequency_scale.num,
            self.frequency_scale.reduced() ==> r.frequency_scale.reduced(),
    {
        Interval {
            half_tone_steps: -self.half_tone_steps,
            frequency_scale: self.frequency_scale.inverse(),
        }
    }

    /// Interval composition: half-steps add, ratios multiply.
    pub fn plus(&self, other: &Interval) -> (r: Interval)
        requires
            self.frequency_scale.wf(),
            other.frequency_scale.wf(),
            i32::MIN <= self.half_tone_steps + other.half_tone_steps <= i32::MAX,
            reduced_fits_u64(
                (self.frequency_scale.num * other.frequency_scale.num) as nat,
                (self.frequency_scale.den * other.frequency_scale.den) as nat,
            ),
        ensures
            r.half_tone_steps as int == self.half_tone_steps + other.half_tone_steps,
            r.frequency_scale.wf(),
            r.frequency_scale.reduced(),
            r.frequency_scale.is_value(
                self.frequency_scale.num * other.frequency_scale.num,
                self.frequency_scale.den * other.frequency_scale.den,
            ),
    {
        let hs: i64 = (self.half_tone_steps as i64) + (other.half_tone_steps as i64);
        Interval {
            half_tone_steps: hs as i32,
            frequency_scale: self.frequency_scale.times(&other.frequency_scale),
        }
    }

    /// In-place composition.
    pub fn plus_assign(&mut self, other: &Interval)
        requires
            old(self).frequency_scale.wf(),
            other.frequency_scale.wf(),
            i32::MIN <= old(self).half_tone_steps + other.half_tone_steps <= i32::MAX,
            reduced_fits_u64(
                (old(self).frequency_scale.num * other.frequency_scale.num) as nat,
                (old(self).frequency_scale.den * other.frequency_scale.den) as nat,
            ),
        ensures
            final(self).half_tone_steps as int == old(self).half_tone_steps
                + other.half_tone_steps,
            final(self).frequency_scale.wf(),
            final(self).frequency_scale.reduced(),
            final(self).frequency_scale.is_value(
                old(self).frequency_scale.num * other.frequency_scale.num,
                old(self).frequency_scale.den * other.frequency_scale.den,
            ),
    {
        let sum = self.plus(other);
        *self = sum;
    }

    /// Interval difference: half-steps subtract, ratios divide.
    pub fn minus(&self, other: &Interval) -> (r: Interval)
        requires
            self.frequency_scale.wf(),
            other.frequency_scale.wf(),
            i32::MIN <= self.half_tone_steps - other.half_tone_steps <= i32::MAX,
            reduced_fits_u64(
                (self.frequency_scale.num * other.frequency_scale.den) as nat,
                (self.frequency_scale.den * other.frequency_scale.num) as nat,
            ),
        ensures
            r.half_tone_steps as int == self.half_tone_steps - other.half_tone_steps,
            r.frequency_scale.wf(),
            r.frequency_scale.reduced(),
            r.frequency_scale.is_value(
                self.frequency_scale.num * other.frequency_scale.den,
                self.frequency_scale.den * other.frequency_scale.num,
            ),
    {
        let hs: i64 = (self.half_tone_steps as i64) - (other.half_tone_steps as i64);
        let inv = other.frequency_scale.inverse();
        Interval { half_tone_steps: hs as i32, frequency_scale: self.frequency_scale.times(&inv) }
    }

    /// Integer scaling: half-steps multiply, the ratio is raised to
    /// the power, with negative factors inverting.
    pub fn times(&self, factor: i32) -> (r: Interval)
        requires
            self.frequency_scale.wf(),
            i32::MIN <= self.half_tone_steps * factor <= i32::MAX,
            axis_factor(self.frequency_scale.num as int, self.frequency_scale.den as int, factor as int)
                <= u128::MAX,
            axis_factor(self.frequency_scale.den as int, self.frequency_scale.num as int, factor as int)
                <= u128::MAX,
            reduced_fits_u64(
                axis_factor(
                    self.frequency_scale.num as int,
                    self.frequency_scale.den as int,
                    factor as int,
                ) as nat,
                axis_factor(
                    self.frequency_scale.den as int,
                    self.frequency_scale.num as int,
                    factor as int,
                ) as nat,
            ),
        ensures
            r.half_tone_steps as int == self.half_tone_steps * factor,
            r.frequency_scale.wf(),
            r.frequency_scale.reduced(),
            r.frequency_scale.is_value(
                axis_factor(
                    self.frequency_scale.num as int,
                    self.frequency_scale.den as int,
                    factor as int,
                ),
                axis_factor(
                    self.frequency_scale.den as int,
                    self.frequency_scale.num as int,
                    factor as int,
                ),
            ),
    {
        let hs: i64 = (self.half_tone_steps as i64) * (factor as i64);
        let f: i64 = factor as i64;
        proof {
            let fa: int = if f >= 0 {
                f as int
            } else {
                -(f as int)
            };
            lemma_pow_positive(self.frequency_scale.num as int, fa as nat);
            lemma_pow_positive(self.frequency_scale.den as int, fa as nat);
        }
        let (n, d) = if f >= 0 {
            (
                pow_wide(self.frequency_scale.num, f as u64),
                pow_wide(self.frequency_scale.den, f as u64),
            )
        } else {
            (
                pow_wide(self.frequency_scale.den, (-f) as u64),
                pow_wide(self.frequency_scale.num, (-f) as u64),
            )
        };
        Interval { half_tone_steps: hs as i32, frequency_scale: reduce_parts(n, d) }
    }
}

} // verus!
