//! The just-intonation generator intervals.
//!
//! Three base intervals (major third 5/4, perfect fourth 4/3, perfect
//! fifth 3/2), their inversions, and the unison.  Each carries a
//! chromatic half-step count and an exact frequency ratio, and
//! inversion negates the half-steps and inverts the ratio.

use crate::ratio::{spec_gcd, Ratio};
use vstd::prelude::*;

verus! {

#[derive(Debug, PartialEq, Eq, Clone, Copy, Hash, Structural)]
pub enum JustInterval {
    Unison,
    MajorThird,
    IMajorThird,
    PerfectFourth,
    IPerfectFourth,
    PerfectFifth,
    IPerfectFifth,
}

impl JustInterval {
    /// Chromatic half-steps spanned by this interval.
    pub open spec fn spec_half_steps(self) -> int {
        match self {
            JustInterval::Unison => 0,
            JustInterval::MajorThird => 4,
            JustInterval::IMajorThird => -4,
            JustInterval::PerfectFourth => 5,
            JustInterval::IPerfectFourth => -5,
            JustInterval::PerfectFifth => 7,
            JustInterval::IPerfectFifth => -7,
        }
    }

    /// Numerator of this interval's frequency ratio.
    pub open spec fn spec_num(self) -> int {
        match self {
            JustInterval::Unison => 1,
            JustInterval::MajorThird => 5,
            JustInterval::IMajorThird => 4,
            JustInterval::PerfectFourth => 4,
            JustInterval::IPerfectFourth => 3,
            JustInterval::PerfectFifth => 3,
            JustInterval::IPerfectFifth => 2,
        }
    }

    /// Denominator of this interval's frequency ratio.
    pub open spec fn spec_den(self) -> int {
        match self {
            JustInterval::Unison => 1,
            JustInterval::MajorThird => 4,
            JustInterval::IMajorThird => 5,
            JustInterval::PerfectFourth => 3,
            JustInterval::IPerfectFourth => 4,
            JustInterval::PerfectFifth => 2,
            JustInterval::IPerfectFifth => 3,
        }
    }

    /// The inverse interval: same distance, opposite direction.
    pub open spec fn spec_negated(self) -> Self {
        match self {
            JustInterval::Unison => JustInterval::Unison,
            JustInterval::MajorThird => JustInterval::IMajorThird,
            JustInterval::IMajorThird => JustInterval::MajorThird,
            JustInterval::PerfectFourth => JustInterval::IPerfectFourth,
            JustInterval::IPerfectFourth => JustInterval::PerfectFourth,
            JustInterval::PerfectFifth => JustInterval::IPerfectFifth,
            JustInterval::IPerfectFifth => JustInterval::PerfectFifth,
        }
    }

    pub fn get_half_steps(&self) -> (r: i32)
        ensures
            r as int == self.spec_half_steps(),
    {
        match self {
            JustInterval::Unison => 0,
            JustInterval::MajorThird => 4,
            JustInterval::IMajorThird => -4,
            JustInterval::PerfectFourth => 5,
            JustInterval::IPerfectFourth => -5,
            JustInterval::PerfectFifth => 7,
            JustInterval::IPerfectFifth => -7,
        }
    }

    pub fn get_freq_scale(&self) -> (r: Ratio)
        ensures
            r.wf(),
            r.reduced(),
            r.num as int == self.spec_num(),
            r.den as int == self.spec_den(),
    {
        proof {
            reveal_with_fuel(spec_gcd, 5);
            assert(spec_gcd(1, 1) == 1);
            assert(spec_gcd(5, 4) == 1);
            assert(spec_gcd(4, 5) == 1);
            assert(spec_gcd(4, 3) == 1);
            assert(spec_gcd(3, 4) == 1);
            assert(spec_gcd(3, 2) == 1);
            assert(spec_gcd(2, 3) == 1);
        }
        match self {
            JustInterval::Unison => Ratio { num: 1, den: 1 },
            JustInterval::MajorThird => Ratio { num: 5, den: 4 },
            JustInterval::IMajorThird => Ratio { num: 4, den: 5 },
            JustInterval::PerfectFourth => Ratio { num: 4, den: 3 },
            JustInterval::IPerfectFourth => Ratio { num: 3, den: 4 },
            JustInterval::PerfectFifth => Ratio { num: 3, den: 2 },
            JustInterval::IPerfectFifth => Ratio { num: 2, den: 3 },
        }
    }

    /// The inverse interval.
    pub fn negated(&self) -> (r: Self)
        ensures
            r == self.spec_negated(),
            r.spec_half_steps() == -self.spec_half_steps(),
            r.spec_num() == self.spec_den(),
            r.spec_den() == self.spec_num(),
    {
        match self {
            JustInterval::Unison => JustInterval::Unison,
            JustInterval::MajorThird => JustInterval::IMajorThird,
            JustInterval::IMajorThird => JustInterval::MajorThird,
            JustInterval::PerfectFourth => JustInterval::IPerfectFourth,
            JustInterval::IPerfectFourth => JustInterval::PerfectFourth,
            JustInterval::PerfectFifth => JustInterval::IPerfectFifth,
            JustInterval::IPerfectFifth => JustInterval::PerfectFifth,
        }
    }

    /// Repetition by sign: a positive factor keeps the interval, zero
    /// collapses to the unison, a negative factor inverts it.
    pub fn times(&self, rhs: i32) -> (r: Self)
        ensures
            rhs > 0 ==> r == *self,
            rhs == 0 ==> r == JustInterval::Unison,
            rhs < 0 ==> r == self.spec_negated(),
    {
        if rhs > 0 {
            *self
        } else if rhs == 0 {
            JustInterval::Unison
        } else {
            self.negated()
        }
    }
}

} // verus!
