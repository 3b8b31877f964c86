//! Ordered sequences of atomic generator intervals.
//!
//! An `IntervalSequence` is the flat, ordered form of a combination:
//! one token per atomic interval.  Its half-step total is the sum of
//! its tokens' half-steps, and its frequency ratio is the product of
//! their ratios, which depends only on the signed token counts per
//! generator axis.

use crate::interval_set::{scale_den, scale_num, IntervalSet};
use crate::just_intervals::JustInterval;
use crate::notes::{note_idx_max, note_idx_min, Note};
use crate::ratio::{reduced_fits_u64, Ratio};
use vstd::multiset::Multiset;
use vstd::prelude::*;

verus! {

broadcast use vstd::seq_lib::group_to_multiset_ensures;

/// Signed major-third contribution of one token.
pub open spec fn tok_n3(t: JustInterval) -> int {
    match t {
        JustInterval::MajorThird => 1,
        JustInterval::IMajorThird => -1,
        _ => 0,
    }
}

/// Signed perfect-fourth contribution of one token.
pub open spec fn tok_n4(t: JustInterval) -> int {
    match t {
        JustInterval::PerfectFourth => 1,
        JustInterval::IPerfectFourth => -1,
        _ => 0,
    }
}

/// Signed perfect-fifth contribution of one token.
pub open spec fn tok_n5(t: JustInterval) -> int {
    match t {
        JustInterval::PerfectFifth => 1,
        JustInterval::IPerfectFifth => -1,
        _ => 0,
    }
}

/// Signed major-third count of a token sequence.
pub open spec fn seq_n3(s: Seq<JustInterval>) -> int
    decreases s.len(),
{
    if s.len() == 0 {
        0
    } else {
        seq_n3(s.drop_last()) + tok_n3(s.last())
    }
}

/// Signed perfect-fourth count of a token sequence.
pub open spec fn seq_n4(s: Seq<JustInterval>) -> int
    decreases s.len(),
{
    if s.len() == 0 {
        0
    } else {
        seq_n4(s.drop_last()) + tok_n4(s.last())
    }
}

/// Signed perfect-fifth count of a token sequence.
pub open spec fn seq_n5(s: Seq<JustInterval>) -> int
    decreases s.len(),
{
    if s.len() == 0 {
        0
    } else {
        seq_n5(s.drop_last()) + tok_n5(s.last())
    }
}

/// Half-step total of a token sequence.
pub open spec fn seq_half_steps(s: Seq<JustInterval>) -> int
    decreases s.len(),
{
    if s.len() == 0 {
        0
    } else {
        seq_half_steps(s.drop_last()) + s.last().spec_half_steps()
    }
}

/// The half-step total is a weighted sum of the signed counts.
pub proof fn lemma_seq_half_steps_counts(s: Seq<JustInterval>)
    ensures
        seq_half_steps(s) == 4 * seq_n3(s) + 5 * seq_n4(s) + 7 * seq_n5(s),
    decreases s.len(),
{
    if s.len() > 0 {
        lemma_seq_half_steps_counts(s.drop_last());
    }
}

/// The signed counts of a sequence depend only on its multiset.
pub proof fn lemma_seq_counts_from_multiset(s: Seq<JustInterval>)
    ensures
        seq_n3(s) == s.to_multiset().count(JustInterval::MajorThird) - s.to_multiset().count(
            JustInterval::IMajorThird,
        ),
        seq_n4(s) == s.to_multiset().count(JustInterval::PerfectFourth) - s.to_multiset().count(
            JustInterval::IPerfectFourth,
        ),
        seq_n5(s) == s.to_multiset().count(JustInterval::PerfectFifth) - s.to_multiset().count(
            JustInterval::IPerfectFifth,
        ),
    decreases s.len(),
{
    broadcast use vstd::multiset::group_multiset_axioms;

    if s.len() == 0 {
        assert(s.to_multiset() =~= Multiset::empty());
    } else {
        lemma_seq_counts_from_multiset(s.drop_last());
        assert(s.drop_last().push(s.last()) =~= s);
        assert(s.to_multiset() == s.drop_last().to_multiset().insert(s.last()));
    }
}

#[derive(Debug)]
pub struct IntervalSequence {
    pub intervals: Vec<JustInterval>,
}

impl PartialEq for IntervalSequence {
    fn eq(&self, other: &Self) -> (r: bool) {
        if self.intervals.len() != other.intervals.len() {
            return false;
        }
        let n = self.intervals.len();
        let mut i: usize = 0;
        while i < n
            invariant
                n == self.intervals@.len(),
                n == other.intervals@.len(),
                0 <= i <= n,
                forall|j: int| 0 <= j < i ==> self.intervals@[j] == other.intervals@[j],
            decreases n - i,
        {
            if self.intervals[i] != other.intervals[i] {
                return false;
            }
            i = i + 1;
        }
        proof {
            assert(self.intervals@ =~= other.intervals@);
        }
        true
    }
}

impl vstd::std_specs::cmp::PartialEqSpecImpl for IntervalSequence {
    open spec fn obeys_eq_spec() -> bool {
        true
    }

    open spec fn eq_spec(&self, other: &Self) -> bool {
        self.intervals@ == other.intervals@
    }
}

impl IntervalSequence {
    /// The empty sequence.
    pub fn new() -> (r: Self)
        ensures
            r.intervals@.len() == 0,
    {
        IntervalSequence { intervals: Vec::<JustInterval>::new() }
    }

    /// Append one token.
    pub fn add_interval(&mut self, interval: JustInterval)
        ensures
            final(self).intervals@ == old(self).intervals@.push(interval),
    {
        self.intervals.push(interval);
    }

    /// The half-step total of the sequence.
    pub fn get_half_steps(&self) -> (r: i64)
        requires
            self.intervals@.len() <= 0x1000_0000_0000_0000,
        ensures
            r as int == seq_half_steps(self.intervals@),
    {
        let n = self.intervals.len();
        let mut total: i64 = 0;
        let mut i: usize = 0;
        while i < n
            invariant
                n == self.intervals@.len(),
                n <= 0x1000_0000_0000_0000,
                0 <= i <= n,
                total as int == seq_half_steps(self.intervals@.take(i as int)),
                -7 * i <= total as int <= 7 * i,
            decreases n - i,
        {
            proof {
                assert(self.intervals@.take(i + 1).drop_last() =~= self.intervals@.take(i as int));
                assert(self.intervals@.take(i + 1).last() == self.intervals@[i as int]);
            }
            total = total + (self.intervals[i].get_half_steps() as i64);
            i = i + 1;
        }
        proof {
            assert(self.intervals@.take(n as int) =~= self.intervals@);
        }
        total
    }

    /// The exact frequency ratio of the sequence, in lowest terms.
    /// The bounds demand only what the machine forces: the signed
    /// counts and the integer products must fit the word sizes used.
    pub fn get_freq_scale(&self) -> (r: Ratio)
        requires
            self.intervals@.len() <= 0x1000_0000_0000_0000,
            -i32::MAX <= seq_n3(self.intervals@) <= i32::MAX,
            -i32::MAX <= seq_n4(self.intervals@) <= i32::MAX,
            -i32::MAX <= seq_n5(self.intervals@) <= i32::MAX,
            scale_num(seq_n3(self.intervals@), seq_n4(self.intervals@), seq_n5(self.intervals@))
                <= u128::MAX,
            scale_den(seq_n3(self.intervals@), seq_n4(self.intervals@), seq_n5(self.intervals@))
                <= u128::MAX,
            reduced_fits_u64(
                scale_num(
                    seq_n3(self.intervals@),
                    seq_n4(self.intervals@),
                    seq_n5(self.intervals@),
                ) as nat,
                scale_den(
                    seq_n3(self.intervals@),
                    seq_n4(self.intervals@),
                    seq_n5(self.intervals@),
                ) as nat,
            ),
        ensures
            r.wf(),
            r.reduced(),
            r.is_value(
                scale_num(seq_n3(self.intervals@), seq_n4(self.intervals@), seq_n5(self.intervals@)),
                scale_den(seq_n3(self.intervals@), seq_n4(self.intervals@), seq_n5(self.intervals@)),
            ),
    {
        let n = self.intervals.len();
        let mut c3: i64 = 0;
        let mut c4: i64 = 0;
        let mut c5: i64 = 0;
        let mut i: usize = 0;
        while i < n
            invariant
                n == self.intervals@.len(),
                n <= 0x1000_0000_0000_0000,
                0 <= i <= n,
                c3 as int == seq_n3(self.intervals@.take(i as int)),
                c4 as int == seq_n4(self.intervals@.take(i as int)),
                c5 as int == seq_n5(self.intervals@.take(i as int)),
                -(i as int) <= c3 as int <= i as int,
                -(i as int) <= c4 as int <= i as int,
                -(i as int) <= c5 as int <= i as int,
            decreases n - i,
        {
            proof {
                assert(self.intervals@.take(i + 1).drop_last() =~= self.intervals@.take(i as int));
                assert(self.intervals@.take(i + 1).last() == self.intervals@[i as int]);
            }
            let t = self.intervals[i];
            match t {
                JustInterval::MajorThird => c3 = c3 + 1,
                JustInterval::IMajorThird => c3 = c3 - 1,
                JustInterval::PerfectFourth => c4 = c4 + 1,
                JustInterval::IPerfectFourth => c4 = c4 - 1,
                JustInterval::PerfectFifth => c5 = c5 + 1,
                JustInterval::IPerfectFifth => c5 = c5 - 1,
                JustInterval::Unison => (),
            }
            i = i + 1;
        }
        proof {
            assert(self.intervals@.take(n as int) =~= self.intervals@);
        }
        let set = IntervalSet::new_from_vals(c3 as i32, c4 as i32, c5 as i32);
        set.get_freq_scale()
    }

    /// The pitches a starting note runs through under this sequence:
    /// the start, then one note per token, each shifted from the last
    /// by the token's half-steps.
    pub fn to_notes(&self, startingnote: Note) -> (r: Vec<Note>)
        requires
            forall|i: int|
                0 <= i <= self.intervals@.len() ==> note_idx_min() <= startingnote.spec_idx()
                    + seq_half_steps(#[trigger] self.intervals@.take(i)) <= note_idx_max(),
        ensures
            r@.len() == self.intervals@.len() + 1,
            forall|i: int|
                0 <= i <= self.intervals@.len() ==> #[trigger] r@[i].spec_idx()
                    == startingnote.spec_idx() + seq_half_steps(self.intervals@.take(i)),
            r@[0] == startingnote,
    {
        let mut note_sequence: Vec<Note> = Vec::new();
        note_sequence.push(startingnote);
        let mut last_note = startingnote;
        let n = self.intervals.len();
        let mut i: usize = 0;
        proof {
            assert(self.intervals@.take(0) =~= Seq::<JustInterval>::empty());
        }
        while i < n
            invariant
                n == self.intervals@.len(),
                0 <= i <= n,
                note_sequence@.len() == i + 1,
                note_sequence@[0] == startingnote,
                last_note == note_sequence@[i as int],
                forall|j: int|
                    0 <= j <= i ==> #[trigger] note_sequence@[j].spec_idx()
                        == startingnote.spec_idx() + seq_half_steps(self.intervals@.take(j)),
                forall|j: int|
                    0 <= j <= n ==> note_idx_min() <= startingnote.spec_idx() + seq_half_steps(
                        #[trigger] self.intervals@.take(j),
                    ) <= note_idx_max(),
            decreases n - i,
        {
            proof {
                assert(self.intervals@.take(i + 1).drop_last() =~= self.intervals@.take(i as int));
                assert(self.intervals@.take(i + 1).last() == self.intervals@[i as int]);
            }
            let t = self.intervals[i];
            let shifted_note = last_note.shift(t.get_half_steps());
            last_note = shifted_note;
            note_sequence.push(shifted_note);
            i = i + 1;
        }
        note_sequence
    }
}

} // verus!
