//! Concrete pitches: a chromatic note name with an octave.
//!
//! A note is modelled by its absolute chromatic index
//! `octave * 12 + ord(name)`; every stepping operation moves that
//! index by the stated amount.

use crate::intervals::Interval;
use crate::notevalues::{parse_note, NoteValues};
use vstd::prelude::*;

verus! {

#[derive(Debug, PartialEq, Eq, Copy, Clone, Structural)]
pub struct Note {
    pub val: NoteValues,
    pub octave: i32,
}

/// Smallest absolute chromatic index a note can hold.
pub open spec fn note_idx_min() -> int {
    i32::MIN * 12
}

/// Largest absolute chromatic index a note can hold.
pub open spec fn note_idx_max() -> int {
    i32::MAX * 12 + 11
}

impl Note {
    /// Absolute chromatic index of this note.
    pub open spec fn spec_idx(self) -> int {
        self.octave * 12 + self.val.spec_ord()
    }

    /// A note from its name; the name must denote a note.
    pub fn new(s: &str, octave: i32) -> (r: Self)
        requires
            parse_note(s@) is Some,
        ensures
            r.val == parse_note(s@)->0,
            r.octave == octave,
    {
        let val = match NoteValues::from_str(s) {
            Ok(v) => v,
            Err(_) => NoteValues::C,
        };
        Note { val, octave }
    }

    /// One half-step up; B steps into the next octave.
    pub fn next(&self) -> (r: Self)
        requires
            self.spec_idx() < note_idx_max(),
        ensures
            r.spec_idx() == self.spec_idx() + 1,
    {
        let new_octave = match self.val {
            NoteValues::B => self.octave + 1,
            _ => self.octave,
        };
        Self { val: self.val.next(), octave: new_octave }
    }

    /// One half-step down; C steps into the previous octave.
    pub fn prev(&self) -> (r: Self)
        requires
            self.spec_idx() > note_idx_min(),
        ensures
            r.spec_idx() == self.spec_idx() - 1,
    {
        let new_octave = match self.val {
            NoteValues::C => self.octave - 1,
            _ => self.octave,
        };
        Self { val: self.val.prev(), octave: new_octave }
    }

    /// Down by a number of half-steps.
    pub fn lower(&self, steps: u32) -> (r: Self)
        requires
            note_idx_min() <= self.spec_idx() - steps,
        ensures
            r.spec_idx() == self.spec_idx() - steps,
        decreases steps,
    {
        match steps {
            0 => *self,
            _ => self.prev().lower(steps - 1),
        }
    }

    /// Up by a number of half-steps.
    pub fn raise(&self, steps: u32) -> (r: Self)
        requires
            self.spec_idx() + steps <= note_idx_max(),
        ensures
            r.spec_idx() == self.spec_idx() + steps,
        decreases steps,
    {
        match steps {
            0 => *self,
            _ => self.next().raise(steps - 1),
        }
    }

    /// Up or down by a signed number of half-steps.
    pub fn shift(&self, steps: i32) -> (r: Self)
        requires
            steps > i32::MIN,
            note_idx_min() <= self.spec_idx() + steps <= note_idx_max(),
        ensures
            r.spec_idx() == self.spec_idx() + steps,
    {
        if steps < 0 {
            self.lower((-steps) as u32)
        } else if steps == 0 {
            *self
        } else {
            self.raise(steps as u32)
        }
    }

    /// Shift by an interval's half-step count.
    pub fn shift_by_interval(&self, intv: &Interval) -> (r: Self)
        requires
            intv.half_tone_steps > i32::MIN,
            note_idx_min() <= self.spec_idx() + intv.half_tone_steps <= note_idx_max(),
        ensures
            r.spec_idx() == self.spec_idx() + intv.half_tone_steps,
    {
        self.shift(intv.half_tone_steps)
    }
}

} // verus!
