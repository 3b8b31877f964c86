//! Decisions of the drift convergence loop.
//!
//! The loop greedily composes an accumulator with one of two
//! tuning-neutral bracket combinations until the accumulated ratio is
//! within tolerance of a target.  Whether the ratio equals the target,
//! whether the drift error is within tolerance, and on which side of
//! the target the ratio lies are measurements the caller makes (they
//! involve logarithms in cents); the decision taken from them, and its
//! effect on the accumulator, are fixed here.

use crate::interval_set::IntervalSet;
use vstd::prelude::*;

verus! {

/// What the convergence loop does next.
#[derive(Debug, PartialEq, Eq, Clone, Copy, Structural)]
pub enum DriftStep {
    Stop,
    AddDown,
    AddUp,
}

/// Decide the next action of the drift loop.  When the accumulated
/// ratio already equals the target, or the drift error is within
/// tolerance, the loop stops at once, leaving the accumulator as it
/// is; otherwise the bracket on the far side of the target is
/// composed in.
pub fn drift_decide(at_target: bool, within_tolerance: bool, above_target: bool) -> (r: DriftStep)
    ensures
        (at_target || within_tolerance) <==> r == DriftStep::Stop,
        (!at_target && !within_tolerance && above_target) <==> r == DriftStep::AddDown,
        (!at_target && !within_tolerance && !above_target) <==> r == DriftStep::AddUp,
{
    if at_target || within_tolerance {
        DriftStep::Stop
    } else if above_target {
        DriftStep::AddDown
    } else {
        DriftStep::AddUp
    }
}

/// Apply one drift action to the accumulator.
pub fn drift_apply(acc: &IntervalSet, down: &IntervalSet, up: &IntervalSet, step: DriftStep) -> (r:
    IntervalSet)
    requires
        step == DriftStep::AddDown ==> {
            &&& i32::MIN <= acc.n3() + down.n3() <= i32::MAX
            &&& i32::MIN <= acc.n4() + down.n4() <= i32::MAX
            &&& i32::MIN <= acc.n5() + down.n5() <= i32::MAX
        },
        step == DriftStep::AddUp ==> {
            &&& i32::MIN <= acc.n3() + up.n3() <= i32::MAX
            &&& i32::MIN <= acc.n4() + up.n4() <= i32::MAX
            &&& i32::MIN <= acc.n5() + up.n5() <= i32::MAX
        },
    ensures
        step == DriftStep::Stop ==> r == *acc,
        step == DriftStep::AddDown ==> r.n3() == acc.n3() + down.n3() && r.n4() == acc.n4()
            + down.n4() && r.n5() == acc.n5() + down.n5(),
        step == DriftStep::AddUp ==> r.n3() == acc.n3() + up.n3() && r.n4() == acc.n4() + up.n4()
            && r.n5() == acc.n5() + up.n5(),
{
    match step {
        DriftStep::Stop => *acc,
        DriftStep::AddDown => {
            let mut r = *acc;
            r.add(down);
            r
        },
        DriftStep::AddUp => {
            let mut r = *acc;
            r.add(up);
            r
        },
    }
}

} // verus!
