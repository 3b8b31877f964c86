use tuning_drift::drift::{drift_apply, drift_decide, DriftStep};
use tuning_drift::interval_set::IntervalSet;

fn to_cents(r: f64) -> f64 {
    1200.0 * r.abs().log2()
}

/// Run the convergence loop the way the surrounding application does:
/// measure in cents, let the library decide and apply each step.
fn converge(
    base: IntervalSet,
    down: &IntervalSet,
    up: &IntervalSet,
    target: f64,
    tolerance_cents: f64,
    cap: u32,
) -> (IntervalSet, u32) {
    let mut acc = base;
    let mut steps = 0;
    loop {
        let fs = acc.get_freq_scale();
        let current = fs.num as f64 / fs.den as f64;
        let at_target = current == target;
        let within = (to_cents(target) - to_cents(current)).abs() <= tolerance_cents;
        let decision = drift_decide(at_target, within, current > target);
        if decision == DriftStep::Stop {
            return (acc, steps);
        }
        acc = drift_apply(&acc, down, up, decision);
        steps += 1;
        assert!(steps < cap, "convergence failure");
    }
}

#[test]
fn unit_target_stops_immediately() {
    let base = IntervalSet::new_with_hstep(0);
    let (down, up) = IntervalSet::new_with_freq_scale();
    for tolerance in [0.0, 0.5, 10.0] {
        let (result, steps) = converge(base, &down, &up, 1.0, tolerance, 100);
        assert_eq!(steps, 0);
        assert_eq!(result, base);
    }
}

#[test]
fn drift_decisions() {
    assert_eq!(drift_decide(true, false, true), DriftStep::Stop);
    assert_eq!(drift_decide(false, true, false), DriftStep::Stop);
    assert_eq!(drift_decide(true, true, false), DriftStep::Stop);
    assert_eq!(drift_decide(false, false, true), DriftStep::AddDown);
    assert_eq!(drift_decide(false, false, false), DriftStep::AddUp);
}

#[test]
fn drift_apply_composes() {
    let acc = IntervalSet::new_from_vals(1, 2, 3);
    let down = IntervalSet::new_from_vals(1, 2, -2);
    let up = IntervalSet::new_from_vals(-2, 3, -1);
    assert_eq!(drift_apply(&acc, &down, &up, DriftStep::Stop), acc);
    assert_eq!(
        drift_apply(&acc, &down, &up, DriftStep::AddDown),
        IntervalSet::new_from_vals(2, 4, 1)
    );
    assert_eq!(
        drift_apply(&acc, &down, &up, DriftStep::AddUp),
        IntervalSet::new_from_vals(-1, 5, 2)
    );
}

#[test]
fn drifts_down_toward_unit_ratio() {
    // one half-step starts at 16/15, about 112 cents above a target
    // ratio of one; each down step removes about 21.5 cents
    let base = IntervalSet::new_with_hstep(1);
    let (down, up) = IntervalSet::new_with_freq_scale();
    let (result, steps) = converge(base, &down, &up, 1.0, 5.0, 1000);
    assert!(steps > 0);
    assert_eq!(result.get_half_steps(), 1);
    let fs = result.get_freq_scale();
    let err = (to_cents(1.0) - to_cents(fs.num as f64 / fs.den as f64)).abs();
    assert!(err <= 5.0);
}
