use tuning_drift::interval_set::IntervalSet;
use tuning_drift::ratio::Ratio;

#[test]
fn search_interval_sets_with_hstep() {
    for hstep in -10..10 {
        assert_eq!(
            IntervalSet::new_with_hstep(hstep).to_interval_sequence().get_half_steps(),
            hstep as i64
        );
    }
}

#[test]
fn search_interval_sets_with_freq_scale() {
    let one = Ratio::new(1, 1);
    let interval_sets = IntervalSet::new_with_freq_scale();
    assert!(interval_sets.0.to_interval_sequence().get_half_steps() == 0);
    assert!(interval_sets.0.to_interval_sequence().get_freq_scale().lt(&one));
    assert!(interval_sets.1.to_interval_sequence().get_half_steps() == 0);
    assert!(interval_sets.1.to_interval_sequence().get_freq_scale().gt(&one));
}

#[test]
fn add_interval_sets() {
    let mut set = IntervalSet::new_from_vals(1, 2, 3);
    set.add(&IntervalSet::new_from_vals(1, 2, 3));
    let ref_set = IntervalSet::new_from_vals(2, 4, 6);
    assert_eq!(set, ref_set);

    let mut set = IntervalSet::new_from_vals(1, 2, 3);
    set.add(&IntervalSet::new_from_vals(-1, -2, -3));
    let ref_set = IntervalSet::new_from_vals(0, 0, 0);
    assert_eq!(set, ref_set);

    let mut set = IntervalSet::new_from_vals(1, 2, 3);
    set.add(&IntervalSet::new_from_vals(-2, -4, -6));
    let ref_set = IntervalSet::new_from_vals(-1, -2, -3);
    assert_eq!(set, ref_set);
}

#[test]
fn interval_set_get_half_steps() {
    assert_eq!(IntervalSet::new_from_vals(1, 2, 2).get_half_steps(), 28);
}

#[test]
fn interval_set_get_freq_scale() {
    assert_eq!(
        IntervalSet::new_from_vals(1, 2, -2).get_freq_scale(),
        Ratio::new(80, 81)
    );
}

#[test]
fn hstep_search_covers_twenty_halfsteps_each_way() {
    for hstep in -20..=20 {
        assert_eq!(IntervalSet::new_with_hstep(hstep).get_half_steps(), hstep);
    }
}

#[test]
fn bracket_pair_straddles_one() {
    let one = Ratio::new(1, 1);
    let (down, up) = IntervalSet::new_with_freq_scale();
    assert_eq!(down.get_half_steps(), 0);
    assert_eq!(up.get_half_steps(), 0);
    assert!(down.get_freq_scale().lt(&one));
    assert!(up.get_freq_scale().gt(&one));
    let (d3, d4, d5) = down.coefficients();
    let (u3, u4, u5) = up.coefficients();
    assert!(u3 != -d3 && u4 != -d4 && u5 != -d5);
}

#[test]
fn adding_the_negation_is_neutral() {
    for (a, b, c) in [(1, 2, 3), (-4, 0, 7), (0, 0, 0), (5, -5, 2)] {
        let mut set = IntervalSet::new_from_vals(a, b, c);
        set.add(&IntervalSet::new_from_vals(-a, -b, -c));
        assert_eq!(set.get_half_steps(), 0);
        assert_eq!(set.get_freq_scale(), Ratio::new(1, 1));
    }
}

#[test]
fn num_intervals_sums_magnitudes() {
    assert_eq!(IntervalSet::new_from_vals(1, -2, 3).num_intervals(), 6);
    assert_eq!(IntervalSet::new_empty().num_intervals(), 0);
}

#[test]
fn expansion_length_matches_num_intervals() {
    let set = IntervalSet::new_from_vals(2, -3, 1);
    let seq = set.to_interval_sequence();
    assert_eq!(seq.intervals.len(), set.num_intervals());
}
