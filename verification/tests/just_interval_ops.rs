use tuning_drift::just_intervals::JustInterval;
use tuning_drift::ratio::Ratio;

#[test]
fn just_intervals_get_freq_scale() {
    assert_eq!(JustInterval::MajorThird.get_freq_scale(), Ratio::new(5, 4));
    assert_eq!(JustInterval::IMajorThird.get_freq_scale(), Ratio::new(4, 5));
    assert_eq!(JustInterval::PerfectFourth.get_freq_scale(), Ratio::new(4, 3));
    assert_eq!(JustInterval::IPerfectFourth.get_freq_scale(), Ratio::new(3, 4));
    assert_eq!(JustInterval::PerfectFifth.get_freq_scale(), Ratio::new(3, 2));
    assert_eq!(JustInterval::IPerfectFifth.get_freq_scale(), Ratio::new(2, 3));
}

#[test]
fn just_intervals_get_half_steps() {
    assert_eq!(JustInterval::MajorThird.get_half_steps(), 4);
    assert_eq!(JustInterval::IMajorThird.get_half_steps(), -4);
    assert_eq!(JustInterval::PerfectFourth.get_half_steps(), 5);
    assert_eq!(JustInterval::IPerfectFourth.get_half_steps(), -5);
    assert_eq!(JustInterval::PerfectFifth.get_half_steps(), 7);
    assert_eq!(JustInterval::IPerfectFifth.get_half_steps(), -7);
}

#[test]
fn just_intervals_negate() {
    let options = [
        JustInterval::Unison,
        JustInterval::MajorThird,
        JustInterval::IMajorThird,
        JustInterval::PerfectFourth,
        JustInterval::IPerfectFourth,
        JustInterval::PerfectFifth,
        JustInterval::IPerfectFifth,
    ];
    for value in options {
        let negated = value.negated();
        assert_eq!(value, negated.negated());
        assert_eq!(value.get_half_steps(), -(negated.get_half_steps()));
        assert_eq!(value.get_freq_scale(), negated.get_freq_scale().inverse());
    }
}

#[test]
fn multiply() {
    let options = [
        JustInterval::Unison,
        JustInterval::MajorThird,
        JustInterval::IMajorThird,
        JustInterval::PerfectFourth,
        JustInterval::IPerfectFourth,
        JustInterval::PerfectFifth,
        JustInterval::IPerfectFifth,
    ];
    for value in options {
        for factor in 1..3 {
            assert_eq!(value.times(factor), value);
            assert_eq!(value.times(-factor), value.negated());
        }
        for factor in [0] {
            assert_eq!(value.times(factor), JustInterval::Unison);
        }
    }
}
