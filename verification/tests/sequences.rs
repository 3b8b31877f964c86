use tuning_drift::interval_sequences::IntervalSequence;
use tuning_drift::interval_set::IntervalSet;
use tuning_drift::just_intervals::JustInterval;
use tuning_drift::notes::Note;
use tuning_drift::ratio::Ratio;

#[test]
fn add_interval() {
    let mut seq = IntervalSequence::new();
    seq.add_interval(JustInterval::MajorThird);
    assert_eq!(seq.intervals, vec![JustInterval::MajorThird]);
    assert_eq!(seq.get_half_steps(), 4);
    assert_eq!(seq.get_freq_scale(), Ratio::new(5, 4));

    let mut seq = IntervalSequence::new();
    seq.add_interval(JustInterval::MajorThird);
    seq.add_interval(JustInterval::PerfectFourth);
    seq.add_interval(JustInterval::PerfectFourth);
    seq.add_interval(JustInterval::IPerfectFifth);
    seq.add_interval(JustInterval::IPerfectFifth);
    assert_eq!(
        seq.intervals,
        vec![
            JustInterval::MajorThird,
            JustInterval::PerfectFourth,
            JustInterval::PerfectFourth,
            JustInterval::IPerfectFifth,
            JustInterval::IPerfectFifth,
        ]
    );
    assert_eq!(seq.get_half_steps(), 0);
    assert_eq!(seq.get_freq_scale(), Ratio::new(80, 81));
}

#[test]
fn to_note_squence() {
    let startingnote = Note::new("C", 3);
    let mut sequence = IntervalSequence::new();
    sequence.add_interval(JustInterval::MajorThird);
    sequence.add_interval(JustInterval::IPerfectFourth);
    sequence.add_interval(JustInterval::PerfectFifth);

    let note_sequence = sequence.to_notes(startingnote);
    assert_eq!(
        note_sequence,
        vec![
            Note::new("C", 3),
            Note::new("E", 3),
            Note::new("B", 2),
            Note::new("F#", 3)
        ]
    );
}

#[test]
fn three_generators_compose_to_tritone() {
    let mut seq = IntervalSequence::new();
    seq.add_interval(JustInterval::MajorThird);
    seq.add_interval(JustInterval::IPerfectFourth);
    seq.add_interval(JustInterval::PerfectFifth);
    assert_eq!(seq.get_half_steps(), 6);
    assert_eq!(seq.get_freq_scale(), Ratio::new(45, 32));
}

#[test]
fn to_interval_sequence() {
    let interval_set = IntervalSet::new_from_vals(2, 3, -2);
    let mut ref_sequence = IntervalSequence::new();
    ref_sequence.add_interval(JustInterval::PerfectFourth);
    ref_sequence.add_interval(JustInterval::MajorThird);
    ref_sequence.add_interval(JustInterval::IPerfectFifth);
    ref_sequence.add_interval(JustInterval::PerfectFourth);
    ref_sequence.add_interval(JustInterval::MajorThird);
    ref_sequence.add_interval(JustInterval::IPerfectFifth);
    ref_sequence.add_interval(JustInterval::PerfectFourth);
    assert_eq!(interval_set.to_interval_sequence(), ref_sequence);

    let interval_set = IntervalSet::new_from_vals(-2, -3, 2);
    let mut ref_sequence = IntervalSequence::new();
    ref_sequence.add_interval(JustInterval::IPerfectFourth);
    ref_sequence.add_interval(JustInterval::IMajorThird);
    ref_sequence.add_interval(JustInterval::PerfectFifth);
    ref_sequence.add_interval(JustInterval::IPerfectFourth);
    ref_sequence.add_interval(JustInterval::IMajorThird);
    ref_sequence.add_interval(JustInterval::PerfectFifth);
    ref_sequence.add_interval(JustInterval::IPerfectFourth);
    assert_eq!(interval_set.to_interval_sequence(), ref_sequence);
}

#[test]
fn empty_sequence_is_neutral() {
    let seq = IntervalSequence::new();
    assert_eq!(seq.get_half_steps(), 0);
    assert_eq!(seq.get_freq_scale(), Ratio::new(1, 1));
    assert_eq!(seq.to_notes(Note::new("A", 4)), vec![Note::new("A", 4)]);
}
