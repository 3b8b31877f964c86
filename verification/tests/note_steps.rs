use tuning_drift::intervals::Interval;
use tuning_drift::notes::Note;

#[test]
fn next() {
    assert_eq!(Note::new("B", 2).next(), Note::new("C", 3));
    assert_eq!(Note::new("C", 3).next(), Note::new("C#", 3));
    assert_eq!(Note::new("C#", 3).next(), Note::new("D", 3));
    assert_eq!(Note::new("D", 3).next(), Note::new("D#", 3));
    assert_eq!(Note::new("D#", 3).next(), Note::new("E", 3));
    assert_eq!(Note::new("E", 3).next(), Note::new("F", 3));
    assert_eq!(Note::new("F", 3).next(), Note::new("F#", 3));
    assert_eq!(Note::new("F#", 3).next(), Note::new("G", 3));
    assert_eq!(Note::new("G", 3).next(), Note::new("G#", 3));
    assert_eq!(Note::new("G#", 3).next(), Note::new("A", 3));
    assert_eq!(Note::new("A", 3).next(), Note::new("A#", 3));
    assert_eq!(Note::new("A#", 3).next(), Note::new("B", 3));
    assert_eq!(Note::new("B", 3).next(), Note::new("C", 4));
}

#[test]
fn prev() {
    assert_eq!(Note::new("C", 3).prev(), Note::new("B", 2));
    assert_eq!(Note::new("C#", 3).prev(), Note::new("C", 3));
    assert_eq!(Note::new("D", 3).prev(), Note::new("C#", 3));
    assert_eq!(Note::new("D#", 3).prev(), Note::new("D", 3));
    assert_eq!(Note::new("E", 3).prev(), Note::new("D#", 3));
    assert_eq!(Note::new("F", 3).prev(), Note::new("E", 3));
    assert_eq!(Note::new("F#", 3).prev(), Note::new("F", 3));
    assert_eq!(Note::new("G", 3).prev(), Note::new("F#", 3));
    assert_eq!(Note::new("G#", 3).prev(), Note::new("G", 3));
    assert_eq!(Note::new("A", 3).prev(), Note::new("G#", 3));
    assert_eq!(Note::new("A#", 3).prev(), Note::new("A", 3));
    assert_eq!(Note::new("B", 3).prev(), Note::new("A#", 3));
    assert_eq!(Note::new("C", 4).prev(), Note::new("B", 3));
}

#[test]
fn raise() {
    assert_eq!(Note::new("C", 3).raise(0), Note::new("C", 3));
    assert_eq!(Note::new("C", 3).raise(1), Note::new("C#", 3));
    assert_eq!(Note::new("C", 3).raise(2), Note::new("D", 3));
    assert_eq!(Note::new("C", 3).raise(3), Note::new("D#", 3));
    assert_eq!(Note::new("C", 3).raise(4), Note::new("E", 3));
    assert_eq!(Note::new("C", 3).raise(5), Note::new("F", 3));
    assert_eq!(Note::new("C", 3).raise(6), Note::new("F#", 3));
    assert_eq!(Note::new("C", 3).raise(7), Note::new("G", 3));
    assert_eq!(Note::new("C", 3).raise(8), Note::new("G#", 3));
    assert_eq!(Note::new("C", 3).raise(9), Note::new("A", 3));
    assert_eq!(Note::new("C", 3).raise(10), Note::new("A#", 3));
    assert_eq!(Note::new("C", 3).raise(11), Note::new("B", 3));
    assert_eq!(Note::new("C", 3).raise(12), Note::new("C", 4));
    assert_eq!(Note::new("C", 3).raise(13), Note::new("C#", 4));
}

#[test]
fn lower() {
    assert_eq!(Note::new("C", 3).lower(0), Note::new("C", 3));
    assert_eq!(Note::new("C", 3).lower(1), Note::new("B", 2));
    assert_eq!(Note::new("C", 3).lower(2), Note::new("A#", 2));
    assert_eq!(Note::new("C", 3).lower(3), Note::new("A", 2));
    assert_eq!(Note::new("C", 3).lower(4), Note::new("G#", 2));
    assert_eq!(Note::new("C", 3).lower(5), Note::new("G", 2));
    assert_eq!(Note::new("C", 3).lower(6), Note::new("F#", 2));
    assert_eq!(Note::new("C", 3).lower(7), Note::new("F", 2));
    assert_eq!(Note::new("C", 3).lower(8), Note::new("E", 2));
    assert_eq!(Note::new("C", 3).lower(9), Note::new("D#", 2));
    assert_eq!(Note::new("C", 3).lower(10), Note::new("D", 2));
    assert_eq!(Note::new("C", 3).lower(11), Note::new("C#", 2));
    assert_eq!(Note::new("C", 3).lower(12), Note::new("C", 2));
    assert_eq!(Note::new("C", 3).lower(13), Note::new("B", 1));
}

#[test]
fn shift() {
    assert_eq!(Note::new("C", 3).shift(0), Note::new("C", 3));
    assert_eq!(Note::new("C", 3).shift(5), Note::new("F", 3));
    assert_eq!(Note::new("C", 3).shift(-5), Note::new("G", 2));
}

#[test]
fn shift_by_interval() {
    assert_eq!(
        Note::new("C", 3).shift_by_interval(&Interval::perfect_fifth()),
        Note::new("G", 3)
    );
}
