use tuning_drift::intervals::Interval;

#[test]
fn intervals_negate() {
    let interval = Interval::new(1, (2, 3));
    let neginterval = interval.negated();
    assert_eq!(neginterval, Interval::new(-1, (3, 2)));
}

#[test]
fn addition() {
    let interval_a = Interval::major_third();
    let interval_b = Interval::perfect_fifth();
    let interval_c = interval_a.plus(&interval_b);
    assert_eq!(interval_c, Interval::new(11, (15, 8)));
}

#[test]
fn assign_addition() {
    let mut interval = Interval::major_third();
    interval.plus_assign(&Interval::perfect_fifth());
    assert_eq!(interval, Interval::new(11, (15, 8)));
}

#[test]
fn subtraction() {
    let interval_a = Interval::new(11, (15, 8));
    let interval_b = Interval::perfect_fifth();
    let interval_c = interval_a.minus(&interval_b);
    assert_eq!(interval_c, Interval::major_third());
}

#[test]
fn multiplication() {
    let interval_a = Interval::major_third();
    assert_eq!(interval_a.times(0), Interval::new(0, (1, 1)));

    assert_eq!(interval_a.times(1), Interval::major_third());
    assert_eq!(
        interval_a.times(2),
        Interval::major_third().plus(&Interval::major_third())
    );
    assert_eq!(
        interval_a.times(3),
        Interval::major_third().plus(&Interval::major_third()).plus(&Interval::major_third())
    );

    assert_eq!(interval_a.times(-1), Interval::major_third().negated());
    assert_eq!(
        interval_a.times(-2),
        Interval::major_third().negated().plus(&Interval::major_third().negated())
    );
    assert_eq!(
        interval_a.times(-3),
        Interval::major_third()
            .negated()
            .plus(&Interval::major_third().negated())
            .plus(&Interval::major_third().negated())
    );
}
