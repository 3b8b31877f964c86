use tuning_drift::ratio::Ratio;

#[test]
fn new_reduces_to_lowest_terms() {
    assert_eq!(Ratio::new(320, 324), Ratio::new(80, 81));
    assert_eq!(Ratio::new(6, 4), Ratio::new(3, 2));
    let r = Ratio::new(30, 24);
    assert_eq!(r.num, 5);
    assert_eq!(r.den, 4);
}

#[test]
fn inverse_swaps_parts() {
    let r = Ratio::new(80, 81);
    let inv = r.inverse();
    assert_eq!(inv, Ratio::new(81, 80));
    assert_eq!(inv.inverse(), r);
}

#[test]
fn times_multiplies_exactly() {
    let a = Ratio::new(5, 4);
    let b = Ratio::new(4, 3);
    assert_eq!(a.times(&b), Ratio::new(5, 3));
    let down = Ratio::new(80, 81);
    let up = Ratio::new(81, 80);
    assert_eq!(down.times(&up), Ratio::new(1, 1));
}

#[test]
fn comparisons_cross_multiply() {
    let one = Ratio::new(1, 1);
    assert!(Ratio::new(80, 81).lt(&one));
    assert!(Ratio::new(81, 80).gt(&one));
    assert!(!Ratio::new(1, 1).lt(&one));
    assert!(!Ratio::new(1, 1).gt(&one));
    assert!(Ratio::new(2, 3).lt(&Ratio::new(3, 4)));
}
