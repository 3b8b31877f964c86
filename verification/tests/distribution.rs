use tuning_drift::vector_distributor::distribute;

#[test]
fn distribution() {
    let element_counts = vec![(0, 0), (0, 1), (2, 2)];
    let list = distribute(&element_counts);
    assert_eq!(list, vec![2, 2]);

    let element_counts = vec![(2, 0), (2, 1), (2, 2)];
    let list = distribute(&element_counts);
    assert_eq!(list, vec![0, 1, 2, 0, 1, 2]);

    let element_counts = vec![(4, 0), (3, 1), (2, 2), (1, 3)];
    let list = distribute(&element_counts);
    assert_eq!(list, vec![0, 1, 2, 0, 3, 1, 0, 2, 1, 0]);

    let element_counts = vec![
        (8, 0),
        (7, 1),
        (6, 2),
        (5, 3),
        (5, 4),
        (4, 5),
        (3, 6),
        (3, 7),
        (2, 8),
        (2, 9),
        (2, 10),
        (1, 11),
        (1, 12),
        (1, 13),
        (1, 14),
    ];
    let list = distribute(&element_counts);
    assert_eq!(
        list,
        vec![
            0, 1, 2, 3, 4, 5, 6, 7, 0, 1, 10, 8, 9, 2, 3, 4, 0, 1, 5, 2, 0, 13, 14, 11, 12, 6, 7,
            4, 3, 1, 0, 2, 5, 1, 0, 4, 3, 10, 8, 9, 2, 1, 0, 7, 6, 5, 4, 3, 2, 1, 0
        ]
    );
}

#[test]
fn four_weights_interleave_evenly() {
    let list = distribute(&vec![(4, 'a'), (3, 'b'), (2, 'c'), (1, 'd')]);
    assert_eq!(
        list,
        vec!['a', 'b', 'c', 'a', 'd', 'b', 'a', 'c', 'b', 'a']
    );
}

#[test]
fn equal_weights_cycle() {
    let list = distribute(&vec![(2, 0), (2, 1), (2, 2)]);
    assert_eq!(list, vec![0, 1, 2, 0, 1, 2]);
}

#[test]
fn output_preserves_counts() {
    let counts = vec![(5, 'x'), (0, 'y'), (3, 'z'), (2, 'x')];
    let list = distribute(&counts);
    assert_eq!(list.len(), 10);
    assert_eq!(list.iter().filter(|&&v| v == 'x').count(), 7);
    assert_eq!(list.iter().filter(|&&v| v == 'y').count(), 0);
    assert_eq!(list.iter().filter(|&&v| v == 'z').count(), 3);
}

#[test]
fn empty_counts_give_empty_output() {
    let counts: Vec<(usize, u8)> = vec![];
    assert_eq!(distribute(&counts), Vec::<u8>::new());
    assert_eq!(distribute(&vec![(0, 9)]), Vec::<i32>::new());
}

#[test]
fn single_value_is_a_run() {
    assert_eq!(distribute(&vec![(4, 7)]), vec![7, 7, 7, 7]);
}
