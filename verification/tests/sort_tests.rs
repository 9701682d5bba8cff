use fanout::partition;
use fanout::quicksort;

#[test]
fn sorts_example_numbers() {
    let mut numbers: Vec<u64> = vec![64, 34, 25, 12, 22, 11, 90];
    quicksort(&mut numbers);
    assert_eq!(numbers, vec![11, 12, 22, 25, 34, 64, 90]);
}

#[test]
fn sorts_empty_and_single() {
    let mut empty: Vec<u64> = vec![];
    quicksort(&mut empty);
    assert!(empty.is_empty());
    let mut one: Vec<u64> = vec![7];
    quicksort(&mut one);
    assert_eq!(one, vec![7]);
}

#[test]
fn sorts_duplicates() {
    let mut v: Vec<u64> = vec![5, 1, 5, 1, 5];
    quicksort(&mut v);
    assert_eq!(v, vec![1, 1, 5, 5, 5]);
}

#[test]
fn sorts_reverse_order() {
    let mut v: Vec<u64> = (0..100u64).rev().collect();
    quicksort(&mut v);
    let expected: Vec<u64> = (0..100u64).collect();
    assert_eq!(v, expected);
}

#[test]
fn partition_splits_around_pivot() {
    let mut v: Vec<u64> = vec![9, 3, 7, 1, 5];
    let p = partition(&mut v, 0, 5);
    let pivot = v[p];
    assert_eq!(pivot, 5);
    for k in 0..p {
        assert!(v[k] <= pivot);
    }
    for k in p + 1..5 {
        assert!(v[k] > pivot);
    }
}
