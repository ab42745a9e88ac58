use cronsched::CopyRing;
use std::collections::VecDeque;

#[test]
fn first_cycle_equals_origin_vec() {
    let left = vec![1, 2, 3];
    let mut ring = CopyRing::new(left.clone());
    let mut it = ring.take_mut(3);
    let mut right: Vec<i32> = Vec::new();
    while let Some(x) = it.next() {
        right.push(x);
    }

    assert_eq!(left, right)
}

#[test]
fn one_cycle_fn_equals_origin_vec() {
    let left = vec![1, 2, 3, 4];
    let mut right = CopyRing::new(left.clone());
    let mut right_cycle = right.one_cycle();

    for l in left.iter() {
        let r = right_cycle.next().unwrap();
        assert_eq!(*l, r)
    }
}

#[test]
fn checked_next_only_true_when_wrap_occurs() {
    let mut ring = CopyRing::new((0..3).collect::<Vec<i32>>());
    assert!(!ring.is_init());

    let next = ring.checked_next().unwrap();
    assert!(ring.is_init());

    assert_eq!(0, next.0);
    assert_eq!(false, next.1);

    ring.rotate_left(2);
    let next = ring.checked_next().unwrap();

    assert_eq!(0, next.0);
    assert_eq!(true, next.1);
}

#[test]
fn first_next_equals_first_value() {
    let mut ring = CopyRing::new(vec![2, 5, 7, 8]);
    assert_eq!(2, ring.next().unwrap())
}

#[test]
fn shifted_ring_equals_shifted_vec() {
    let mut left = VecDeque::from([3, 2, 63, 7, 4]);
    let mut right = CopyRing::new(left.iter().copied().collect::<Vec<i32>>());

    left.rotate_left(3);
    right.next();
    right.next();
    right.next();
    let mut it = right.take_mut(5);
    for l in left.iter() {
        let r = it.next().unwrap();
        assert_eq!(*l, r)
    }
}

#[test]
fn next_equals_prev() {
    let mut ring = CopyRing::new(vec![1, 5, 8, 12]);

    let next = ring.next().unwrap();
    let prev = ring.prev().unwrap();

    assert_eq!(next, prev)
}

#[test]
fn prev_equals_last_item_in_vec() {
    let left = [2, 4, 6, 8];
    let mut right = CopyRing::new(left.to_vec());

    assert_eq!(*left.last().unwrap(), right.prev().unwrap());
}

#[test]
fn first_cycle_equals_origin_iter() {
    let left = 0..100;
    let mut right = CopyRing::new(left.clone().collect::<Vec<i32>>());

    let mut it = right.take_mut(1000);
    for l in left {
        let r = it.next().unwrap();
        assert_eq!(l, r)
    }
}

#[test]
fn rotate_right_works() {
    let mut ring = CopyRing::new((0..8).collect::<Vec<i32>>());

    ring.rotate_right(3);
    assert_eq!(5, ring.index());

    ring.rotate_right(0);
    assert_eq!(5, ring.index());

    ring.rotate_right(ring.period());
    assert_eq!(5, ring.index());

    ring.rotate_right(2);
    assert_eq!(3, ring.index());
}

#[test]
fn single_item_loops_forever() {
    let mut ring = CopyRing::new(vec![3]);

    for _ in 0..1000 {
        assert_eq!(3, ring.next().unwrap());
    }
}

#[test]
fn zero_items_returns_none() {
    let mut ring: CopyRing<i32> = CopyRing::new(vec![]);

    assert!(ring.next().is_none())
}
