use softbody::pairs::{collision_pairs, pair_mut, PairError};

#[test]
fn collision_pairs_of_four() {
    assert_eq!(
        collision_pairs(4),
        vec![(0, 1), (0, 2), (0, 3), (1, 2), (1, 3), (2, 3)]
    );
}

#[test]
fn collision_pairs_small_counts() {
    assert!(collision_pairs(0).is_empty());
    assert!(collision_pairs(1).is_empty());
    assert_eq!(collision_pairs(2), vec![(0, 1)]);
    assert_eq!(collision_pairs(10).len(), 45);
}

#[test]
fn pair_mut_writes_both() {
    let mut v = vec![10, 20, 30];
    {
        let (a, b) = pair_mut(&mut v, 2, 0).unwrap();
        assert_eq!((*a, *b), (30, 10));
        *a += 1;
        *b -= 1;
    }
    assert_eq!(v, vec![9, 20, 31]);
}

#[test]
fn pair_mut_same_index() {
    let mut v = vec![1, 2, 3];
    assert_eq!(pair_mut(&mut v, 1, 1).err(), Some(PairError::SameIndex));
    assert_eq!(v, vec![1, 2, 3]);
}

#[test]
fn pair_mut_out_of_range() {
    let mut v = vec![1, 2, 3];
    assert_eq!(pair_mut(&mut v, 0, 3).err(), Some(PairError::OutOfRange));
    assert_eq!(pair_mut(&mut v, 5, 5).err(), Some(PairError::OutOfRange));
}
