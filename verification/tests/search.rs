use literate::search::bin_search;

#[test]
fn test_present() {
    // i32
    assert_eq!(Some(0), bin_search(&0_i32, &[0, 1, 2, 4, 8, 16]));
    assert_eq!(Some(1), bin_search(&1_i32, &[0, 1, 2, 4, 8, 16]));
    assert_eq!(Some(2), bin_search(&2_i32, &[0, 1, 2, 4, 8, 16]));
    assert_eq!(Some(3), bin_search(&4_i32, &[0, 1, 2, 4, 8, 16]));
    assert_eq!(Some(4), bin_search(&8_i32, &[0, 1, 2, 4, 8, 16]));
    assert_eq!(Some(5), bin_search(&16_i32, &[0, 1, 2, 4, 8, 16]));

    // char
    assert_eq!(Some(0), bin_search(&'a', &['a', 'b', 'c']));
    assert_eq!(Some(1), bin_search(&'b', &['a', 'b', 'c']));
    assert_eq!(Some(2), bin_search(&'c', &['a', 'b', 'c']));

    // vector
    assert_eq!(Some(0), bin_search(&0.0, &vec![0.0, 1.0, 2.0]));
    assert_eq!(Some(1), bin_search(&1.0, &vec![0.0, 1.0, 2.0]));
    assert_eq!(Some(2), bin_search(&2.0, &vec![0.0, 1.0, 2.0]));
}

#[test]
fn test_absent() {
    assert_eq!(None, bin_search(&0, &[]));
    assert_eq!(None, bin_search(&0, &[1]));
    assert_eq!(None, bin_search(&2, &[1]));
    assert_eq!(None, bin_search(&0, &[1, 3]));
    assert_eq!(None, bin_search(&2, &[1, 3]));
    assert_eq!(None, bin_search(&5, &[1, 3]));

    assert_eq!(None, bin_search(&3.14, &[]));
    assert_eq!(None, bin_search(&3.14, &[0.0, 1.0, 3.0]));
}

#[test]
fn test_present_every_index() {
    // Searching for each element of a sorted sequence finds an index whose
    // element equals the target.
    let collection: [u64; 7] = [2, 3, 5, 7, 11, 13, 17];
    for i in 0..collection.len() {
        let r = bin_search(&collection[i], &collection);
        assert!(r.is_some());
        assert_eq!(collection[r.unwrap()], collection[i]);
    }
}

#[test]
fn test_present_duplicates() {
    // With duplicates of the target, some matching index is returned; which
    // one is unspecified, but the element there must equal the target.
    let collection: [i32; 5] = [1, 2, 2, 2, 3];
    let r = bin_search(&2, &collection);
    assert!(r.is_some());
    assert_eq!(collection[r.unwrap()], 2);
}

#[test]
fn test_singleton() {
    assert_eq!(Some(0), bin_search(&7_i32, &[7]));
    assert_eq!(None, bin_search(&6_i32, &[7]));
    assert_eq!(None, bin_search(&8_i32, &[7]));
}

#[test]
fn test_empty() {
    assert_eq!(None, bin_search(&'x', &[]));
    assert_eq!(None, bin_search(&0_u8, &[]));
}
