use bc7_unorm::partition::{
    fixup_anchors, partition_assignment, FIXUP_TABLE, PARTITION_TABLE_2, PARTITION_TABLE_3,
};

#[test]
fn three_subsets_take_the_three_subset_table() {
    assert_eq!(partition_assignment(0, 3), [0, 0, 1, 1, 0, 0, 1, 1, 0, 2, 2, 1, 2, 2, 2, 2]);
    assert_eq!(partition_assignment(38, 3), [0, 1, 2, 0, 2, 0, 1, 2, 1, 2, 0, 1, 0, 1, 2, 0]);
    assert_eq!(partition_assignment(63, 3), [0, 1, 1, 1, 2, 0, 1, 1, 2, 2, 0, 1, 2, 2, 2, 0]);
}

#[test]
fn other_subset_counts_take_the_two_subset_table() {
    assert_eq!(partition_assignment(0, 2), [0, 0, 1, 1, 0, 0, 1, 1, 0, 0, 1, 1, 0, 0, 1, 1]);
    assert_eq!(partition_assignment(17, 2), [0, 1, 1, 1, 0, 0, 0, 1, 0, 0, 0, 0, 0, 0, 0, 0]);
    assert_eq!(partition_assignment(63, 2), [0, 1, 0, 0, 0, 1, 0, 0, 0, 1, 1, 1, 0, 1, 1, 1]);
    assert_eq!(partition_assignment(63, 1), partition_assignment(63, 2));
}

#[test]
fn anchors_are_the_same_for_every_subset_count() {
    assert_eq!(fixup_anchors(0), [0, 3, 15]);
    assert_eq!(fixup_anchors(2), [0, 15, 8]);
    assert_eq!(fixup_anchors(38), [0, 8, 9]);
    assert_eq!(fixup_anchors(59), [0, 13, 15]);
    assert_eq!(fixup_anchors(63), [0, 3, 8]);
}

#[test]
fn every_row_is_looked_up_whole() {
    for selector in 0..64usize {
        assert_eq!(partition_assignment(selector, 3), PARTITION_TABLE_3[selector]);
        assert_eq!(partition_assignment(selector, 2), PARTITION_TABLE_2[selector]);
        assert_eq!(fixup_anchors(selector), FIXUP_TABLE[selector]);
    }
}

#[test]
fn subsets_and_anchors_are_in_range() {
    for selector in 0..64usize {
        assert!(partition_assignment(selector, 3).iter().all(|&s| s < 3));
        assert!(partition_assignment(selector, 2).iter().all(|&s| s < 2));
        let anchors = fixup_anchors(selector);
        assert_eq!(anchors[0], 0);
        assert!(0 < anchors[1] && anchors[1] < 16);
        assert!(0 < anchors[2] && anchors[2] < 16);
        assert_ne!(anchors[1], anchors[2]);
    }
}

#[test]
fn three_subset_anchors_lie_in_their_subsets() {
    for selector in 0..64usize {
        let row = partition_assignment(selector, 3);
        let anchors = fixup_anchors(selector);
        assert_eq!(row[anchors[0]], 0);
        assert_eq!(row[anchors[1]], 1);
        assert_eq!(row[anchors[2]], 2);
    }
}
