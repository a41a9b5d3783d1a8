use merge_executor::partition::{combine_partition_ids_aux, combine_two_hashes};

#[test]
fn test_combine_partition_ids_singleton_unchanged() {
    assert_eq!(combine_partition_ids_aux(&[17]), 17);
}

#[test]
fn test_combine_partition_ids_zero_has_an_impact() {
    assert_ne!(
        combine_partition_ids_aux(&[12u64, 0u64]),
        combine_partition_ids_aux(&[12u64])
    );
}

#[test]
fn test_combine_partition_ids_depends_on_partition_id_set() {
    assert_eq!(
        combine_partition_ids_aux(&[12, 16, 12, 13]),
        combine_partition_ids_aux(&[12, 16, 13])
    );
}

#[test]
fn test_combine_partition_ids_order_does_not_matter() {
    assert_eq!(
        combine_partition_ids_aux(&[7, 12, 13]),
        combine_partition_ids_aux(&[12, 13, 7])
    );
}

#[test]
fn no_partition_ids_give_zero() {
    assert_eq!(combine_partition_ids_aux(&[]), 0);
}

#[test]
fn combined_partition_ids_have_known_values() {
    assert_eq!(combine_partition_ids_aux(&[13, 7, 12]), 175247672167);
    assert_eq!(combine_partition_ids_aux(&[12, 16, 12, 13]), 175247718143);
    assert_eq!(combine_partition_ids_aux(&[12, 0]), 2654435781);
    assert_eq!(
        combine_partition_ids_aux(&[u64::MAX, u64::MAX - 1, 0]),
        175247768658
    );
}

#[test]
fn two_hashes_combine_with_wrapping() {
    assert_eq!(combine_two_hashes(1, 2), 2654435834);
    assert_eq!(combine_two_hashes(u64::MAX, u64::MAX), 13835058052627728008);
    assert_eq!(combine_two_hashes(0, 12), 12 + 0x9e3779b9);
}

#[test]
fn partition_ids_are_hashed_from_the_smallest_to_the_largest() {
    assert_eq!(
        combine_partition_ids_aux(&[13, 7, 12, 7, 13]),
        combine_two_hashes(combine_two_hashes(7, 12), 13)
    );
}
