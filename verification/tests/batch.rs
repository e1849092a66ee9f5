use verusid_core::batch::{count_groups, group_length, GROUP_PAUSE_MILLIS, GROUP_SIZE};

#[test]
fn groups_hold_five_and_pause_a_tenth_of_a_second() {
    assert_eq!(GROUP_SIZE, 5);
    assert_eq!(GROUP_PAUSE_MILLIS, 100);
}

#[test]
fn counts_the_groups_by_rounding_up() {
    let expected = [0usize, 1, 1, 1, 1, 1, 2, 2, 2, 2, 2, 3];
    for (n, groups) in expected.iter().enumerate() {
        assert_eq!(count_groups(n), *groups, "{} candidates", n);
    }
    assert_eq!(count_groups(7), 2);
    assert_eq!(count_groups(100), 20);
    assert_eq!(count_groups(101), 21);
    assert_eq!(count_groups(usize::MAX), usize::MAX / 5);
    assert_eq!(count_groups(usize::MAX - 1), usize::MAX / 5);
    assert_eq!(count_groups(usize::MAX - 5), usize::MAX / 5 - 1);
}

#[test]
fn the_last_group_holds_what_is_left() {
    assert_eq!(group_length(7, 0), 5);
    assert_eq!(group_length(7, 5), 2);
    assert_eq!(group_length(7, 7), 0);
    assert_eq!(group_length(10, 5), 5);
    assert_eq!(group_length(3, 0), 3);
    assert_eq!(group_length(0, 0), 0);
    assert_eq!(group_length(usize::MAX, 0), 5);
    assert_eq!(group_length(7, 8), 0);
    assert_eq!(group_length(0, usize::MAX), 0);
}
