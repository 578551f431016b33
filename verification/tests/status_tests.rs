use ship_lib::status::{is_followed, subscribe_to_users, unsubscribe_from_users};
use ship_lib::voice::{clear_prefix_len, member_id, member_identity_bytes};

#[test]
fn subscribing_adds_each_new_user_once() {
    let mut list = vec![5, 7];
    subscribe_to_users(&mut list, &vec![7, 9, 9, -3, 5]);
    assert_eq!(list, vec![5, 7, 9, -3]);
}

#[test]
fn subscribing_to_nobody_changes_nothing() {
    let mut list = vec![1, 2, 3];
    subscribe_to_users(&mut list, &vec![]);
    assert_eq!(list, vec![1, 2, 3]);
}

#[test]
fn unsubscribing_keeps_the_others_in_order() {
    let mut list = vec![4, 8, 15, 16, 23, 42];
    unsubscribe_from_users(&mut list, &vec![15, 4, 99]);
    assert_eq!(list, vec![8, 16, 23, 42]);
}

#[test]
fn unsubscribing_from_everyone_empties_the_list() {
    let mut list = vec![1, 2];
    unsubscribe_from_users(&mut list, &vec![2, 1]);
    assert!(list.is_empty());
}

#[test]
fn followed_users_are_found() {
    let list = vec![10, -20, 30];
    assert!(is_followed(&list, -20));
    assert!(!is_followed(&list, 20));
    assert!(!is_followed(&vec![], 0));
}

#[test]
fn voice_identity_is_the_user_id_little_endian() {
    assert_eq!(member_identity_bytes(0x0102030405060708), vec![8, 7, 6, 5, 4, 3, 2, 1]);
    assert_eq!(member_identity_bytes(42), 42u64.to_le_bytes().to_vec());
    assert_eq!(member_id(&[8, 7, 6, 5, 4, 3, 2, 1]), Some(0x0102030405060708));
    assert_eq!(member_id(&member_identity_bytes(u64::MAX)), Some(u64::MAX));
}

#[test]
fn voice_identity_of_another_length_is_no_user() {
    assert_eq!(member_id(&[]), None);
    assert_eq!(member_id(&[1, 2, 3, 4, 5, 6, 7]), None);
    assert_eq!(member_id(&[1, 2, 3, 4, 5, 6, 7, 8, 9]), None);
}

#[test]
fn clear_prefix_is_the_head_only_for_longer_vp8_frames() {
    assert_eq!(clear_prefix_len(100, true, 10), 10);
    assert_eq!(clear_prefix_len(100, true, 4), 4);
    assert_eq!(clear_prefix_len(100, true, 1), 1);
    assert_eq!(clear_prefix_len(100, false, 10), 0);
    assert_eq!(clear_prefix_len(10, true, 10), 0);
    assert_eq!(clear_prefix_len(5, true, 10), 0);
    assert_eq!(clear_prefix_len(100, true, 0), 0);
    assert_eq!(clear_prefix_len(0, true, 1), 0);
}

#[test]
fn a_clock_reading_stands_for_its_seconds() {
    assert_eq!(ship_lib::support::clock::seconds_of(Some(1_700_000_000)), 1_700_000_000);
    assert_eq!(ship_lib::support::clock::seconds_of(Some(0)), 0);
    assert_eq!(ship_lib::support::clock::seconds_of(Some(u64::MAX)), u64::MAX);
    assert_eq!(ship_lib::support::clock::seconds_of(None), 0);
    // The clock of this machine is set after 2020.
    assert!(ship_lib::support::clock::now_secs() > 1_577_836_800);
}
