use unica_sport_bot::replies::amisub_reply;
use unica_sport_bot::subs::{events_file, file_path, sub_file, Registry};

#[test]
fn subscribe_twice_keeps_one_id() {
    let mut r = Registry::new();
    assert!(r.add_sub(42));
    assert!(!r.add_sub(42));
    assert_eq!(r.snapshot(), vec![42]);
}

#[test]
fn unsubscribe_non_member_is_a_no_op() {
    let mut r = Registry::from_ids(vec![1, 2]);
    assert!(!r.remove_sub(3));
    assert_eq!(r.snapshot(), vec![1, 2]);
    assert!(r.remove_sub(1));
    assert_eq!(r.snapshot(), vec![2]);
    assert!(!r.is_subscribed(1));
    assert!(r.is_subscribed(2));
}

#[test]
fn from_ids_drops_duplicates() {
    let r = Registry::from_ids(vec![5, -3, 5, 8, -3]);
    assert_eq!(r.snapshot(), vec![5, -3, 8]);
}

#[test]
fn subscription_status_reply() {
    let r = Registry::from_ids(vec![10]);
    assert_eq!(amisub_reply(&r, 10), "You are currently subscribed.");
    assert_eq!(amisub_reply(&r, 11), "You are not subscribed.");
}

#[test]
fn data_file_paths() {
    assert_eq!(file_path("/data", "x.json"), "/data/x.json");
    assert_eq!(sub_file("."), "./subs.json");
    assert_eq!(events_file("dir"), "dir/events.json");
}
