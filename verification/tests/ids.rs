use web3_transports::api::SubscriptionId;
use web3_transports::ids::RequestIds;
use web3_transports::subscriptions::Subscriptions;
use web3_transports::text::{decimal, join};

#[test]
fn ids_count_up() {
    let mut ids = RequestIds::starting_at(1);
    assert_eq!(ids.next_id(), 1);
    assert_eq!(ids.next_id(), 2);
    assert_eq!(ids.next_id(), 3);
}

#[test]
fn ids_start_again_behind_the_largest() {
    let mut ids = RequestIds::starting_at(usize::MAX);
    assert_eq!(ids.next_id(), usize::MAX);
    assert_eq!(ids.next_id(), 0);
}

#[test]
fn numbers_are_written_in_decimal() {
    assert_eq!(decimal(0), "0");
    assert_eq!(decimal(10), "10");
    assert_eq!(decimal(18446744073709551615), "18446744073709551615");
    assert_eq!(join("a", "b"), "ab");
}

#[test]
fn subscriptions_are_kept_by_their_id() {
    let mut all: Subscriptions<u32> = Subscriptions::new();
    let heads = SubscriptionId::from("newHeads");
    let logs = SubscriptionId::from("logs".to_string());
    assert_eq!(all.get(&heads), None);
    assert_eq!(all.insert(heads.clone(), 1), None);
    assert_eq!(all.insert(logs.clone(), 2), None);
    assert_eq!(all.insert(heads.clone(), 3), Some(1));
    assert_eq!(all.get(&heads), Some(&3));
    assert_eq!(all.get(&logs), Some(&2));
    assert_eq!(all.remove(&heads), Some(3));
    assert_eq!(all.remove(&heads), None);
    assert_eq!(all.get(&logs), Some(&2));
    assert_eq!(logs.as_str(), "logs");
    assert!(!logs.same(&heads));
}
