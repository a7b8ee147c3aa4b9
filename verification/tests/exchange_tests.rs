use std::collections::HashSet;

use obliquery::net::distribution_pending;
use obliquery::net::pending_sends;
use obliquery::net::ExchangeState;
use obliquery::rss3::RSS3_arithmetic;
use obliquery::share_storage::ShareStorage;

#[test]
fn pending_sends_lists_unacknowledged_others() {
    let shares = RSS3_arithmetic::share(12345);
    let mut done = HashSet::new();
    assert_eq!(pending_sends(0, &shares, &done), vec![(1, shares[1].shares), (2, shares[2].shares)]);
    assert_eq!(pending_sends(1, &shares, &done), vec![(0, shares[0].shares), (2, shares[2].shares)]);
    done.insert(2);
    assert_eq!(pending_sends(0, &shares, &done), vec![(1, shares[1].shares)]);
    done.insert(1);
    assert_eq!(pending_sends(0, &shares, &done), vec![]);
}

#[test]
fn distribution_stops_after_two_acks_and_only_party_zero_distributes() {
    let mut acked = HashSet::new();
    assert!(distribution_pending(0, &acked));
    assert!(!distribution_pending(1, &acked));
    acked.insert(1);
    assert!(distribution_pending(0, &acked));
    acked.insert(2);
    assert!(!distribution_pending(0, &acked));
}

#[test]
fn exchange_records_shares_and_acks() {
    let mut st = ExchangeState::new();
    let mut storage = ShareStorage::new();
    assert!(!st.finished());
    let ip = "127.0.0.1:5001".to_string();
    assert_eq!(st.on_message(&mut storage, 1, 0, &ip, 1, (7, 8)), Some(1));
    assert!(st.received_shares.contains(&1));
    assert_eq!(storage.get_share(1, 0, 1), Some((7, 8)));
    st.on_ack_delivered(&ip);
    assert!(st.sent_acks.contains(&0));
    assert_eq!(st.on_message(&mut storage, 1, 1, &"2".to_string(), 2, (0, 0)), None);
    assert!(st.sent_success.contains(&2));
    assert_eq!(st.on_message(&mut storage, 0, 0, &ip, 2, (9, 9)), None);
    assert_eq!(storage.get_share(1, 0, 2), None);
    assert_eq!(st.on_message(&mut storage, 1, 0, &"10".to_string(), 2, (9, 9)), Some(2));
    assert!(st.received_shares.contains(&12));
    st.on_share_delivered(1);
    assert!(st.finished());
}
