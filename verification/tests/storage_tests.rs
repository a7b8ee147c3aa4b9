use obliquery::net::reconstruct_stored_secret;
use obliquery::net::string2int;
use obliquery::rss3::RSS3_arithmetic;
use obliquery::share_storage::ShareStorage;

#[test]
fn storage_starts_empty() {
    let s = ShareStorage::new();
    assert_eq!(s.get_share(1, 0, 0), None);
    assert!(s.entries().is_empty());
}

#[test]
fn storage_reads_back_what_was_written() {
    let mut s = ShareStorage::new();
    s.store_share(1, 0, 2, (3, 4));
    assert_eq!(s.get_share(1, 0, 2), Some((3, 4)));
    assert_eq!(s.get_share(1, 0, 1), None);
    assert_eq!(s.get_share(0, 1, 2), None);
    assert_eq!(s.get_share(2, 0, 1), None);
    s.store_share(1, 0, 2, (5, 6));
    assert_eq!(s.get_share(1, 0, 2), Some((5, 6)));
}

#[test]
fn storage_keeps_slots_apart() {
    let mut s = ShareStorage::new();
    s.store_share(u32::MAX, u32::MAX, u32::MAX, (1, 1));
    s.store_share(0, 0, 0, (2, 2));
    s.store_share(1, 0, 0, (3, 3));
    s.store_share(0, 1, 0, (4, 4));
    s.store_share(0, 0, 1, (5, 5));
    assert_eq!(s.get_share(u32::MAX, u32::MAX, u32::MAX), Some((1, 1)));
    assert_eq!(s.get_share(0, 0, 0), Some((2, 2)));
    assert_eq!(s.get_share(1, 0, 0), Some((3, 3)));
    assert_eq!(s.get_share(0, 1, 0), Some((4, 4)));
    assert_eq!(s.get_share(0, 0, 1), Some((5, 5)));
    let mut e = s.entries();
    e.sort();
    assert_eq!(
        e,
        vec![
            ((0, 0, 0), (2, 2)),
            ((0, 0, 1), (5, 5)),
            ((0, 1, 0), (4, 4)),
            ((1, 0, 0), (3, 3)),
            ((u32::MAX, u32::MAX, u32::MAX), (1, 1)),
        ]
    );
}

#[test]
fn storage_clone_is_independent() {
    let mut s = ShareStorage::new();
    s.store_share(1, 0, 0, (7, 8));
    let c = s.clone();
    s.store_share(1, 0, 0, (9, 9));
    assert_eq!(c.get_share(1, 0, 0), Some((7, 8)));
}

#[test]
fn stored_secret_needs_both_parties() {
    let shares = RSS3_arithmetic::share(12345);
    let mut s = ShareStorage::new();
    assert_eq!(reconstruct_stored_secret(&s, 1, 0), None);
    s.store_share(1, 0, 0, shares[0].shares);
    assert_eq!(reconstruct_stored_secret(&s, 1, 0), None);
    s.store_share(1, 0, 1, shares[1].shares);
    assert_eq!(reconstruct_stored_secret(&s, 1, 0), Some(12345));
    assert_eq!(reconstruct_stored_secret(&s, 1, 1), None);
}

#[test]
fn string2int_parses_decimal() {
    assert_eq!(string2int("12".to_string()), 12);
    assert_eq!(string2int("-7".to_string()), -7);
    assert_eq!(string2int("+3".to_string()), 3);
    assert_eq!(string2int("007".to_string()), 7);
    assert_eq!(string2int("-2147483648".to_string()), i32::MIN);
    assert_eq!(string2int("2147483647".to_string()), i32::MAX);
}

#[test]
fn string2int_falls_back_to_zero() {
    assert_eq!(string2int("".to_string()), 0);
    assert_eq!(string2int("-".to_string()), 0);
    assert_eq!(string2int("127.0.0.1".to_string()), 0);
    assert_eq!(string2int(" 5".to_string()), 0);
    assert_eq!(string2int("2147483648".to_string()), 0);
    assert_eq!(string2int("1_000".to_string()), 0);
}

#[test]
fn storage_read_gives_most_recent_store_over_a_history() {
    let history: Vec<((u32, u32, u32), (u64, u64))> = vec![
        ((1, 0, 0), (1, 1)),
        ((1, 0, 1), (2, 2)),
        ((1, 0, 0), (3, 3)),
        ((2, 0, 0), (4, 4)),
        ((1, 0, 1), (5, 5)),
        ((1, 0, 0), (6, 6)),
    ];
    let mut s = ShareStorage::new();
    for (k, v) in &history {
        s.store_share(k.0, k.1, k.2, *v);
    }
    assert_eq!(s.get_share(1, 0, 0), Some((6, 6)));
    assert_eq!(s.get_share(1, 0, 1), Some((5, 5)));
    assert_eq!(s.get_share(2, 0, 0), Some((4, 4)));
    assert_eq!(s.get_share(2, 0, 1), None);
}

#[test]
fn storage_debug_shows_slots() {
    let mut s = ShareStorage::new();
    s.store_share(1, 0, 2, (3, 4));
    assert_eq!(format!("{:?}", s), "ShareStorage { shares: {(1, 0, 2): (3, 4)} }");
}
