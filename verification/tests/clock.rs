use radish::clock::{calc_expiration, get_timestamp};

#[test]
fn expiration_is_now_plus_ttl() {
    assert_eq!(calc_expiration(1_000, 500), 1_500);
    assert_eq!(calc_expiration(0, 0), 0);
    assert_eq!(calc_expiration(u128::MAX - 1, 1), u128::MAX);
}

#[test]
fn timestamp_is_after_a_known_past_instant() {
    // 2020-01-01T00:00:00Z in milliseconds since the epoch
    let t = get_timestamp();
    assert!(t > 1_577_836_800_000);
    assert!(get_timestamp() >= t);
}
