use clipygo_plugin_relay::clock::{now_secs, secs_at};
use clipygo_plugin_relay::token::{derive_routing_token, secs_until_rotation, TOKEN_PERIOD};
use hmac::Mac;
use std::time::{Duration, UNIX_EPOCH};

#[test]
fn routing_token_deterministic() {
    let pk = [0u8; 32];
    let t = 1_700_000_000u64;
    assert_eq!(derive_routing_token(&pk, t), derive_routing_token(&pk, t));
}

#[test]
fn routing_token_changes_each_period() {
    let pk = [0u8; 32];
    let t1 = 1_700_000_000u64;
    let t2 = t1 + TOKEN_PERIOD; // next period
    assert_ne!(derive_routing_token(&pk, t1), derive_routing_token(&pk, t2));
}

#[test]
fn routing_token_stable_within_period() {
    let pk = [0u8; 32];
    // Pick a timestamp well within a period (not near a boundary)
    let t = 1_700_000_200u64; // 200s into a 300s period
    assert_eq!(derive_routing_token(&pk, t), derive_routing_token(&pk, t + 50));
}

#[test]
fn routing_token_different_keys() {
    let t = 1_700_000_000u64;
    assert_ne!(derive_routing_token(&[0u8; 32], t), derive_routing_token(&[1u8; 32], t));
}

#[test]
fn routing_token_length() {
    assert_eq!(derive_routing_token(&[0u8; 32], 1_700_000_000).len(), 16);
}

#[test]
fn routing_token_cross_language_vector() {
    // Must match Python: derive_routing_token(bytes(range(32)), 1700000000)
    // HMAC-SHA256(key=pk, msg=period_index as u64 BE)[0..8].hex()
    let pk: Vec<u8> = (0u8..32).collect();
    let t = 1_700_000_000u64;
    let period_index = t / TOKEN_PERIOD;

    let mut mac = <hmac::Hmac<sha2::Sha256> as Mac>::new_from_slice(&pk).unwrap();
    mac.update(&period_index.to_be_bytes());
    let expected = hex::encode(&mac.finalize().into_bytes()[..8]);

    assert_eq!(derive_routing_token(&pk, t), expected);
}

#[test]
fn routing_token_exact_value() {
    let pk: Vec<u8> = (0u8..32).collect();
    assert_eq!(derive_routing_token(&pk, 1_700_000_000), "7ddb1aed2574fa6c");
}

#[test]
fn routing_token_takes_a_key_of_any_length() {
    assert_eq!(derive_routing_token(&[], 0).len(), 16);
    assert_eq!(derive_routing_token(&[9u8; 100], u64::MAX).len(), 16);
}

#[test]
fn rotation_comes_at_the_end_of_the_period() {
    assert_eq!(secs_until_rotation(0), 300);
    assert_eq!(secs_until_rotation(299), 1);
    assert_eq!(secs_until_rotation(300), 300);
    assert_eq!(secs_until_rotation(1_700_000_000), 100);
    let pk = [3u8; 32];
    let t = 1_700_000_000u64;
    let rotation = t + secs_until_rotation(t);
    assert_eq!(derive_routing_token(&pk, t), derive_routing_token(&pk, rotation - 1));
    assert_ne!(derive_routing_token(&pk, t), derive_routing_token(&pk, rotation));
}

#[test]
fn the_token_of_the_period_before_is_one_period_back() {
    let pk = [3u8; 32];
    let sent = 1_700_000_099u64;
    let read = 1_700_000_100u64;
    assert_eq!(derive_routing_token(&pk, read - TOKEN_PERIOD), derive_routing_token(&pk, sent));
}

#[test]
fn the_clock_goes_on() {
    let first = now_secs().unwrap();
    let second = now_secs().unwrap();
    assert!(first > 1_600_000_000);
    assert!(second >= first);
}

#[test]
fn whole_seconds_are_counted() {
    assert_eq!(secs_at(UNIX_EPOCH), Some(0));
    assert_eq!(secs_at(UNIX_EPOCH + Duration::from_millis(1_999)), Some(1));
    assert_eq!(secs_at(UNIX_EPOCH + Duration::from_secs(1_700_000_000)), Some(1_700_000_000));
    assert_eq!(secs_at(UNIX_EPOCH - Duration::from_nanos(100)), None);
}
