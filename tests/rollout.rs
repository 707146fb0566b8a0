use appconfiguration::rollout::{bucket_of_hash, should_rollout};
use appconfiguration::{get_base_url, get_ws_url, random_value};

#[test]
fn buckets_of_known_tags() {
    assert_eq!(random_value("a1:f1"), 68);
    assert_eq!(random_value("a2:f1"), 29);
}

#[test]
fn bucket_is_stable_and_below_100() {
    for tag in ["", "a", "a1:f1", "user123:feature", "ünïcödé:x"] {
        let first = random_value(tag);
        assert_eq!(first, random_value(tag));
        assert!(first < 100);
    }
}

#[test]
fn bucket_of_hash_values() {
    assert_eq!(bucket_of_hash(0), 0);
    assert_eq!(bucket_of_hash(u32::MAX), 99);
    assert_eq!(bucket_of_hash(1 << 31), 50);
    assert_eq!(bucket_of_hash(42949673), 1);
    assert_eq!(bucket_of_hash(42949672), 0);
}

#[test]
fn should_rollout_cases() {
    for (entity, expected) in [("a1", false), ("a2", true)] {
        assert_eq!(should_rollout(100, entity, "f1"), Some(true));
        assert_eq!(should_rollout(0, entity, "f1"), Some(false));
        assert_eq!(should_rollout(50, entity, "f1"), Some(expected));
        // "f4" rolls out exactly inverted to "f1" for these two entities
        assert_eq!(should_rollout(50, entity, "f4"), Some(!expected));
    }
}

#[test]
fn service_urls() {
    assert_eq!(
        get_base_url("us-south", "abc"),
        "https://us-south.apprapp.cloud.ibm.com/apprapp/feature/v1/instances/abc/config"
    );
    assert_eq!(get_ws_url("eu-de"), "wss://eu-de.apprapp.cloud.ibm.com/apprapp/wsfeature");
}
