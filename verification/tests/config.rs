//! The configuration builder and the defaults a stream runs with.

use certain::{
    detected_workers, effective_batch, effective_position, effective_workers, StreamConfig,
};

#[test]
fn new_config_has_no_options_set() {
    let config = StreamConfig::new(String::from("https://log.example/"));
    assert_eq!(config.url, "https://log.example/");
    assert!(config.timeout.is_none());
    assert!(config.workers.is_none());
    assert!(config.index.is_none());
    assert!(config.batch.is_none());
}

#[test]
fn builder_sets_each_field() {
    let config = StreamConfig::new(String::from("https://log.example/"))
        .timeout(1500)
        .workers(4)
        .index(10)
        .batch(1);
    assert_eq!(config.timeout, Some(1500));
    assert_eq!(config.workers, Some(4));
    assert_eq!(config.index, Some(10));
    assert_eq!(config.batch, Some(1));
    assert_eq!(config.url, "https://log.example/");
}

#[test]
fn builder_keeps_other_fields() {
    let config = StreamConfig::new(String::from("u")).workers(2);
    let config = config.batch(30);
    assert_eq!(config.workers, Some(2));
    assert_eq!(config.batch, Some(30));
    assert!(config.timeout.is_none());
    assert!(config.index.is_none());
}

#[test]
fn effective_batch_defaults_and_floors() {
    assert_eq!(effective_batch(None), 1000);
    assert_eq!(effective_batch(Some(0)), 1);
    assert_eq!(effective_batch(Some(1)), 1);
    assert_eq!(effective_batch(Some(64)), 64);
}

#[test]
fn effective_workers_defaults_and_floors() {
    assert_eq!(effective_workers(None, 8), 8);
    assert_eq!(effective_workers(None, 0), 1);
    assert_eq!(effective_workers(Some(0), 8), 1);
    assert_eq!(effective_workers(Some(3), 8), 3);
}

#[test]
fn effective_position_clamps_to_tree_size() {
    assert_eq!(effective_position(None, 100), 100);
    assert_eq!(effective_position(Some(0), 100), 0);
    assert_eq!(effective_position(Some(42), 100), 42);
    assert_eq!(effective_position(Some(1000), 100), 100);
}

#[test]
fn detected_workers_is_at_least_one() {
    assert!(detected_workers() >= 1);
}
