use std::collections::hash_map::DefaultHasher;
use std::hash::Hasher;
use pihole_sync::sync::config_sync::{needs_apply, record_applied, Category};
use pihole_sync::sync::util::{
    hash_config, hash_key, hash_value, is_pihole_update_running, teleporter_backup_hash,
    HashTracker, ProcessProbe, API_WRITE_THROTTLE_MS, FILE_WATCH_DEBOUNCE_MS,
};

#[test]
fn unknown_key_has_changed() {
    let tracker = HashTracker::new();
    assert!(tracker.has_changed("config:a", 1));
}

#[test]
fn same_hash_twice_in_a_row_has_not_changed() {
    let mut tracker = HashTracker::new();
    assert!(tracker.has_changed("config:a", 7));
    tracker.update("config:a", 7);
    assert!(!tracker.has_changed("config:a", 7));
    assert!(tracker.has_changed("config:a", 8));
}

#[test]
fn update_overwrites_and_leaves_other_keys() {
    let mut tracker = HashTracker::new();
    tracker.update("config:a", 1);
    tracker.update("groups:a", 2);
    tracker.update("config:a", 3);
    assert!(!tracker.has_changed("config:a", 3));
    assert!(tracker.has_changed("config:a", 1));
    assert!(!tracker.has_changed("groups:a", 2));
    assert!(tracker.has_changed("lists:a", 2));
}

#[test]
fn a_failed_apply_is_tried_again() {
    let mut tracker = HashTracker::new();
    assert!(needs_apply(&tracker, Category::Groups, "pi2", 5));
    // the apply fails: nothing is recorded
    assert!(needs_apply(&tracker, Category::Groups, "pi2", 5));
    record_applied(&mut tracker, Category::Groups, "pi2", 5);
    assert!(!needs_apply(&tracker, Category::Groups, "pi2", 5));
    assert!(needs_apply(&tracker, Category::Lists, "pi2", 5));
    assert!(needs_apply(&tracker, Category::Groups, "pi3", 5));
    assert!(tracker.has_changed("groups:pi3", 5));
    assert!(!tracker.has_changed("groups:pi2", 5));
}

#[test]
fn record_key_is_category_colon_host() {
    assert_eq!(hash_key("config", "10.0.0.2"), "config:10.0.0.2");
    assert_eq!(Category::Config.name(), "config");
    assert_eq!(Category::Groups.name(), "groups");
    assert_eq!(Category::Lists.name(), "lists");
}

#[test]
fn content_hash_is_the_default_hash_of_the_bytes() {
    let mut hasher = DefaultHasher::new();
    hasher.write(b"{\"a\":1}");
    let expected = hasher.finish();
    assert_eq!(teleporter_backup_hash(b"{\"a\":1}"), expected);
    assert_eq!(hash_value("{\"a\":1}"), expected);
    assert_eq!(hash_config("{\"a\":1}"), expected);
    assert_ne!(hash_value("{\"a\":2}"), expected);
}

#[test]
fn upgrade_is_seen_only_when_the_search_names_a_process() {
    assert!(is_pihole_update_running(&ProcessProbe::Ran { exit_code: Some(0), printed: true }));
    assert!(!is_pihole_update_running(&ProcessProbe::Ran { exit_code: Some(0), printed: false }));
    assert!(!is_pihole_update_running(&ProcessProbe::Ran { exit_code: Some(1), printed: false }));
    assert!(!is_pihole_update_running(&ProcessProbe::Ran { exit_code: Some(2), printed: true }));
    assert!(!is_pihole_update_running(&ProcessProbe::Ran { exit_code: None, printed: true }));
    assert!(!is_pihole_update_running(&ProcessProbe::NotRun));
}

#[test]
fn waits_have_their_lengths() {
    assert_eq!(FILE_WATCH_DEBOUNCE_MS, 750);
    assert_eq!(API_WRITE_THROTTLE_MS, 250);
}
