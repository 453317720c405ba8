use std::time::{Duration, Instant};

use switchyard_route::config::{SessionFloor, Tier};
use switchyard_route::store::{SessionKey, SessionStore};

/// A monotonic clock in nanoseconds.
struct Clock {
    epoch: Instant,
}

impl Clock {
    fn start() -> Clock {
        Clock { epoch: Instant::now() }
    }

    fn at(&self, instant: Instant) -> u128 {
        instant.saturating_duration_since(self.epoch).as_nanos()
    }
}

fn secs(secs: u64) -> u128 {
    Duration::from_secs(secs).as_nanos()
}

fn key(text: &str) -> SessionKey {
    SessionKey { inner: text.to_owned() }
}

#[test]
fn remember_then_lookup_returns_tier() {
    let clock = Clock::start();
    let mut store = SessionStore::new(secs(60), 8);
    let demo = key("h:demo");
    let now = clock.at(Instant::now());
    store.remember(&demo, Tier::Strong, now, SessionFloor::Enabled);
    assert_eq!(store.last_success(&demo, now), Some(Tier::Strong));
}

#[test]
fn idle_ttl_expires_the_entry() {
    let clock = Clock::start();
    let mut store = SessionStore::new(secs(10), 8);
    let ttl = key("h:ttl");
    let start = Instant::now();
    store.remember(&ttl, Tier::Weak, clock.at(start), SessionFloor::Enabled);
    let later = start + Duration::from_secs(11);
    assert_eq!(store.last_success(&ttl, clock.at(later)), None, "idle TTL must miss");
}

#[test]
fn capacity_evicts_least_recent_key() {
    let clock = Clock::start();
    let mut store = SessionStore::new(secs(60), 2);
    let key_a = key("h:a");
    let key_b = key("h:b");
    let key_c = key("h:c");
    let now = clock.at(Instant::now());
    store.remember(&key_a, Tier::Weak, now, SessionFloor::Enabled);
    store.remember(&key_b, Tier::Weak, now, SessionFloor::Enabled);
    store.remember(&key_c, Tier::Strong, now, SessionFloor::Enabled);
    assert_eq!(store.last_success(&key_a, now), None, "oldest key must be evicted");
    assert_eq!(store.last_success(&key_b, now), Some(Tier::Weak));
    assert_eq!(store.last_success(&key_c, now), Some(Tier::Strong));
}

#[test]
fn lookup_refreshes_recency_before_capacity_eviction() {
    let clock = Clock::start();
    let mut store = SessionStore::new(secs(60), 2);
    let key_a = key("h:a");
    let key_b = key("h:b");
    let key_c = key("h:c");
    let now = clock.at(Instant::now());
    store.remember(&key_a, Tier::Strong, now, SessionFloor::Enabled);
    store.remember(&key_b, Tier::Weak, now, SessionFloor::Enabled);
    assert_eq!(store.last_success(&key_a, now), Some(Tier::Strong));
    store.remember(&key_c, Tier::Weak, now, SessionFloor::Enabled);
    assert_eq!(
        store.last_success(&key_a, now),
        Some(Tier::Strong),
        "touched key must survive a later insert"
    );
    assert_eq!(store.last_success(&key_b, now), None, "untouched LRU must be evicted");
}

#[test]
fn remember_upgrades_tier_from_weak_to_strong() {
    let clock = Clock::start();
    let mut store = SessionStore::new(secs(60), 1);
    let one = key("h:one");
    let now = clock.at(Instant::now());
    store.remember(&one, Tier::Weak, now, SessionFloor::Enabled);
    store.remember(&one, Tier::Strong, now, SessionFloor::Enabled);
    assert_eq!(store.last_success(&one, now), Some(Tier::Strong));
    assert_eq!(store.len(), 1, "overwrite must not add a second live entry");
}

#[test]
fn remember_does_not_downgrade_tier_from_strong_to_weak() {
    let clock = Clock::start();
    let mut store = SessionStore::new(secs(60), 8);
    let floor = key("h:floor");
    let now = clock.at(Instant::now());
    store.remember(&floor, Tier::Strong, now, SessionFloor::Enabled);
    store.remember(&floor, Tier::Weak, now, SessionFloor::Enabled);
    assert_eq!(
        store.last_success(&floor, now),
        Some(Tier::Strong),
        "floor semantics: Strong must not downgrade to Weak"
    );
}

#[test]
fn remember_replaces_tier_when_floor_disabled() {
    let clock = Clock::start();
    let mut store = SessionStore::new(secs(60), 8);
    let no_floor = key("h:no-floor");
    let now = clock.at(Instant::now());
    store.remember(&no_floor, Tier::Strong, now, SessionFloor::Disabled);
    store.remember(&no_floor, Tier::Weak, now, SessionFloor::Disabled);
    assert_eq!(
        store.last_success(&no_floor, now),
        Some(Tier::Weak),
        "disabled floor must store the latest live verdict"
    );
}

#[test]
fn recency_compacts_when_one_key_is_hit_repeatedly() {
    let clock = Clock::start();
    let mut store = SessionStore::new(secs(60), 8);
    let quiet = key("h:quiet");
    let hot = key("h:hot");
    let now = clock.at(Instant::now());
    store.remember(&quiet, Tier::Weak, now, SessionFloor::Enabled);
    store.remember(&hot, Tier::Strong, now, SessionFloor::Enabled);
    for _ in 0..40 {
        assert_eq!(store.last_success(&hot, now), Some(Tier::Strong));
    }
    assert!(
        store.recency_len() <= store.len().saturating_mul(2),
        "recency must stay bounded, got {}",
        store.recency_len()
    );
    assert_eq!(
        store.last_success(&quiet, now),
        Some(Tier::Weak),
        "idle key must survive compaction"
    );
}
