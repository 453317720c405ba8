use switchyard_route::config::{SessionFloor, Tier};
use switchyard_route::store::{
    SessionKey, SessionStore, SESSION_IDLE_TTL, SESSION_MAX_ENTRIES,
};

const TTL: u128 = 100;

fn key(text: &str) -> SessionKey {
    SessionKey { inner: text.to_owned() }
}

fn store(max_entries: usize) -> SessionStore {
    SessionStore::new(TTL, max_entries)
}

#[test]
fn the_store_stays_within_its_capacity() {
    let mut store = store(3);
    for i in 0..20_u128 {
        store.remember(&key(&format!("h:{i}")), Tier::Weak, i, SessionFloor::Enabled);
        assert!(store.len() <= 3);
    }
    assert_eq!(store.len(), 3);
}

#[test]
fn a_store_without_room_keeps_nothing() {
    let mut store = store(0);
    store.remember(&key("h:a"), Tier::Strong, 0, SessionFloor::Enabled);
    assert_eq!(store.len(), 0);
    assert_eq!(store.last_success(&key("h:a"), 0), None);
}

#[test]
fn lookups_add_no_entry() {
    let mut store = store(3);
    store.remember(&key("h:a"), Tier::Weak, 0, SessionFloor::Enabled);
    for i in 0..20_u128 {
        assert_eq!(store.last_success(&key(&format!("o:{i}")), 1), None);
    }
    assert_eq!(store.len(), 1);
}

#[test]
fn the_queue_stays_bounded() {
    let mut store = store(4);
    for i in 0..200_u128 {
        let name = format!("h:{}", i % 6);
        store.remember(&key(&name), Tier::Weak, i, SessionFloor::Enabled);
        store.last_success(&key("h:1"), i);
        assert!(store.recency_len() <= 2 * store.len());
    }
}

#[test]
fn the_least_recent_session_leaves_first() {
    let mut store = store(2);
    store.remember(&key("h:a"), Tier::Weak, 0, SessionFloor::Enabled);
    store.remember(&key("h:b"), Tier::Weak, 1, SessionFloor::Enabled);
    assert_eq!(store.last_success(&key("h:a"), 2), Some(Tier::Weak));
    store.remember(&key("h:c"), Tier::Strong, 3, SessionFloor::Enabled);
    assert_eq!(store.last_success(&key("h:b"), 4), None);
    assert_eq!(store.last_success(&key("h:a"), 4), Some(Tier::Weak));
    assert_eq!(store.last_success(&key("h:c"), 4), Some(Tier::Strong));
}

#[test]
fn the_idle_time_is_inclusive_and_a_hit_renews_it() {
    let mut store = store(4);
    store.remember(&key("h:a"), Tier::Strong, 0, SessionFloor::Enabled);
    assert_eq!(store.last_success(&key("h:a"), TTL), Some(Tier::Strong));
    assert_eq!(store.last_success(&key("h:a"), 2 * TTL), Some(Tier::Strong));
    assert_eq!(store.last_success(&key("h:a"), 3 * TTL + 1), None);
    assert_eq!(store.len(), 0);
}

#[test]
fn a_clock_that_steps_back_expires_nothing() {
    let mut store = store(4);
    store.remember(&key("h:a"), Tier::Weak, 1_000, SessionFloor::Enabled);
    assert_eq!(store.last_success(&key("h:a"), 0), Some(Tier::Weak));
}

#[test]
fn an_expired_floor_is_forgotten() {
    let mut store = store(4);
    store.remember(&key("h:a"), Tier::Strong, 0, SessionFloor::Enabled);
    store.remember(&key("h:a"), Tier::Weak, TTL + 1, SessionFloor::Enabled);
    assert_eq!(store.last_success(&key("h:a"), TTL + 1), Some(Tier::Weak));
}

#[test]
fn an_idle_floor_behind_a_later_node_lifts_nothing() {
    let mut store = SessionStore::new(10, 8);
    let (a, b) = (key("h:a"), key("h:b"));
    store.remember(&b, Tier::Weak, 10, SessionFloor::Enabled);
    store.remember(&a, Tier::Strong, 0, SessionFloor::Enabled);
    store.remember(&a, Tier::Weak, 15, SessionFloor::Enabled);
    assert_eq!(store.last_success(&a, 15), Some(Tier::Weak));
}

#[test]
fn a_live_floor_behind_a_later_node_lifts() {
    let mut store = SessionStore::new(10, 8);
    let (a, b) = (key("h:a"), key("h:b"));
    store.remember(&b, Tier::Weak, 10, SessionFloor::Enabled);
    store.remember(&a, Tier::Strong, 5, SessionFloor::Enabled);
    store.remember(&a, Tier::Weak, 15, SessionFloor::Enabled);
    assert_eq!(store.last_success(&a, 15), Some(Tier::Strong));
    store.remember(&a, Tier::Weak, 16, SessionFloor::Disabled);
    assert_eq!(store.last_success(&a, 16), Some(Tier::Weak));
}

#[test]
fn sessions_do_not_leak_into_each_other() {
    let mut store = store(4);
    store.remember(&key("h:a"), Tier::Strong, 0, SessionFloor::Enabled);
    store.remember(&key("h:b"), Tier::Weak, 1, SessionFloor::Enabled);
    assert_eq!(store.last_success(&key("h:a"), 2), Some(Tier::Strong));
    assert_eq!(store.last_success(&key("h:b"), 2), Some(Tier::Weak));
    assert_eq!(store.last_success(&key("h:c"), 2), None);
}

#[test]
fn strong_stays_strong_through_a_run_of_calls() {
    let mut store = store(4);
    store.remember(&key("h:a"), Tier::Strong, 0, SessionFloor::Enabled);
    for now in 1..50_u128 {
        store.remember(&key("h:a"), Tier::Weak, now, SessionFloor::Enabled);
        store.remember(&key("h:b"), Tier::Weak, now, SessionFloor::Enabled);
        assert_eq!(store.last_success(&key("h:a"), now), Some(Tier::Strong));
    }
}

#[test]
fn defaults_are_thirty_minutes_and_ten_thousand_sessions() {
    assert_eq!(SESSION_IDLE_TTL, std::time::Duration::from_secs(30 * 60).as_nanos());
    assert_eq!(SESSION_MAX_ENTRIES, 10_000);
    let mut store = SessionStore::with_defaults();
    store.remember(&key("h:a"), Tier::Weak, 0, SessionFloor::Enabled);
    assert_eq!(store.last_success(&key("h:a"), SESSION_IDLE_TTL), Some(Tier::Weak));
    assert_eq!(store.last_success(&key("h:a"), 2 * SESSION_IDLE_TTL + 1), None);
}

#[test]
fn a_second_sweep_changes_nothing_and_no_idle_entry_is_left() {
    let mut store = store(8);
    for (at, name) in ["h:a", "h:b", "h:c"].into_iter().enumerate() {
        store.remember(&key(name), Tier::Weak, 10 * at as u128, SessionFloor::Enabled);
    }
    store.sweep(TTL + 15);
    assert_eq!(store.len(), 1, "two of three sessions are idle");
    let nodes = store.recency_len();
    store.sweep(TTL + 15);
    assert_eq!((store.len(), store.recency_len()), (1, nodes));
    assert_eq!(store.last_success(&key("h:c"), TTL + 15), Some(Tier::Weak));
}
