use feather::tab_store::TabStore;
use feather::tabs::{Tab, TabState};
use std::time::{Duration, Instant};

#[test]
fn test_open_close() {
    let mut store = TabStore::new();
    let id = store.open("https://google.com");
    assert_eq!(store.get_all().len(), 1);
    store.close(id);
    assert_eq!(store.get_all().len(), 0);
}

#[test]
fn test_active_state() {
    let mut store = TabStore::new();
    let id1 = store.open("https://google.com");
    let id2 = store.open("https://github.com");

    store.set_active(id1);
    assert_eq!(store.active_id(), id1);

    store.set_active(id2);
    assert_eq!(store.active_id(), id2);

    // id1 should now be in background
    let tabs = store.get_all();
    let tab1 = tabs.iter().find(|t| t.id == id1).unwrap();
    assert_eq!(tab1.state, TabState::Background);
}

#[test]
fn test_hibernation_eligibility() {
    let mut store = TabStore::new();
    let id = store.open("https://google.com");

    // New tab, not hibernatable
    let tabs = store.get_all();
    let tab = tabs.iter().find(|t| t.id == id).unwrap();
    assert!(!tab.should_hibernate(300));

    // Set to background
    store.set_state(id, TabState::Background);

    // Background but just became background, not idle enough
    let tabs = store.get_all();
    let tab = tabs.iter().find(|t| t.id == id).unwrap();
    assert!(!tab.should_hibernate(300)); // 300s not elapsed

    // Would hibernate immediately with 0 threshold
    assert!(tab.should_hibernate(0));
}

#[test]
fn test_memory_total() {
    let mut store = TabStore::new();
    let id1 = store.open("https://google.com");
    let id2 = store.open("https://github.com");

    store.set_memory_kb(id1, 60_000); // 60MB
    store.set_memory_kb(id2, 80_000); // 80MB

    assert_eq!(store.total_memory_kb(), 140_000); // 140MB total
}

#[test]
fn new_store_is_empty() {
    let store = TabStore::new();
    assert_eq!(store.active_id(), 0);
    assert_eq!(store.next_id(), 1);
    assert!(store.get_all().is_empty());
    assert_eq!(store.total_memory_kb(), 0);
    assert_eq!(store.active_count(), 0);
}

#[test]
fn ids_are_fresh_and_increasing() {
    let mut store = TabStore::new();
    let a = store.open("a");
    let b = store.open("b");
    store.close(a);
    let c = store.open("c");
    assert_eq!((a, b, c), (1, 2, 3));
    let ids: Vec<u32> = store.get_all().iter().map(|t| t.id).collect();
    assert_eq!(ids, vec![2, 3]);
}

#[test]
fn new_tab_fields() {
    let t = Tab::new(7, "https://example.com");
    assert_eq!(t.id, 7);
    assert_eq!(t.url, "https://example.com");
    assert_eq!(t.title, "New Tab");
    assert_eq!(t.state, TabState::New);
    assert_eq!(t.memory_kb, 0);
}

#[test]
fn get_all_is_sorted_snapshot() {
    let mut store = TabStore::new();
    for u in ["a", "b", "c", "d"] {
        store.open(u);
    }
    store.close(2);
    store.set_title(3, "Three");
    store.set_url(4, "https://four");
    let tabs = store.get_all();
    let ids: Vec<u32> = tabs.iter().map(|t| t.id).collect();
    assert_eq!(ids, vec![1, 3, 4]);
    assert_eq!(tabs[1].title, "Three");
    assert_eq!(tabs[2].url, "https://four");
    assert_eq!(tabs[0].url, "a");
}

#[test]
fn updates_on_missing_tab_change_nothing() {
    let mut store = TabStore::new();
    let id = store.open("x");
    store.set_title(99, "t");
    store.set_url(99, "u");
    store.set_state(99, TabState::Crashed);
    store.set_memory_kb(99, 5);
    store.close(99);
    let tabs = store.get_all();
    assert_eq!(tabs.len(), 1);
    assert_eq!(tabs[0].id, id);
    assert_eq!(tabs[0].title, "New Tab");
    assert_eq!(tabs[0].state, TabState::New);
    assert_eq!(store.total_memory_kb(), 0);
}

#[test]
fn set_active_on_missing_tab_still_records_it() {
    let mut store = TabStore::new();
    let a = store.open("a");
    store.set_active(a);
    store.set_active(42);
    assert_eq!(store.active_id(), 42);
    assert_eq!(store.get_all()[0].state, TabState::Background);
}

#[test]
fn set_active_leaves_non_active_previous_tab_alone() {
    let mut store = TabStore::new();
    let a = store.open("a");
    let b = store.open("b");
    store.set_active(a);
    store.set_state(a, TabState::Loading);
    store.set_active(b);
    let tabs = store.get_all();
    assert_eq!(tabs[0].state, TabState::Loading);
    assert_eq!(tabs[1].state, TabState::Active);
}

#[test]
fn reactivating_same_tab_keeps_it_active() {
    let mut store = TabStore::new();
    let a = store.open("a");
    store.set_active(a);
    store.set_active(a);
    assert_eq!(store.get_all()[0].state, TabState::Active);
}

#[test]
fn closing_frees_memory() {
    let mut store = TabStore::new();
    let a = store.open("a");
    let b = store.open("b");
    store.set_memory_kb(a, 10);
    store.set_memory_kb(b, 32);
    store.close(a);
    assert_eq!(store.total_memory_kb(), 32);
}

#[test]
fn active_count_counts_tabs_not_hibernated() {
    let mut store = TabStore::new();
    let ids: Vec<u32> = (0..6).map(|_| store.open("x")).collect();
    store.set_state(ids[0], TabState::Loading);
    store.set_state(ids[1], TabState::Active);
    store.set_state(ids[2], TabState::Background);
    store.set_state(ids[3], TabState::Hibernated);
    store.set_state(ids[4], TabState::Crashed);
    // ids[5] stays New
    assert_eq!(store.active_count(), 5);
    assert!(store.active_count() <= store.get_all().len());
}

#[test]
fn a_new_tab_is_alive() {
    let mut store = TabStore::new();
    store.open("x");
    assert_eq!(store.active_count(), 1);
}

#[test]
fn hibernatable_tabs_with_zero_threshold_are_background_tabs() {
    let mut store = TabStore::new();
    let a = store.open("a");
    let b = store.open("b");
    let c = store.open("c");
    store.set_state(a, TabState::Background);
    store.set_state(c, TabState::Background);
    store.set_state(b, TabState::Active);
    let ids: Vec<u32> = store.hibernatable_tabs(0).iter().map(|t| t.id).collect();
    assert_eq!(ids, vec![a, c]);
    assert!(store.hibernatable_tabs(3600).is_empty());
}

#[test]
fn tab_state_predicates() {
    for s in [
        TabState::New,
        TabState::Loading,
        TabState::Active,
        TabState::Background,
        TabState::Hibernated,
        TabState::Crashed,
    ] {
        assert_eq!(s.is_hibernatable(), s == TabState::Background);
        assert_eq!(s.has_renderer(), matches!(s, TabState::Loading | TabState::Active | TabState::Background));
        if s.is_hibernatable() {
            assert!(s.has_renderer());
        }
    }
}

#[test]
fn should_hibernate_after_given_idle_time() {
    let mut t = Tab::new(1, "x");
    assert!(!t.should_hibernate_after(1000, 300));
    t.state = TabState::Background;
    assert!(t.should_hibernate_after(300, 300));
    assert!(!t.should_hibernate_after(299, 300));
    assert!(t.idle_secs() < 60);
}

#[test]
fn set_active_never_leaves_two_tabs_active() {
    let mut store = TabStore::new();
    let ids: Vec<u32> = (0..4).map(|_| store.open("x")).collect();
    for &id in ids.iter().chain([3, 1, 4, 4, 2].iter()) {
        store.set_active(id);
        let active: Vec<u32> = store
            .get_all()
            .iter()
            .filter(|t| t.state == TabState::Active)
            .map(|t| t.id)
            .collect();
        assert_eq!(active, vec![id]);
    }
}

#[test]
fn close_after_open_restores_listing() {
    let mut store = TabStore::new();
    store.open("a");
    store.set_memory_kb(1, 7);
    let before: Vec<(u32, String, u64)> =
        store.get_all().iter().map(|t| (t.id, t.url.clone(), t.memory_kb)).collect();
    let id = store.open("b");
    assert_eq!(store.get_all().last().unwrap().id, id);
    store.close(id);
    let after: Vec<(u32, String, u64)> =
        store.get_all().iter().map(|t| (t.id, t.url.clone(), t.memory_kb)).collect();
    assert_eq!(before, after);
}

#[test]
fn new_at_records_the_given_instant() {
    let now = Instant::now();
    let t = Tab::new_at(3, "u", now);
    assert_eq!(t.last_active, now);
    assert_eq!((t.id, t.url.as_str(), t.title.as_str()), (3, "u", "New Tab"));
    assert_eq!((t.state, t.memory_kb), (TabState::New, 0));
}

#[test]
fn snapshots_copy_last_active_and_updates_keep_it() {
    let mut store = TabStore::new();
    let a = store.open("a");
    let b = store.open("b");
    let first = store.get_all();
    let second = store.get_all();
    assert_eq!(first[0].last_active, second[0].last_active);
    assert_eq!(first[1].last_active, second[1].last_active);
    store.set_title(a, "t");
    store.set_url(a, "u");
    store.set_state(a, TabState::Loading);
    store.set_memory_kb(a, 9);
    store.close(b);
    let after = store.get_all();
    assert_eq!(after[0].last_active, first[0].last_active);
}

#[test]
fn set_active_refreshes_only_the_activated_tab() {
    let mut store = TabStore::new();
    let a = store.open("a");
    let b = store.open("b");
    let before = store.get_all();
    store.set_active(b);
    let after = store.get_all();
    assert_eq!(after[0].last_active, before[0].last_active);
    assert!(after[1].last_active >= before[1].last_active);
    assert_eq!(after[1].state, TabState::Active);
    assert_eq!(a, after[0].id);
}

#[test]
fn hibernatable_tabs_given_filters_by_idle_time() {
    let mut store = TabStore::new();
    let a = store.open("a");
    let b = store.open("b");
    let c = store.open("c");
    store.set_state(a, TabState::Background);
    store.set_state(b, TabState::Background);
    store.set_state(c, TabState::Active);
    let idle = vec![400, 100, 1000];
    let ids: Vec<u32> =
        store.hibernatable_tabs_given(&idle, 300).iter().map(|t| t.id).collect();
    assert_eq!(ids, vec![a]);
    let ids: Vec<u32> =
        store.hibernatable_tabs_given(&idle, 100).iter().map(|t| t.id).collect();
    assert_eq!(ids, vec![a, b]);
    assert!(store.hibernatable_tabs_given(&idle, 401).is_empty());
}

#[test]
fn second_close_changes_nothing() {
    let mut store = TabStore::new();
    let a = store.open("a");
    store.open("b");
    store.close(a);
    let ids: Vec<u32> = store.get_all().iter().map(|t| t.id).collect();
    store.close(a);
    let again: Vec<u32> = store.get_all().iter().map(|t| t.id).collect();
    assert_eq!(ids, again);
}

#[test]
fn idle_secs_at_counts_whole_seconds_since_last_active() {
    let base = Instant::now();
    let t = Tab::new_at(1, "x", base);
    assert_eq!(t.idle_secs_at(base), 0);
    assert_eq!(t.idle_secs_at(base + Duration::from_millis(5_900)), 5);
    assert_eq!(t.idle_secs_at(base + Duration::from_secs(300)), 300);
    let later = Tab::new_at(2, "y", base + Duration::from_secs(10));
    assert_eq!(later.idle_secs_at(base), 0);
}

#[test]
fn idle_secs_of_a_fresh_tab_is_small() {
    let t = Tab::new(1, "x");
    assert!(t.idle_secs() < 60);
}
