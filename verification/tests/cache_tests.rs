use daywidget::cache::{get_cache_path, is_fresh, CachedData, SnapshotCache};
use daywidget::calendar::Event;
use daywidget::tasks::Task;

fn event(id: &str) -> Event {
    Event {
        id: id.to_string(),
        title: "t".to_string(),
        date: "2024-06-10".to_string(),
        time: "09:00".to_string(),
        time_range: "09:00".to_string(),
        date_formatted: "Monday, 10. June".to_string(),
        color: "#000".to_string(),
        calendar: "c".to_string(),
        location: "".to_string(),
        description: "".to_string(),
        is_all_day: false,
    }
}

fn task(id: &str) -> Task {
    Task {
        id: id.to_string(),
        title: "do".to_string(),
        completed: false,
        tasklist_id: "L".to_string(),
    }
}

fn held() -> CachedData {
    CachedData { events: vec![event("old-e")], tasks: vec![task("old-t")] }
}

#[test]
fn fresh_cache_serves_an_empty_snapshot() {
    let cache = SnapshotCache::new(None);
    let data = cache.get_cached_data();
    assert!(data.events.is_empty());
    assert!(data.tasks.is_empty());
}

#[test]
fn loaded_snapshot_is_served() {
    let cache = SnapshotCache::new(Some(held()));
    let data = cache.get_cached_data();
    assert_eq!(data.events.len(), 1);
    assert_eq!(data.events[0].id, "old-e");
    assert_eq!(data.tasks[0].id, "old-t");
}

#[test]
fn failed_events_fetch_returns_the_prior_snapshot() {
    let cache = SnapshotCache::new(Some(held()));
    let got = cache.settle(Err("events down".to_string()), Ok(vec![task("new-t")])).unwrap();
    assert_eq!(got.events.len(), 1);
    assert_eq!(got.events[0].id, "old-e");
    assert_eq!(got.tasks.len(), 1);
    assert_eq!(got.tasks[0].id, "old-t");
    let still = cache.get_cached_data();
    assert_eq!(still.events[0].id, "old-e");
    assert_eq!(still.tasks[0].id, "old-t");
}

#[test]
fn failed_tasks_fetch_returns_the_prior_snapshot() {
    let cache = SnapshotCache::new(Some(held()));
    let got = cache.settle(Ok(vec![event("new-e")]), Err("tasks down".to_string())).unwrap();
    assert_eq!(got.events[0].id, "old-e");
    assert_eq!(cache.get_cached_data().events[0].id, "old-e");
}

#[test]
fn failure_without_a_snapshot_surfaces_the_error() {
    let cache = SnapshotCache::new(None);
    let got = cache.settle(Err("events down".to_string()), Err("tasks down".to_string()));
    assert_eq!(got.unwrap_err(), "events down");
    let got = cache.settle(Ok(Vec::new()), Err("tasks down".to_string()));
    assert_eq!(got.unwrap_err(), "tasks down");
    let got = cache.settle(Err("events down".to_string()), Ok(Vec::new()));
    assert_eq!(got.unwrap_err(), "events down");
    assert!(cache.cache.is_none());
    assert!(cache.get_cached_data().events.is_empty());
}

#[test]
fn successful_refresh_returns_the_new_snapshot_and_leaves_the_cache() {
    let cache = SnapshotCache::new(Some(held()));
    let got = cache.settle(Ok(vec![event("n1"), event("n2")]), Ok(Vec::new())).unwrap();
    assert_eq!(got.events.len(), 2);
    assert_eq!(got.events[1].id, "n2");
    assert!(got.tasks.is_empty());
    assert_eq!(cache.get_cached_data().events[0].id, "old-e");
}

#[test]
fn stored_snapshot_replaces_the_held_one() {
    let mut cache = SnapshotCache::new(Some(held()));
    let got = cache.settle(Ok(vec![event("n1"), event("n2")]), Ok(Vec::new())).unwrap();
    cache.commit(got, true);
    let now = cache.get_cached_data();
    assert_eq!(now.events.len(), 2);
    assert_eq!(now.events[0].id, "n1");
    assert!(now.tasks.is_empty());
}

#[test]
fn snapshot_that_was_not_stored_leaves_the_held_one() {
    let mut cache = SnapshotCache::new(Some(held()));
    let got = cache.settle(Ok(vec![event("n1")]), Ok(vec![task("n-t")])).unwrap();
    cache.commit(got, false);
    let now = cache.get_cached_data();
    assert_eq!(now.events.len(), 1);
    assert_eq!(now.events[0].id, "old-e");
    assert_eq!(now.tasks[0].id, "old-t");
    let mut empty = SnapshotCache::new(None);
    empty.commit(held(), false);
    assert!(empty.cache.is_none());
}

#[test]
fn freshness_of_a_refresh() {
    let ok_e: Result<Vec<Event>, String> = Ok(Vec::new());
    let ok_t: Result<Vec<Task>, String> = Ok(Vec::new());
    let bad_e: Result<Vec<Event>, String> = Err("e".to_string());
    let bad_t: Result<Vec<Task>, String> = Err("t".to_string());
    assert!(is_fresh(&ok_e, &ok_t));
    assert!(!is_fresh(&bad_e, &ok_t));
    assert!(!is_fresh(&ok_e, &bad_t));
    assert!(!is_fresh(&bad_e, &bad_t));
}

#[test]
fn cache_path_lies_in_the_base_directory() {
    assert_eq!(get_cache_path("/opt/widget"), "/opt/widget/cache.json");
    assert_eq!(get_cache_path(""), "cache.json");
}
