use chirp::model::JobState;
use chirp::store::{MemoryStorage, StoreError};

fn payload(n: usize) -> String {
    format!("{{\"value\": {}}}", n)
}

#[test]
fn stats_counts_sum_to_the_number_of_jobs() {
    let mut store = MemoryStorage::new("orders".to_string());
    // five jobs driven into known states: 2 pending, 1 running, 1 success,
    // 1 failed
    for n in 0..5 {
        store.push(payload(n));
    }
    let a = store.pull_next().unwrap();
    let b = store.pull_next().unwrap();
    let c = store.pull_next().unwrap();
    store.complete(a, JobState::Success).unwrap();
    store.complete(b, JobState::Failed).unwrap();
    let stats = store.stats();
    assert_eq!(stats.pending, 2);
    assert_eq!(stats.running, 1);
    assert_eq!(stats.success, 1);
    assert_eq!(stats.failed, 1);
    assert_eq!(stats.dead, 0);
    assert_eq!(stats.total(), 5);
    let _ = c;
}

#[test]
fn stats_of_an_empty_store_are_all_zero() {
    let store = MemoryStorage::new("empty".to_string());
    let stats = store.stats();
    assert_eq!(stats.total(), 0);
}

#[test]
fn listing_a_page_twice_returns_identical_results() {
    let mut store = MemoryStorage::new("orders".to_string());
    for n in 0..25 {
        store.push(payload(n));
    }
    let first = store.list_jobs(JobState::Pending, 2);
    let second = store.list_jobs(JobState::Pending, 2);
    assert_eq!(first.len(), 10);
    assert_eq!(first.len(), second.len());
    for (x, y) in first.iter().zip(second.iter()) {
        assert_eq!(x.identifier, y.identifier);
        assert_eq!(x.payload, y.payload);
    }
}

#[test]
fn out_of_range_pages_are_empty_not_errors() {
    let mut store = MemoryStorage::new("orders".to_string());
    for n in 0..5 {
        store.push(payload(n));
    }
    assert!(store.list_jobs(JobState::Pending, 0).is_empty());
    assert!(store.list_jobs(JobState::Pending, -3).is_empty());
    assert!(store.list_jobs(JobState::Pending, 2).is_empty());
    assert!(store.list_jobs(JobState::Success, 1).is_empty());
}

#[test]
fn listings_are_newest_first_and_pages_split_at_ten() {
    let mut store = MemoryStorage::new("orders".to_string());
    for n in 0..12 {
        store.push(payload(n));
    }
    let page1 = store.list_jobs(JobState::Pending, 1);
    let ids1: Vec<u64> = page1.iter().map(|j| j.identifier).collect();
    assert_eq!(ids1, vec![11, 10, 9, 8, 7, 6, 5, 4, 3, 2]);
    let page2 = store.list_jobs(JobState::Pending, 2);
    let ids2: Vec<u64> = page2.iter().map(|j| j.identifier).collect();
    assert_eq!(ids2, vec![1, 0]);
}

#[test]
fn settled_listings_are_in_reverse_completion_order() {
    let mut store = MemoryStorage::new("orders".to_string());
    for n in 0..3 {
        store.push(payload(n));
    }
    let a = store.pull_next().unwrap();
    let b = store.pull_next().unwrap();
    let c = store.pull_next().unwrap();
    // complete out of pull order: b, then c, then a
    store.complete(b, JobState::Success).unwrap();
    store.complete(c, JobState::Success).unwrap();
    store.complete(a, JobState::Success).unwrap();
    let ids: Vec<u64> = store
        .list_jobs(JobState::Success, 1)
        .iter()
        .map(|j| j.identifier)
        .collect();
    assert_eq!(ids, vec![a, c, b]);
}

#[test]
fn one_job_travels_from_pending_to_success() {
    let mut store = MemoryStorage::new("orders".to_string());
    let id = store.push("{\"order\": 42}".to_string());

    let pending = store.list_jobs(JobState::Pending, 1);
    assert_eq!(pending.len(), 1);
    assert_eq!(pending[0].identifier, id);
    assert_eq!(pending[0].payload, "{\"order\": 42}");

    let pulled = store.pull_next().unwrap();
    assert_eq!(pulled, id);
    assert_eq!(store.list_jobs(JobState::Running, 1).len(), 1);

    store.complete(id, JobState::Success).unwrap();
    let done = store.list_jobs(JobState::Success, 1);
    assert_eq!(done.len(), 1);
    assert_eq!(done[0].identifier, id);
    assert!(store.list_jobs(JobState::Pending, 1).is_empty());
    assert!(store.list_jobs(JobState::Running, 1).is_empty());
}

#[test]
fn records_carry_their_lifecycle_timestamps() {
    let mut store = MemoryStorage::new("orders".to_string());
    let id = store.push(payload(1));
    let rec = store.fetch_by_id(id).unwrap();
    assert_eq!(rec.attempt_count, 0);
    assert_eq!(rec.done_at, None);
    store.pull_next().unwrap();
    let rec = store.fetch_by_id(id).unwrap();
    assert_eq!(rec.attempt_count, 1);
    assert!(matches!(rec.state, JobState::Running));
    store.complete(id, JobState::Dead).unwrap();
    let rec = store.fetch_by_id(id).unwrap();
    assert!(rec.done_at.is_some());
    assert!(matches!(rec.state, JobState::Dead));
}

#[test]
fn completing_the_wrong_record_is_refused() {
    let mut store = MemoryStorage::new("orders".to_string());
    let id = store.push(payload(1));
    assert_eq!(
        store.complete(id + 1, JobState::Success),
        Err(StoreError::NotFound)
    );
    // still pending: it was never pulled
    assert_eq!(
        store.complete(id, JobState::Success),
        Err(StoreError::InvalidTransition)
    );
    assert!(store.fetch_by_id(id + 1).is_none());
}

#[test]
fn pulling_from_an_empty_queue_returns_nothing() {
    let mut store = MemoryStorage::new("orders".to_string());
    assert!(store.pull_next().is_none());
}

#[test]
fn worker_roster_lists_most_recently_seen_first() {
    let mut store = MemoryStorage::new("orders".to_string());
    store.register_worker("w-1".to_string());
    store.register_worker("w-2".to_string());
    store.register_worker("w-3".to_string());
    let roster = store.list_workers();
    let ids: Vec<&str> = roster.iter().map(|w| w.worker_id.as_str()).collect();
    assert_eq!(ids, vec!["w-3", "w-2", "w-1"]);
    assert_eq!(roster[0].task_kind, "orders");

    // a heartbeat moves a worker to the front of the roster
    store.register_worker("w-1".to_string());
    let roster = store.list_workers();
    let ids: Vec<&str> = roster.iter().map(|w| w.worker_id.as_str()).collect();
    assert_eq!(ids, vec!["w-1", "w-3", "w-2"]);
    assert_eq!(roster.len(), 3);
}
