use chirp::facade::{
    decode_job_batches, decode_job_entries, page_bounds, sql_list_offset, sql_status_value,
    stat_from_counts, strip_worker_prefix, workers_from_rows, zrange_bounds,
};
use chirp::model::{default_page, Filter, JobState, Stat, Worker};

#[test]
fn page_bounds_window_the_listing() {
    assert_eq!(page_bounds(1, 25, 10), Some((0, 10)));
    assert_eq!(page_bounds(2, 25, 10), Some((10, 20)));
    assert_eq!(page_bounds(3, 25, 10), Some((20, 25)));
    assert_eq!(page_bounds(4, 25, 10), None);
    assert_eq!(page_bounds(0, 25, 10), None);
    assert_eq!(page_bounds(-1, 25, 10), None);
    assert_eq!(page_bounds(1, 0, 10), None);
}

#[test]
fn relational_listing_offsets_are_ten_a_page() {
    assert_eq!(sql_list_offset(1), Some(0));
    assert_eq!(sql_list_offset(2), Some(10));
    assert_eq!(sql_list_offset(7), Some(60));
    assert_eq!(sql_list_offset(0), None);
    assert_eq!(sql_list_offset(-2), None);
}

#[test]
fn sorted_set_ranges_cover_exactly_one_page() {
    assert_eq!(zrange_bounds(1), Some((0, 9)));
    assert_eq!(zrange_bounds(2), Some((10, 19)));
    assert_eq!(zrange_bounds(0), None);
}

#[test]
fn relational_status_values_spell_terminal_states_their_way() {
    assert_eq!(sql_status_value(&JobState::Pending), "Pending");
    assert_eq!(sql_status_value(&JobState::Scheduled), "Pending");
    assert_eq!(sql_status_value(&JobState::Running), "Running");
    assert_eq!(sql_status_value(&JobState::Success), "Done");
    assert_eq!(sql_status_value(&JobState::Failed), "Failed");
    assert_eq!(sql_status_value(&JobState::Dead), "Killed");
}

#[test]
fn stats_assemble_from_raw_counts() {
    let s = stat_from_counts(3, 1, 4, 2, 5, 6);
    assert_eq!(
        s,
        Stat {
            pending: 3,
            running: 1,
            dead: 6,
            failed: 7,
            success: 4
        }
    );
}

#[test]
fn undecodable_payload_entries_are_filtered_and_counted() {
    let entries = vec![
        Some("{\"ok\": 1}".to_string()),
        Some("not json at all".to_string()),
        None,
        Some("[2, 3]".to_string()),
    ];
    let (kept, dropped) = decode_job_entries(entries);
    assert_eq!(
        kept,
        vec!["{\"ok\": 1}".to_string(), "[2, 3]".to_string()]
    );
    assert_eq!(dropped, 2);
}

#[test]
fn the_default_filter_shows_the_first_pending_page() {
    assert_eq!(default_page(), 1);
    let f = Filter::default();
    assert_eq!(f.page, 1);
    assert!(matches!(f.status, JobState::Pending));
}

#[test]
fn job_states_know_their_names_and_ends() {
    assert_eq!(JobState::Pending.name(), "Pending");
    assert_eq!(JobState::Success.name(), "Success");
    assert!(JobState::Dead.is_terminal());
    assert!(JobState::Success.is_terminal());
    assert!(!JobState::Failed.is_terminal());
    assert!(!JobState::Running.is_terminal());
}

#[test]
fn workers_carry_their_identity() {
    let w = Worker::new("w-9".to_string(), "orders".to_string(), "memory".to_string());
    assert_eq!(w.worker_id, "w-9");
    assert_eq!(w.task_kind, "orders");
    assert_eq!(w.source, "memory");
    assert!(w.layers.is_empty());
}

#[test]
fn worker_rows_map_onto_the_roster() {
    let rows = vec![
        ("w-1".to_string(), "retry".to_string(), 100_i64),
        ("w-2".to_string(), "".to_string(), 90_i64),
    ];
    let roster = workers_from_rows(&rows, &"relational".to_string());
    assert_eq!(roster.len(), 2);
    assert_eq!(roster[0].worker_id, "w-1");
    assert_eq!(roster[0].task_kind, "retry");
    assert_eq!(roster[0].source, "relational");
    assert_eq!(roster[1].worker_id, "w-2");
}

#[test]
fn consumer_names_lose_their_inflight_prefix() {
    let stripped = strip_worker_prefix(
        &"jobs:inflight:worker-7".to_string(),
        &"jobs:inflight:".to_string(),
    );
    assert_eq!(stripped, "worker-7");
    let untouched = strip_worker_prefix(&"elsewhere".to_string(), &"jobs:inflight:".to_string());
    assert_eq!(untouched, "elsewhere");
}

#[test]
fn batches_from_many_consumers_gather_in_order() {
    let batches = vec![
        vec![Some("1".to_string()), Some("oops".to_string())],
        vec![],
        vec![None, Some("{\"b\": 2}".to_string())],
    ];
    let (kept, dropped) = decode_job_batches(batches);
    assert_eq!(kept, vec!["1".to_string(), "{\"b\": 2}".to_string()]);
    assert_eq!(dropped, 2);
}
