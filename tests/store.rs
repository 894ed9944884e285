use timer_platform::callback::{CallbackConfig, HTTPCallback, NATSCallback};
use timer_platform::status::{CallbackType, TimerStatus};
use timer_platform::store::{SortField, SortOrder, StoreError, TimerStore};

const T: i64 = 1_700_000_000_000;

fn http(url: &str) -> CallbackConfig {
    CallbackConfig::Http(HTTPCallback {
        url: url.to_string(),
        headers: Some("{\"X-Trace\":\"abc\",\"X-Count\":3}".to_string()),
        payload: Some("{\"job\":42}".to_string()),
    })
}

#[test]
fn create_then_get_returns_the_callback() {
    let mut store = TimerStore::new();
    let cb = http("http://stub/recv");
    let t = store.create(T + 6000, cb.clone(), Some("{\"owner\":\"me\"}".to_string()), T).unwrap();
    assert_eq!(t.status, TimerStatus::Pending);
    assert_eq!(t.created_at, T);
    assert_eq!(t.updated_at, T);
    assert_eq!(t.callback_type, CallbackType::Http);
    let got = store.get(t.id).unwrap();
    assert_eq!(got.callback_config, cb);
    assert_eq!(got.metadata.as_deref(), Some("{\"owner\":\"me\"}"));
    assert_eq!(got.execute_at, T + 6000);
    assert_eq!(got, t);
}

#[test]
fn create_with_taken_id_conflicts() {
    let mut store = TimerStore::new();
    store.create_with_id(7, T + 6000, http("http://a"), None, T).unwrap();
    assert_eq!(store.create_with_id(7, T + 9000, http("http://b"), None, T), Err(StoreError::Conflict));
    assert_eq!(store.get(7).unwrap().execute_at, T + 6000);
}

#[test]
fn missing_ids_are_not_found() {
    let mut store = TimerStore::new();
    assert!(store.get(1).is_none());
    assert_eq!(store.cancel(1, T), Err(StoreError::NotFound));
    assert_eq!(store.update(1, None, None, None, T), Err(StoreError::NotFound));
    assert_eq!(store.mark_completed(1, T), Err(StoreError::NotFound));
    assert!(!store.claim_due(1, T));
}

#[test]
fn cancel_twice_is_refused_the_second_time() {
    let mut store = TimerStore::new();
    store.create_with_id(1, T + 10_000, http("http://a"), None, T).unwrap();
    let c = store.cancel(1, T + 3000).unwrap();
    assert_eq!(c.status, TimerStatus::Canceled);
    assert_eq!(c.updated_at, T + 3000);
    assert_eq!(store.cancel(1, T + 4000), Err(StoreError::TerminalState));
    assert_eq!(store.get(1).unwrap().updated_at, T + 3000);
}

#[test]
fn mark_completed_twice_is_a_no_op() {
    let mut store = TimerStore::new();
    store.create_with_id(1, T + 6000, http("http://a"), None, T).unwrap();
    assert!(store.claim_due(1, T + 6000));
    assert_eq!(store.mark_completed(1, T + 6500), Ok(()));
    let first = store.get(1).unwrap();
    assert_eq!(first.status, TimerStatus::Completed);
    assert_eq!(first.executed_at, Some(T + 6500));
    assert_eq!(store.mark_completed(1, T + 9000), Ok(()));
    assert_eq!(store.get(1).unwrap(), first);
    assert_eq!(store.mark_failed(1, "late".to_string(), T + 9000), Ok(()));
    assert_eq!(store.get(1).unwrap(), first);
}

#[test]
fn outcome_of_an_unclaimed_timer_is_refused() {
    let mut store = TimerStore::new();
    store.create_with_id(1, T + 6000, http("http://a"), None, T).unwrap();
    assert_eq!(store.mark_completed(1, T), Err(StoreError::NotExecuting));
    assert_eq!(store.get(1).unwrap().status, TimerStatus::Pending);
}

#[test]
fn failed_record_keeps_reason_and_time() {
    let mut store = TimerStore::new();
    store.create_with_id(1, T + 6000, http("http://a"), None, T).unwrap();
    assert!(store.claim_due(1, T + 6000));
    store.mark_failed(1, "HTTP 500: Internal Server Error".to_string(), T + 7000).unwrap();
    let t = store.get(1).unwrap();
    assert_eq!(t.status, TimerStatus::Failed);
    assert_eq!(t.last_error.as_deref(), Some("HTTP 500: Internal Server Error"));
    assert_eq!(t.executed_at, Some(T + 7000));
}

#[test]
fn only_one_of_many_claims_wins() {
    let mut store = TimerStore::new();
    store.create_with_id(9, T + 6000, http("http://a"), None, T).unwrap();
    let wins = (0..50).filter(|k| store.claim_due(9, T + 6000 + k)).count();
    assert_eq!(wins, 1);
    assert_eq!(store.get(9).unwrap().status, TimerStatus::Executing);
}

#[test]
fn claim_before_the_instant_fails() {
    let mut store = TimerStore::new();
    store.create_with_id(9, T + 6000, http("http://a"), None, T).unwrap();
    assert!(!store.claim_due(9, T + 5999));
    assert!(store.claim_due(9, T + 6000));
}

#[test]
fn update_changes_the_given_fields_only() {
    let mut store = TimerStore::new();
    store.create_with_id(1, T + 7000, http("http://a"), Some("{}".to_string()), T).unwrap();
    let cb = CallbackConfig::Nats(NATSCallback { topic: "jobs".to_string(), key: Some("k1".to_string()), headers: None, payload: None });
    let u = store.update(1, Some(T + 15_000), Some(cb.clone()), None, T + 3000).unwrap();
    assert_eq!(u.execute_at, T + 15_000);
    assert_eq!(u.callback_config, cb);
    assert_eq!(u.callback_type, CallbackType::Nats);
    assert_eq!(u.metadata.as_deref(), Some("{}"));
    assert_eq!(u.updated_at, T + 3000);
    assert_eq!(u.created_at, T);
    store.cancel(1, T + 4000).unwrap();
    assert_eq!(store.update(1, None, None, None, T + 5000), Err(StoreError::TerminalState));
}

#[test]
fn load_window_bounds_and_order() {
    let mut store = TimerStore::new();
    // (now - 5 min, now + 1 min]
    store.create_with_id(1, T - 300_000, http("http://a"), None, T - 400_000).unwrap();
    store.create_with_id(2, T - 299_999, http("http://a"), None, T - 400_000).unwrap();
    store.create_with_id(3, T + 60_000, http("http://a"), None, T).unwrap();
    store.create_with_id(4, T + 60_001, http("http://a"), None, T).unwrap();
    store.create_with_id(5, T + 10, http("http://a"), None, T).unwrap();
    store.create_with_id(6, T + 5, http("http://a"), None, T).unwrap();
    store.cancel(6, T).unwrap();
    let w = store.load_window(T, 300_000, 60_000);
    let ids: Vec<u128> = w.iter().map(|t| t.id).collect();
    assert_eq!(ids, vec![2, 5, 3]);
}

#[test]
fn list_sorts_filters_and_pages() {
    let mut store = TimerStore::new();
    for (id, created) in [(1u128, 30i64), (2, 10), (3, 20), (4, 20)] {
        store.create_with_id(id, T + 100_000 - created, http("http://a"), None, T + created).unwrap();
    }
    store.cancel(1, T + 40).unwrap();
    let (all, total) = store.list(None, SortField::CreatedAt, SortOrder::Desc, 50, 0);
    assert_eq!(total, 4);
    assert_eq!(all.iter().map(|t| t.id).collect::<Vec<_>>(), vec![1, 3, 4, 2]);
    let (asc, _) = store.list(None, SortField::CreatedAt, SortOrder::Asc, 2, 1);
    assert_eq!(asc.iter().map(|t| t.id).collect::<Vec<_>>(), vec![3, 4]);
    let (pending, total) = store.list(Some(TimerStatus::Pending), SortField::ExecuteAt, SortOrder::Asc, 50, 0);
    assert_eq!(total, 3);
    assert_eq!(pending.iter().map(|t| t.id).collect::<Vec<_>>(), vec![3, 4, 2]);
    let (beyond, total) = store.list(None, SortField::CreatedAt, SortOrder::Asc, 10, 9);
    assert!(beyond.is_empty());
    assert_eq!(total, 4);
}

#[test]
fn reap_orphans_fails_old_executing_records() {
    let mut store = TimerStore::new();
    store.create_with_id(1, T + 6000, http("http://a"), None, T).unwrap();
    store.create_with_id(2, T + 6000, http("http://a"), None, T).unwrap();
    store.create_with_id(3, T + 500_000, http("http://a"), None, T).unwrap();
    assert!(store.claim_due(1, T + 6000));
    assert!(store.claim_due(3, T + 500_000));
    store.reap_orphans(T + 400_000, 60_000);
    let one = store.get(1).unwrap();
    assert_eq!(one.status, TimerStatus::Failed);
    assert_eq!(one.last_error.as_deref(), Some("engine restart"));
    assert_eq!(one.executed_at, Some(T + 400_000));
    assert_eq!(store.get(2).unwrap().status, TimerStatus::Pending);
    assert_eq!(store.get(3).unwrap().status, TimerStatus::Executing);
}

#[test]
fn store_error_messages() {
    assert_eq!(StoreError::Conflict.message(), "timer id already exists");
    assert_eq!(StoreError::Backend("down".to_string()).message(), "storage failure: down");
}
