use timer_platform::api::{ApiError, CreateTimerRequest, ListTimersQuery, UpdateTimerRequest};
use timer_platform::callback::{CallbackConfig, HTTPCallback};
use timer_platform::dispatch::{http_outcome, plan_dispatch, record_outcome, DispatchPlan};
use timer_platform::scheduler::{ClaimOutcome, TimerCache};
use timer_platform::service::{cancel_timer, create_timer, get_timer, list_timers, update_timer};
use timer_platform::status::TimerStatus;
use timer_platform::store::TimerStore;

const T: i64 = 1_700_000_000_000;

fn http(url: &str) -> CallbackConfig {
    CallbackConfig::Http(HTTPCallback { url: url.to_string(), headers: None, payload: None })
}

fn secs(s: i64) -> i64 {
    T + s * 1000
}

/// Runs loader and ticker over `[from, to]` seconds, reloading every 30 s
/// from `from`, and returns the dispatched records with the second they fired.
fn run(store: &mut TimerStore, cache: &mut TimerCache, from: i64, to: i64) -> Vec<(i64, timer_platform::timer::Timer)> {
    let mut fired = Vec::new();
    for s in from..=to {
        if (s - from) % 30 == 0 {
            cache.load(store, secs(s));
        }
        for t in cache.tick(store, secs(s)) {
            fired.push((s, t));
        }
    }
    fired
}

#[test]
fn happy_path_http() {
    let mut store = TimerStore::new();
    let mut cache = TimerCache::new();
    let req = CreateTimerRequest { execute_at: secs(6), callback: http("http://stub/recv"), metadata: None };
    let created = create_timer(&mut store, req, secs(0), false).unwrap();
    let fired = run(&mut store, &mut cache, 0, 7);
    assert_eq!(fired.len(), 1);
    let (at, timer) = &fired[0];
    assert_eq!(*at, 6);
    assert_eq!(timer.id, created.id);
    match plan_dispatch(timer, false, &Vec::new()) {
        DispatchPlan::Http(req) => {
            assert_eq!(req.url, "http://stub/recv");
            assert_eq!(req.headers[0], ("Content-Type".to_string(), "application/json".to_string()));
        }
        other => panic!("unexpected plan {:?}", other),
    }
    record_outcome(&mut store, timer.id, http_outcome(200, "OK"), secs(7)).unwrap();
    let row = get_timer(&store, created.id).unwrap();
    assert_eq!(row.status, "completed");
    assert_eq!(row.executed_at, Some(secs(7)));
}

#[test]
fn validation_past_instant() {
    let mut store = TimerStore::new();
    let req = CreateTimerRequest { execute_at: secs(3), callback: http("http://stub/recv"), metadata: None };
    let e = create_timer(&mut store, req, secs(0), false).unwrap_err();
    assert_eq!(e.status, 400);
    assert_eq!(e.code, 2);
    assert!(e.message.contains("5 seconds"));
    assert_eq!(store.list(None, timer_platform::store::SortField::CreatedAt, timer_platform::store::SortOrder::Asc, 10, 0).1, 0);
}

#[test]
fn cancel_before_fire() {
    let mut store = TimerStore::new();
    let mut cache = TimerCache::new();
    let req = CreateTimerRequest { execute_at: secs(10), callback: http("http://stub/recv"), metadata: None };
    let created = create_timer(&mut store, req, secs(0), false).unwrap();
    let mut fired = run(&mut store, &mut cache, 0, 2);
    let c = cancel_timer(&mut store, created.id, secs(3)).unwrap();
    assert_eq!(c.status, "canceled");
    // the cache still holds the snapshot: the claim refuses it
    assert!(cache.get(created.id).is_some());
    for s in 3..=11 {
        fired.extend(cache.tick(&mut store, secs(s)).into_iter().map(|t| (s, t)));
    }
    assert!(fired.is_empty());
    assert_eq!(get_timer(&store, created.id).unwrap().status, "canceled");
    let again = cancel_timer(&mut store, created.id, secs(12)).unwrap_err();
    assert_eq!(again.status, 400);
}

#[test]
fn cached_canceled_timer_is_not_claimed() {
    let mut store = TimerStore::new();
    let mut cache = TimerCache::new();
    store.create_with_id(5, secs(6), http("http://a"), None, secs(0)).unwrap();
    cache.load(&store, secs(0));
    store.cancel(5, secs(1)).unwrap();
    assert!(!store.claim_due(5, secs(7)));
    assert!(cache.tick(&mut store, secs(7)).is_empty());
    assert_eq!(store.get(5).unwrap().status, TimerStatus::Canceled);
}

#[test]
fn update_reschedules() {
    let mut store = TimerStore::new();
    let mut cache = TimerCache::new();
    let req = CreateTimerRequest { execute_at: secs(7), callback: http("http://stub-a/recv"), metadata: None };
    let created = create_timer(&mut store, req, secs(0), false).unwrap();
    let mut fired = run(&mut store, &mut cache, 0, 2);
    let upd = UpdateTimerRequest { execute_at: Some(secs(15)), callback: Some(http("http://stub-b/recv")), metadata: None };
    update_timer(&mut store, created.id, upd, secs(3), false).unwrap();
    for s in 3..=16 {
        fired.extend(cache.tick(&mut store, secs(s)).into_iter().map(|t| (s, t)));
    }
    assert_eq!(fired.len(), 1);
    let (at, t) = &fired[0];
    assert_eq!(*at, 15);
    assert_eq!(t.callback_config, http("http://stub-b/recv"));
}

#[test]
fn failure_recorded() {
    let mut store = TimerStore::new();
    let mut cache = TimerCache::new();
    let req = CreateTimerRequest { execute_at: secs(6), callback: http("http://stub/500"), metadata: None };
    let created = create_timer(&mut store, req, secs(0), false).unwrap();
    let fired = run(&mut store, &mut cache, 0, 8);
    assert_eq!(fired.len(), 1);
    let outcome = http_outcome(500, "Internal Server Error");
    record_outcome(&mut store, fired[0].1.id, outcome, secs(7)).unwrap();
    let row = get_timer(&store, created.id).unwrap();
    assert_eq!(row.status, "failed");
    assert!(row.last_error.unwrap().starts_with("HTTP 500"));
    assert!(row.executed_at.is_some());
}

#[test]
fn claim_race_between_two_tickers() {
    let mut store = TimerStore::new();
    for id in 0..100u128 {
        store.create_with_id(id, secs(6), http("http://stub/recv"), None, secs(0)).unwrap();
    }
    let mut a = TimerCache::new();
    let mut b = TimerCache::new();
    a.load(&store, secs(0));
    b.load(&store, secs(0));
    let mut seen = std::collections::HashSet::new();
    let mut total = 0;
    for s in 0..=8 {
        for t in a.tick(&mut store, secs(s)).into_iter().chain(b.tick(&mut store, secs(s))) {
            total += 1;
            assert!(seen.insert(t.id), "id dispatched twice");
        }
    }
    assert_eq!(total, 100);
    assert_eq!(seen.len(), 100);
}

#[test]
fn tick_dispatches_in_due_order() {
    let mut store = TimerStore::new();
    let mut cache = TimerCache::new();
    store.create_with_id(1, secs(9), http("http://a"), None, secs(0)).unwrap();
    store.create_with_id(2, secs(7), http("http://a"), None, secs(0)).unwrap();
    store.create_with_id(3, secs(8), http("http://a"), None, secs(0)).unwrap();
    store.create_with_id(4, secs(20), http("http://a"), None, secs(0)).unwrap();
    cache.load(&store, secs(0));
    assert_eq!(cache.len(), 4);
    let ids: Vec<u128> = cache.tick(&mut store, secs(10)).iter().map(|t| t.id).collect();
    assert_eq!(ids, vec![2, 3, 1]);
    assert_eq!(cache.len(), 1);
    assert!(cache.get(4).is_some());
}

#[test]
fn settle_claim_keeps_unclaimed_snapshots() {
    let mut store = TimerStore::new();
    let mut cache = TimerCache::new();
    store.create_with_id(1, secs(6), http("http://a"), None, secs(0)).unwrap();
    store.create_with_id(2, secs(6), http("http://a"), None, secs(0)).unwrap();
    cache.load(&store, secs(0));
    assert!(cache.settle_claim(1, ClaimOutcome::Claimed));
    assert!(!cache.settle_claim(2, ClaimOutcome::NotClaimed));
    assert!(!cache.settle_claim(2, ClaimOutcome::Failed));
    assert!(cache.get(1).is_none());
    assert!(cache.get(2).is_some());
}

#[test]
fn refresh_keeps_the_last_of_equal_ids() {
    let mut store = TimerStore::new();
    store.create_with_id(1, secs(6), http("http://a"), None, secs(0)).unwrap();
    let first = store.get(1).unwrap();
    store.update(1, Some(secs(9)), None, None, secs(1)).unwrap();
    let second = store.get(1).unwrap();
    let mut cache = TimerCache::new();
    cache.refresh(vec![first, second.clone()]);
    assert_eq!(cache.len(), 1);
    assert_eq!(cache.get(1).unwrap(), second);
    let due = cache.due(secs(8));
    assert!(due.is_empty());
    assert_eq!(cache.due(secs(9)).len(), 1);
}

#[test]
fn service_errors() {
    let mut store = TimerStore::new();
    let e = get_timer(&store, 42).unwrap_err();
    assert_eq!((e.status, e.code, e.message.as_str()), (404, 3, "timer not found"));
    let upd = UpdateTimerRequest { execute_at: None, callback: None, metadata: None };
    assert_eq!(update_timer(&mut store, 42, upd, secs(0), false).unwrap_err().status, 404);
    assert_eq!(cancel_timer(&mut store, 42, secs(0)).unwrap_err().status, 404);
    let internal = ApiError::internal("timer id already exists");
    assert_eq!((internal.status, internal.code), (500, 1));
    assert_eq!(internal.message, "Database error: timer id already exists");
    let bad = ListTimersQuery { status: None, limit: None, offset: None, sort: Some("id".to_string()), order: None };
    assert_eq!(list_timers(&store, &bad).unwrap_err().status, 400);
}

#[test]
fn service_listing_pages() {
    let mut store = TimerStore::new();
    for k in 0..5i64 {
        let req = CreateTimerRequest { execute_at: secs(100 - k), callback: http("http://a"), metadata: None };
        create_timer(&mut store, req, secs(k), false).unwrap();
    }
    let q = ListTimersQuery { status: Some("pending".to_string()), limit: Some(2), offset: Some(1), sort: Some("execute_at".to_string()), order: Some("asc".to_string()) };
    let page = list_timers(&store, &q).unwrap();
    assert_eq!(page.total, 5);
    assert_eq!((page.limit, page.offset), (2, 1));
    let instants: Vec<i64> = page.timers.iter().map(|t| t.execute_at).collect();
    assert_eq!(instants, vec![secs(97), secs(98)]);
    assert!(page.timers.iter().all(|t| t.status == "pending" && t.callback_type == "http"));
}

#[test]
fn update_of_executing_timer_is_refused() {
    let mut store = TimerStore::new();
    store.create_with_id(1, secs(6), http("http://a"), None, secs(0)).unwrap();
    assert!(store.claim_due(1, secs(6)));
    let upd = UpdateTimerRequest { execute_at: None, callback: None, metadata: None };
    let e = update_timer(&mut store, 1, upd, secs(7), false).unwrap_err();
    assert_eq!((e.status, e.code), (400, 2));
    assert_eq!(e.message, "cannot update timer with status 'executing'");
    assert_eq!(store.get(1).unwrap().updated_at, secs(6));
}

#[test]
fn list_errors_are_validation_errors() {
    let store = TimerStore::new();
    let bad = ListTimersQuery { status: Some("done".to_string()), limit: None, offset: None, sort: None, order: None };
    let e = list_timers(&store, &bad).unwrap_err();
    assert_eq!((e.status, e.code), (400, 2));
    assert_eq!(e.message, "status must be one of: pending, executing, completed, failed, canceled");
}

#[test]
fn create_on_empty_store_succeeds() {
    let mut store = TimerStore::new();
    let req = CreateTimerRequest { execute_at: secs(5) + 1, callback: http("http://stub/recv"), metadata: None };
    let r = create_timer(&mut store, req, secs(0), false).unwrap();
    assert_eq!(r.status, "pending");
    assert_eq!(r.execute_at, secs(5) + 1);
    assert_eq!(r.callback_type, "http");
    assert_eq!(r.executed_at, None);
}
