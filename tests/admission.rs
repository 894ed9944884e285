use timer_platform::api::{
    check_cancel, check_create, check_execute_at, check_update, clamp_page, health_check,
    unauthorized, authorized, ApiResponse, CreateTimerRequest, ListTimersQuery, UpdateTimerRequest,
    CODE_VALIDATION,
};
use timer_platform::callback::{check_callback, CallbackConfig, CallbackProblem, HTTPCallback, NATSCallback};
use timer_platform::status::{CallbackType, TimerStatus};
use timer_platform::store::{SortField, SortOrder};

const T: i64 = 1_700_000_000_000;

fn http(url: &str) -> CallbackConfig {
    CallbackConfig::Http(HTTPCallback { url: url.to_string(), headers: None, payload: None })
}

fn nats(topic: &str) -> CallbackConfig {
    CallbackConfig::Nats(NATSCallback { topic: topic.to_string(), key: None, headers: None, payload: None })
}

#[test]
fn execute_at_exactly_five_seconds_ahead_is_rejected() {
    let e = check_execute_at(T + 5000, T).unwrap_err();
    assert_eq!(e.status, 400);
    assert_eq!(e.code, 2);
    assert!(e.message.contains("5 seconds"));
}

#[test]
fn execute_at_five_seconds_and_a_millisecond_ahead_is_accepted() {
    assert!(check_execute_at(T + 5001, T).is_ok());
}

#[test]
fn create_three_seconds_ahead_is_refused() {
    let req = CreateTimerRequest { execute_at: T + 3000, callback: http("http://stub/recv"), metadata: None };
    let e = check_create(&req, T, false).unwrap_err();
    assert_eq!(e.status, 400);
    assert_eq!(e.code, CODE_VALIDATION);
    assert!(e.message.contains("5 seconds"));
}

#[test]
fn create_checks_the_callback() {
    let ok = CreateTimerRequest { execute_at: T + 6000, callback: http("https://x/y"), metadata: None };
    assert_eq!(check_create(&ok, T, false).unwrap(), CallbackType::Http);
    let bad = CreateTimerRequest { execute_at: T + 6000, callback: http("ftp://x"), metadata: None };
    assert_eq!(
        check_create(&bad, T, false).unwrap_err().message,
        "HTTP callback URL must start with http:// or https://"
    );
}

#[test]
fn callback_problems() {
    assert_eq!(check_callback(&http("http://a"), false), Ok(CallbackType::Http));
    assert_eq!(check_callback(&http("htt://a"), true), Err(CallbackProblem::BadUrl));
    assert_eq!(check_callback(&nats("jobs"), false), Err(CallbackProblem::PubSubUnavailable));
    assert_eq!(check_callback(&nats("   "), true), Err(CallbackProblem::EmptyTopic));
    assert_eq!(check_callback(&nats("jobs"), true), Ok(CallbackType::Nats));
    assert_eq!(
        CallbackProblem::PubSubUnavailable.message(),
        "NATS callbacks not available (NATS_URL not configured)"
    );
    assert_eq!(CallbackProblem::EmptyTopic.message(), "NATS topic cannot be empty");
}

#[test]
fn cancel_of_terminal_statuses_is_refused() {
    let e = check_cancel(TimerStatus::Canceled).unwrap_err();
    assert_eq!(e.status, 400);
    assert_eq!(e.code, 2);
    assert_eq!(e.message, "cannot cancel timer with status 'canceled'");
    assert!(check_cancel(TimerStatus::Completed).is_err());
    assert!(check_cancel(TimerStatus::Failed).is_err());
    assert!(check_cancel(TimerStatus::Pending).is_ok());
    assert!(check_cancel(TimerStatus::Executing).is_ok());
}

#[test]
fn update_checks_status_instant_and_callback() {
    let req = UpdateTimerRequest { execute_at: Some(T + 15_000), callback: Some(http("http://b")), metadata: None };
    assert_eq!(check_update(TimerStatus::Pending, &req, T, false).unwrap(), Some(CallbackType::Http));
    assert_eq!(
        check_update(TimerStatus::Completed, &req, T, false).unwrap_err().message,
        "cannot update timer with status 'completed'"
    );
    let late = UpdateTimerRequest { execute_at: Some(T + 5000), callback: None, metadata: None };
    assert!(check_update(TimerStatus::Pending, &late, T, false).unwrap_err().message.contains("5 seconds"));
    let none = UpdateTimerRequest { execute_at: None, callback: None, metadata: None };
    assert_eq!(check_update(TimerStatus::Pending, &none, T, false).unwrap(), None);
    assert_eq!(
        check_update(TimerStatus::Executing, &none, T, false).unwrap_err().message,
        "cannot update timer with status 'executing'"
    );
    assert_eq!(check_update(TimerStatus::Canceled, &none, T, false).unwrap_err().status, 400);
}

fn query(limit: Option<i64>, offset: Option<i64>) -> ListTimersQuery {
    ListTimersQuery { status: None, limit, offset, sort: None, order: None }
}

#[test]
fn limit_is_clamped() {
    assert_eq!(clamp_page(Some(0), None), (1, 0));
    assert_eq!(clamp_page(Some(-7), Some(-3)), (1, 0));
    assert_eq!(clamp_page(Some(201), Some(4)), (200, 4));
    assert_eq!(clamp_page(None, None), (50, 0));
    let p = query(Some(1000), Some(10)).normalize().unwrap();
    assert_eq!(p.limit, 200);
    assert_eq!(p.offset, 10);
    assert_eq!(p.sort, SortField::CreatedAt);
    assert_eq!(p.order, SortOrder::Desc);
}

#[test]
fn list_query_validation() {
    let mut q = query(None, None);
    q.sort = Some("updated_at".to_string());
    assert_eq!(q.normalize().unwrap_err().message, "sort field must be 'created_at' or 'execute_at'");
    let mut q = query(None, None);
    q.order = Some("up".to_string());
    assert_eq!(q.normalize().unwrap_err().message, "order must be 'asc' or 'desc'");
    let mut q = query(None, None);
    q.status = Some("done".to_string());
    assert_eq!(
        q.normalize().unwrap_err().message,
        "status must be one of: pending, executing, completed, failed, canceled"
    );
    let mut q = query(None, None);
    q.status = Some("failed".to_string());
    q.sort = Some("execute_at".to_string());
    q.order = Some("asc".to_string());
    let p = q.normalize().unwrap();
    assert_eq!(p.status, Some(TimerStatus::Failed));
    assert_eq!(p.sort, SortField::ExecuteAt);
    assert_eq!(p.order, SortOrder::Asc);
}

#[test]
fn envelope_and_health() {
    let ok = ApiResponse::success(7u8);
    assert_eq!(ok.code, 0);
    assert_eq!(ok.message, "success");
    assert_eq!(ok.data, Some(7));
    let err = ApiResponse::<u8>::error(3, "timer not found".to_string());
    assert_eq!(err.code, 3);
    assert!(err.data.is_none());
    let (status, body) = health_check(true, T);
    assert_eq!(status, 200);
    assert_eq!(body.data.as_ref().unwrap().status, "up");
    let (status, body) = health_check(false, T);
    assert_eq!(status, 500);
    assert_eq!(body.code, 1);
    assert_eq!(body.data.as_ref().unwrap().database, "disconnected");
    let (status, body) = unauthorized();
    assert_eq!(status, 401);
    assert_eq!(body.code, 4);
}

#[test]
fn api_key_must_match() {
    let key = "k".repeat(32);
    assert!(authorized(Some(key.as_str()), &key));
    assert!(!authorized(Some("other"), &key));
    assert!(!authorized(None, &key));
}
