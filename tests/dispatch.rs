use timer_platform::callback::{string_headers, HTTPCallback, HeaderField, HeaderValue, NATSCallback};
use timer_platform::dispatch::{
    http_outcome, http_request, plan_dispatch, publish_outcome, publish_request, DispatchPlan,
    TransportFailure, USER_AGENT,
};
use timer_platform::store::TimerStore;
use timer_platform::callback::CallbackConfig;

fn fields() -> Vec<HeaderField> {
    vec![
        HeaderField { name: "X-Trace".to_string(), value: HeaderValue::Text("abc".to_string()) },
        HeaderField { name: "X-Count".to_string(), value: HeaderValue::Other },
        HeaderField { name: "X-Env".to_string(), value: HeaderValue::Text("prod".to_string()) },
    ]
}

#[test]
fn status_299_succeeds_and_300_fails() {
    assert_eq!(http_outcome(299, "Custom"), Ok(()));
    assert_eq!(http_outcome(200, "OK"), Ok(()));
    assert_eq!(http_outcome(300, "Multiple Choices"), Err("HTTP 300: Multiple Choices".to_string()));
    assert_eq!(http_outcome(199, "Early"), Err("HTTP 199: Early".to_string()));
    assert_eq!(http_outcome(500, "Internal Server Error"), Err("HTTP 500: Internal Server Error".to_string()));
}

#[test]
fn only_string_headers_are_kept() {
    let h = string_headers(&fields());
    assert_eq!(h, vec![("X-Trace".to_string(), "abc".to_string()), ("X-Env".to_string(), "prod".to_string())]);
    assert!(string_headers(&Vec::new()).is_empty());
}

#[test]
fn webhook_request_has_default_headers_first() {
    let cb = HTTPCallback { url: "https://hooks/x".to_string(), headers: None, payload: Some("{\"a\":1}".to_string()) };
    let r = http_request(&cb, &fields());
    assert_eq!(r.url, "https://hooks/x");
    assert_eq!(r.body.as_deref(), Some("{\"a\":1}"));
    assert_eq!(r.headers.len(), 4);
    assert_eq!(r.headers[1], ("User-Agent".to_string(), USER_AGENT.to_string()));
    assert_eq!(r.headers[2].0, "X-Trace");
}

#[test]
fn publish_subject_and_payload() {
    let keyed = NATSCallback { topic: "jobs".to_string(), key: Some("eu".to_string()), headers: None, payload: None };
    let m = publish_request(&keyed, &fields());
    assert_eq!(m.subject, "jobs.eu");
    assert_eq!(m.payload, "");
    assert_eq!(m.headers.len(), 2);
    let plain = NATSCallback { topic: "jobs".to_string(), key: None, headers: None, payload: Some("[1]".to_string()) };
    let m = publish_request(&plain, &Vec::new());
    assert_eq!(m.subject, "jobs");
    assert_eq!(m.payload, "[1]");
}

#[test]
fn pubsub_without_broker_fails() {
    let mut store = TimerStore::new();
    let cb = CallbackConfig::Nats(NATSCallback { topic: "jobs".to_string(), key: None, headers: None, payload: None });
    let t = store.create_with_id(3, 10, cb, None, 0).unwrap();
    match plan_dispatch(&t, false, &Vec::new()) {
        DispatchPlan::Fail(m) => assert_eq!(m, "NATS client not available (NATS_URL not configured)"),
        other => panic!("unexpected plan {:?}", other),
    }
    match plan_dispatch(&t, true, &Vec::new()) {
        DispatchPlan::Publish(m) => assert_eq!(m.subject, "jobs"),
        other => panic!("unexpected plan {:?}", other),
    }
}

#[test]
fn failure_messages() {
    assert_eq!(TransportFailure::Timeout.message(), "Connection timeout after 30s");
    assert_eq!(TransportFailure::Connect("refused".to_string()).message(), "Connection error: refused");
    assert_eq!(TransportFailure::Build("bad header".to_string()).message(), "Request error: bad header");
    assert_eq!(TransportFailure::Other("eof".to_string()).message(), "HTTP request failed: eof");
    assert_eq!(publish_outcome(Err("no route".to_string())), Err("publish failed: no route".to_string()));
    assert_eq!(publish_outcome(Ok(())), Ok(()));
}
