use vstd::prelude::*;

use crate::callback::{string_headers, text_headers, CallbackConfig, HTTPCallback, HeaderField, NATSCallback};
use crate::store::{complete_effect, fail_effect, TimerStore};
use crate::text::{decimal, u64_text};
use crate::timer::{Timer, TimerId};

verus! {

/// The `User-Agent` of every webhook request.
pub const USER_AGENT: &'static str = "timer-platform/0.1.0";

/// Seconds a webhook request may take before it counts as failed.
pub const HTTP_TIMEOUT_SECS: u64 = 30;

/// The webhook request to send: a `POST` of `body` to `url`.
#[derive(Clone, Debug, PartialEq, Eq)]
pub struct HttpRequest {
    pub url: String,
    pub headers: Vec<(String, String)>,
    pub body: Option<String>,
}

/// The message to publish.
#[derive(Clone, Debug, PartialEq, Eq)]
pub struct PublishRequest {
    pub subject: String,
    pub headers: Vec<(String, String)>,
    pub payload: String,
}

/// What the dispatcher does for one claimed timer.
#[derive(Clone, Debug, PartialEq, Eq)]
pub enum DispatchPlan {
    Http(HttpRequest),
    Publish(PublishRequest),
    /// Nothing can be sent; the timer fails with this reason.
    Fail(String),
}

/// How a webhook request failed before any response came back.
#[derive(Clone, Debug, PartialEq, Eq)]
pub enum TransportFailure {
    Timeout,
    Connect(String),
    Build(String),
    Other(String),
}

pub open spec fn default_headers_hold(h: Seq<(String, String)>) -> bool {
    &&& h.len() >= 2
    &&& h[0].0@ == "Content-Type"@
    &&& h[0].1@ == "application/json"@
    &&& h[1].0@ == "User-Agent"@
    &&& h[1].1@ == USER_AGENT@
}

/// The webhook request of a callback: the default headers, then the
/// string-valued caller headers, and the payload as body.
pub fn http_request(cb: &HTTPCallback, fields: &Vec<HeaderField>) -> (r: HttpRequest)
    ensures
        is_http_request(*cb, fields@, r),
{
    let mut headers: Vec<(String, String)> = Vec::new();
    headers.push((String::from_str("Content-Type"), String::from_str("application/json")));
    headers.push((String::from_str("User-Agent"), String::from_str(USER_AGENT)));
    let mut extra = string_headers(fields);
    let ghost e = extra@;
    headers.append(&mut extra);
    assert(headers@.subrange(2, headers@.len() as int) =~= e);
    HttpRequest { url: cb.url.clone(), headers, body: crate::callback::copy_text(&cb.payload) }
}

/// `q` is the message of `n` with caller headers `fields`.
pub open spec fn is_publish_request(n: NATSCallback, fields: Seq<HeaderField>, q: PublishRequest) -> bool {
    &&& q.subject@ == n.subject_spec()
    &&& q.headers@ == text_headers(fields)
    &&& q.payload@ == (match n.payload {
        Some(p) => p@,
        None => Seq::<char>::empty(),
    })
}

/// The message of a pub/sub callback: published on its subject, with the
/// string-valued caller headers, and the payload (empty when absent).
pub fn publish_request(cb: &NATSCallback, fields: &Vec<HeaderField>) -> (r: PublishRequest)
    ensures
        is_publish_request(*cb, fields@, r),
{
    let payload = match &cb.payload {
        Some(p) => p.clone(),
        None => String::new(),
    };
    PublishRequest { subject: cb.subject(), headers: string_headers(fields), payload }
}

pub open spec fn no_broker_message() -> Seq<char> {
    "NATS client not available (NATS_URL not configured)"@
}

/// What to do for a claimed timer: the request of its backend, or failure
/// where a pub/sub callback finds no broker.
pub fn plan_dispatch(timer: &Timer, pubsub_available: bool, fields: &Vec<HeaderField>) -> (r:
    DispatchPlan)
    ensures
        timer.callback_config matches CallbackConfig::Http(h) ==> (r matches DispatchPlan::Http(
            q,
        ) && is_http_request(h, fields@, q)),
        timer.callback_config matches CallbackConfig::Nats(n) ==> (if pubsub_available {
            r matches DispatchPlan::Publish(q) && is_publish_request(n, fields@, q)
        } else {
            r matches DispatchPlan::Fail(m) && m@ == no_broker_message()
        }),
{
    match &timer.callback_config {
        CallbackConfig::Http(h) => DispatchPlan::Http(http_request(h, fields)),
        CallbackConfig::Nats(n) => {
            if pubsub_available {
                DispatchPlan::Publish(publish_request(n, fields))
            } else {
                DispatchPlan::Fail(
                    String::from_str("NATS client not available (NATS_URL not configured)"),
                )
            }
        },
    }
}

/// `q` is the webhook request of `h` with caller headers `fields`.
pub open spec fn is_http_request(h: HTTPCallback, fields: Seq<HeaderField>, q: HttpRequest) -> bool {
    &&& q.url == h.url
    &&& default_headers_hold(q.headers@)
    &&& q.headers@.subrange(2, q.headers@.len() as int) == text_headers(fields)
    &&& q.body == h.payload
}

pub open spec fn success_status(code: u16) -> bool {
    200 <= code && code < 300
}

pub open spec fn http_failure_text(code: u16, reason: Seq<char>) -> Seq<char> {
    "HTTP "@ + decimal(code as nat) + ": "@ + reason
}

/// The outcome of a webhook by its response status: any status in
/// `[200, 300)` is success, every other one a failure `HTTP <code>: <reason>`.
pub fn http_outcome(code: u16, reason: &str) -> (r: Result<(), String>)
    ensures
        r is Ok <==> success_status(code),
        r matches Err(e) ==> e@ == http_failure_text(code, reason@),
{
    if 200 <= code && code < 300 {
        Ok(())
    } else {
        Err(String::from_str("HTTP ").concat(u64_text(code as u64).as_str()).concat(": ").concat(reason))
    }
}

impl TransportFailure {
    pub open spec fn message_spec(self) -> Seq<char> {
        match self {
            TransportFailure::Timeout => "Connection timeout after 30s"@,
            TransportFailure::Connect(d) => "Connection error: "@ + d@,
            TransportFailure::Build(d) => "Request error: "@ + d@,
            TransportFailure::Other(d) => "HTTP request failed: "@ + d@,
        }
    }

    /// The failure reason recorded for a webhook that got no response.
    pub fn message(&self) -> (r: String)
        ensures
            r@ == self.message_spec(),
            r@.len() > 0,
    {
        proof {
            reveal_strlit("Connection timeout after 30s");
            reveal_strlit("Connection error: ");
            reveal_strlit("Request error: ");
            reveal_strlit("HTTP request failed: ");
        }
        match self {
            TransportFailure::Timeout => String::from_str("Connection timeout after 30s"),
            TransportFailure::Connect(d) => String::from_str("Connection error: ").concat(d.as_str()),
            TransportFailure::Build(d) => String::from_str("Request error: ").concat(d.as_str()),
            TransportFailure::Other(d) => String::from_str("HTTP request failed: ").concat(d.as_str()),
        }
    }
}

/// The outcome of a publish: success when the publish call returned without
/// error, else failure `publish failed: <reason>`.
pub fn publish_outcome(result: Result<(), String>) -> (r: Result<(), String>)
    ensures
        r is Ok <==> result is Ok,
        result matches Err(e) ==> r matches Err(m) && m@ == "publish failed: "@ + e@,
{
    match result {
        Ok(()) => Ok(()),
        Err(e) => Err(String::from_str("publish failed: ").concat(e.as_str())),
    }
}

/// Records the outcome of a dispatch in the store: success completes the
/// timer, failure fails it with the reason. A reason is never empty.
pub fn record_outcome(store: &mut TimerStore, id: TimerId, outcome: Result<(), String>, now: i64) -> (r: Result<(), crate::store::StoreError>)
    requires
        old(store).wf(),
        outcome matches Err(e) ==> e@.len() > 0,
    ensures
        final(store).wf(),
        outcome is Ok ==> (r, final(store)@) == complete_effect(old(store)@, id, now),
        outcome matches Err(e) ==> (r, final(store)@) == fail_effect(old(store)@, id, e, now),
{
    match outcome {
        Ok(()) => store.mark_completed(id, now),
        Err(e) => store.mark_failed(id, e, now),
    }
}

} // verus!
