use vstd::prelude::*;

use crate::status::CallbackType;
use crate::text::{starts_with, trim};

verus! {

/// A webhook: an HTTP `POST` to `url`. `headers` and `payload` are JSON
/// documents, held as their JSON text.
#[derive(Clone, Debug, PartialEq, Eq)]
pub struct HTTPCallback {
    pub url: String,
    pub headers: Option<String>,
    pub payload: Option<String>,
}

/// A pub/sub publish on `topic` (or `topic.key`). `headers` and `payload` are
/// JSON documents, held as their JSON text.
#[derive(Clone, Debug, PartialEq, Eq)]
pub struct NATSCallback {
    pub topic: String,
    pub key: Option<String>,
    pub headers: Option<String>,
    pub payload: Option<String>,
}

/// The callback of a timer: one of the two backends.
#[derive(Clone, Debug, PartialEq, Eq)]
pub enum CallbackConfig {
    Http(HTTPCallback),
    Nats(NATSCallback),
}

pub fn copy_text(s: &Option<String>) -> (r: Option<String>)
    ensures
        r == *s,
{
    match s {
        Some(t) => Some(t.clone()),
        None => None,
    }
}

impl HTTPCallback {
    pub fn copy(&self) -> (r: HTTPCallback)
        ensures
            r == *self,
    {
        HTTPCallback {
            url: self.url.clone(),
            headers: copy_text(&self.headers),
            payload: copy_text(&self.payload),
        }
    }
}

impl NATSCallback {
    pub fn copy(&self) -> (r: NATSCallback)
        ensures
            r == *self,
    {
        NATSCallback {
            topic: self.topic.clone(),
            key: copy_text(&self.key),
            headers: copy_text(&self.headers),
            payload: copy_text(&self.payload),
        }
    }

    /// The subject published on: the topic, or `topic.key` when a key is set.
    pub open spec fn subject_spec(self) -> Seq<char> {
        match self.key {
            Some(k) => self.topic@ + "."@ + k@,
            None => self.topic@,
        }
    }

    pub fn subject(&self) -> (r: String)
        ensures
            r@ == self.subject_spec(),
    {
        match &self.key {
            Some(k) => self.topic.clone().concat(".").concat(k.as_str()),
            None => self.topic.clone(),
        }
    }
}

impl CallbackConfig {
    pub open spec fn kind(self) -> CallbackType {
        match self {
            CallbackConfig::Http(_) => CallbackType::Http,
            CallbackConfig::Nats(_) => CallbackType::Nats,
        }
    }

    pub fn callback_type(&self) -> (r: CallbackType)
        ensures
            r == self.kind(),
    {
        match self {
            CallbackConfig::Http(_) => CallbackType::Http,
            CallbackConfig::Nats(_) => CallbackType::Nats,
        }
    }

    pub fn copy(&self) -> (r: CallbackConfig)
        ensures
            r == *self,
    {
        match self {
            CallbackConfig::Http(h) => CallbackConfig::Http(h.copy()),
            CallbackConfig::Nats(n) => CallbackConfig::Nats(n.copy()),
        }
    }
}

/// Why admission refuses a callback.
#[derive(Clone, Copy, Debug, PartialEq, Eq, Structural)]
pub enum CallbackProblem {
    /// The webhook URL is neither `http://` nor `https://`.
    BadUrl,
    /// A pub/sub callback, while no pub/sub broker is configured.
    PubSubUnavailable,
    /// A pub/sub topic that is empty once trimmed.
    EmptyTopic,
}

impl CallbackProblem {
    pub open spec fn message_spec(self) -> Seq<char> {
        match self {
            CallbackProblem::BadUrl => "HTTP callback URL must start with http:// or https://"@,
            CallbackProblem::PubSubUnavailable => "NATS callbacks not available (NATS_URL not configured)"@,
            CallbackProblem::EmptyTopic => "NATS topic cannot be empty"@,
        }
    }

    pub fn message(&self) -> (r: String)
        ensures
            r@ == self.message_spec(),
    {
        match self {
            CallbackProblem::BadUrl => String::from_str(
                "HTTP callback URL must start with http:// or https://",
            ),
            CallbackProblem::PubSubUnavailable => String::from_str(
                "NATS callbacks not available (NATS_URL not configured)",
            ),
            CallbackProblem::EmptyTopic => String::from_str("NATS topic cannot be empty"),
        }
    }
}

pub open spec fn web_url(url: Seq<char>) -> bool {
    "http://"@.is_prefix_of(url) || "https://"@.is_prefix_of(url)
}

/// What admission finds wrong with a callback, if anything.
pub open spec fn callback_problem(cb: CallbackConfig, pubsub_available: bool) -> Option<
    CallbackProblem,
> {
    match cb {
        CallbackConfig::Http(h) => if web_url(h.url@) {
            None
        } else {
            Some(CallbackProblem::BadUrl)
        },
        CallbackConfig::Nats(n) => if !pubsub_available {
            Some(CallbackProblem::PubSubUnavailable)
        } else if crate::text::trimmed(n.topic@).len() == 0 {
            Some(CallbackProblem::EmptyTopic)
        } else {
            None
        },
    }
}

/// Checks a callback as admission does: a webhook needs an `http://` or
/// `https://` URL; a pub/sub callback needs a configured broker and a topic
/// that is not blank.
pub fn check_callback(cb: &CallbackConfig, pubsub_available: bool) -> (r: Result<
    CallbackType,
    CallbackProblem,
>)
    ensures
        r matches Ok(t) ==> t == cb.kind() && callback_problem(*cb, pubsub_available) is None,
        r matches Err(p) ==> callback_problem(*cb, pubsub_available) == Some(p),
{
    match cb {
        CallbackConfig::Http(h) => {
            if !starts_with(h.url.as_str(), "http://") && !starts_with(h.url.as_str(), "https://") {
                Err(CallbackProblem::BadUrl)
            } else {
                Ok(CallbackType::Http)
            }
        },
        CallbackConfig::Nats(n) => {
            if !pubsub_available {
                Err(CallbackProblem::PubSubUnavailable)
            } else if trim(n.topic.as_str()).is_empty() {
                Err(CallbackProblem::EmptyTopic)
            } else {
                Ok(CallbackType::Nats)
            }
        },
    }
}

/// One member of a caller-supplied header object: its value is kept only
/// where it is a JSON string.
#[derive(Clone, Debug, PartialEq, Eq)]
pub enum HeaderValue {
    Text(String),
    Other,
}

#[derive(Clone, Debug, PartialEq, Eq)]
pub struct HeaderField {
    pub name: String,
    pub value: HeaderValue,
}

/// The string-valued members of a header object, in order.
pub open spec fn text_headers(fields: Seq<HeaderField>) -> Seq<(String, String)>
    decreases fields.len(),
{
    if fields.len() == 0 {
        Seq::empty()
    } else {
        let rest = text_headers(fields.drop_last());
        match fields.last().value {
            HeaderValue::Text(v) => rest.push((fields.last().name, v)),
            HeaderValue::Other => rest,
        }
    }
}

/// Keeps the members of a header object whose values are strings.
pub fn string_headers(fields: &Vec<HeaderField>) -> (r: Vec<(String, String)>)
    ensures
        r@ == text_headers(fields@),
{
    let mut r: Vec<(String, String)> = Vec::new();
    let mut i: usize = 0;
    while i < fields.len()
        invariant
            i <= fields@.len(),
            r@ == text_headers(fields@.subrange(0, i as int)),
        decreases fields.len() - i,
    {
        let f = &fields[i];
        assert(fields@.subrange(0, i + 1).drop_last() == fields@.subrange(0, i as int));
        match &f.value {
            HeaderValue::Text(v) => {
                r.push((f.name.clone(), v.clone()));
            },
            HeaderValue::Other => {},
        }
        i = i + 1;
    }
    assert(fields@.subrange(0, fields@.len() as int) == fields@);
    r
}

} // verus!
