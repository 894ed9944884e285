//! Verified core of a durable deferred-callback service: timer records and
//! their lifecycle, the in-memory store, the near-term window cache that the
//! scheduler polls, admission rules of the REST surface, and the decisions of
//! the callback dispatcher.

pub mod status;
pub mod text;
pub mod callback;
pub mod timer;
pub mod table;
pub mod store;
pub mod scheduler;
pub mod dispatch;
pub mod api;
pub mod config;
pub mod service;
pub mod lifecycle;

