use vstd::prelude::*;

use crate::callback::{copy_text, CallbackConfig};
use crate::status::{CallbackType, TimerStatus};

verus! {

/// Identifier of a timer: the 128 bits of a UUID.
pub type TimerId = u128;

/// A timer record. Instants are milliseconds since the Unix epoch (UTC);
/// `metadata` is a JSON document held as its text.
#[derive(Clone, Debug, PartialEq, Eq)]
pub struct Timer {
    pub id: TimerId,
    pub created_at: i64,
    pub updated_at: i64,
    pub execute_at: i64,
    pub callback_type: CallbackType,
    pub callback_config: CallbackConfig,
    pub status: TimerStatus,
    pub last_error: Option<String>,
    pub executed_at: Option<i64>,
    pub metadata: Option<String>,
}

/// Summary view of a timer, as the admission API returns it.
#[derive(Clone, Debug, PartialEq, Eq)]
pub struct TimerResponse {
    pub id: TimerId,
    pub created_at: i64,
    pub execute_at: i64,
    pub callback_type: String,
    pub status: String,
    pub executed_at: Option<i64>,
}

impl TimerResponse {
    /// `self` is the summary view of `t`.
    pub open spec fn summarizes(self, t: Timer) -> bool {
        &&& self.id == t.id
        &&& self.created_at == t.created_at
        &&& self.execute_at == t.execute_at
        &&& self.callback_type@ == t.callback_type.name()
        &&& self.status@ == t.status.name()
        &&& self.executed_at == t.executed_at
    }
}

/// Whether the lifecycle admits a status change from `from` to `to`:
/// `pending` may be claimed (to `executing`) or canceled; `executing` ends
/// in `completed` or `failed`, or is canceled (which stops a re-fire, not a
/// dispatch in flight). Terminal states have no way out.
pub open spec fn transition_allowed(from: TimerStatus, to: TimerStatus) -> bool {
    match (from, to) {
        (TimerStatus::Pending, TimerStatus::Executing) => true,
        (TimerStatus::Pending, TimerStatus::Canceled) => true,
        (TimerStatus::Executing, TimerStatus::Completed) => true,
        (TimerStatus::Executing, TimerStatus::Failed) => true,
        (TimerStatus::Executing, TimerStatus::Canceled) => true,
        _ => false,
    }
}

/// One step in the life of a record: nothing changes, or the status moves
/// as the lifecycle admits, or a record that is not terminal keeps its
/// status and identity while other fields change. A terminal record never
/// changes.
pub open spec fn lifecycle_step(before: Timer, after: Timer) -> bool {
    &&& after.id == before.id
    &&& after.created_at == before.created_at
    &&& (before.status.terminal() ==> after == before)
    &&& (after.status == before.status || transition_allowed(before.status, after.status))
}

impl Timer {
    /// The record invariants: the callback type matches the callback,
    /// `last_error` is present (and not empty) exactly when the timer failed,
    /// and `executed_at` is present exactly when it completed or failed.
    pub open spec fn wf(self) -> bool {
        &&& self.callback_type == self.callback_config.kind()
        &&& (self.last_error is Some <==> self.status == TimerStatus::Failed)
        &&& (self.last_error matches Some(e) ==> e@.len() > 0)
        &&& (self.executed_at is Some <==> (self.status == TimerStatus::Completed || self.status
            == TimerStatus::Failed))
    }

    pub fn copy(&self) -> (r: Timer)
        ensures
            r == *self,
    {
        Timer {
            id: self.id,
            created_at: self.created_at,
            updated_at: self.updated_at,
            execute_at: self.execute_at,
            callback_type: self.callback_type,
            callback_config: self.callback_config.copy(),
            status: self.status,
            last_error: copy_text(&self.last_error),
            executed_at: self.executed_at,
            metadata: copy_text(&self.metadata),
        }
    }

    /// The summary view of the record.
    pub fn to_response(&self) -> (r: TimerResponse)
        ensures
            r.summarizes(*self),
    {
        TimerResponse {
            id: self.id,
            created_at: self.created_at,
            execute_at: self.execute_at,
            callback_type: self.callback_type.to_string(),
            status: self.status.to_string(),
            executed_at: self.executed_at,
        }
    }
}

} // verus!
