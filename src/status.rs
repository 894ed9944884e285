use vstd::prelude::*;

use crate::text::{lowercase, same_text};

verus! {

/// Lifecycle state of a timer.
#[derive(Clone, Copy, Debug, PartialEq, Eq, Structural)]
pub enum TimerStatus {
    Pending,
    Executing,
    Completed,
    Failed,
    Canceled,
}

/// Which of the two callback backends a timer uses.
#[derive(Clone, Copy, Debug, PartialEq, Eq, Structural)]
pub enum CallbackType {
    Http,
    Nats,
}

impl TimerStatus {
    /// The lower-case name under which the status is stored and shown.
    pub open spec fn name(self) -> Seq<char> {
        match self {
            TimerStatus::Pending => "pending"@,
            TimerStatus::Executing => "executing"@,
            TimerStatus::Completed => "completed"@,
            TimerStatus::Failed => "failed"@,
            TimerStatus::Canceled => "canceled"@,
        }
    }

    /// `completed`, `failed` and `canceled` are terminal: nothing leaves them.
    pub open spec fn terminal(self) -> bool {
        self == TimerStatus::Completed || self == TimerStatus::Failed || self
            == TimerStatus::Canceled
    }

    pub fn is_terminal(&self) -> (r: bool)
        ensures
            r == self.terminal(),
    {
        match self {
            TimerStatus::Completed | TimerStatus::Failed | TimerStatus::Canceled => true,
            _ => false,
        }
    }

    pub fn as_str(&self) -> (r: &'static str)
        ensures
            r@ == self.name(),
    {
        match self {
            TimerStatus::Pending => "pending",
            TimerStatus::Executing => "executing",
            TimerStatus::Completed => "completed",
            TimerStatus::Failed => "failed",
            TimerStatus::Canceled => "canceled",
        }
    }

    /// The status as an owned string (its display form).
    pub fn to_string(&self) -> (r: String)
        ensures
            r@ == self.name(),
    {
        String::from_str(self.as_str())
    }

    /// Reads a status from its exact lower-case name.
    pub fn from_lowered(s: &str) -> (r: Option<TimerStatus>)
        ensures
            r matches Some(st) ==> st.name() == s@,
            r is None ==> forall|st: TimerStatus| st.name() != s@,
    {
        proof {
            lemma_names_distinct();
        }
        if same_text(s, "pending") {
            Some(TimerStatus::Pending)
        } else if same_text(s, "executing") {
            Some(TimerStatus::Executing)
        } else if same_text(s, "completed") {
            Some(TimerStatus::Completed)
        } else if same_text(s, "failed") {
            Some(TimerStatus::Failed)
        } else if same_text(s, "canceled") {
            Some(TimerStatus::Canceled)
        } else {
            assert forall|st: TimerStatus| st.name() != s@ by {
                match st {
                    TimerStatus::Pending => {},
                    TimerStatus::Executing => {},
                    TimerStatus::Completed => {},
                    TimerStatus::Failed => {},
                    TimerStatus::Canceled => {},
                }
            }
            None
        }
    }

    /// Reads a status by name, ignoring case; the error names the input.
    pub fn from_str(s: &str) -> (r: Result<TimerStatus, String>)
        ensures
            r matches Ok(st) ==> st.name() == crate::text::lower_of(s@),
            r is Err ==> (forall|st: TimerStatus| st.name() != crate::text::lower_of(s@)),
            r matches Err(e) ==> e@ == "Invalid timer status: "@ + s@,
    {
        let lowered = lowercase(s);
        match TimerStatus::from_lowered(lowered.as_str()) {
            Some(st) => Ok(st),
            None => Err(String::from_str("Invalid timer status: ").concat(s)),
        }
    }
}

/// Distinct statuses have distinct names.
pub proof fn lemma_names_distinct()
    ensures
        forall|a: TimerStatus, b: TimerStatus| a.name() == b.name() ==> a == b,
{
    reveal_strlit("pending");
    reveal_strlit("executing");
    reveal_strlit("completed");
    reveal_strlit("failed");
    reveal_strlit("canceled");
    assert forall|a: TimerStatus, b: TimerStatus| a.name() == b.name() implies a == b by {
        if a != b {
            assert(a.name().len() != b.name().len() || a.name()[0] != b.name()[0]);
        }
    }
}

impl CallbackType {
    pub open spec fn name(self) -> Seq<char> {
        match self {
            CallbackType::Http => "http"@,
            CallbackType::Nats => "nats"@,
        }
    }

    pub fn to_string(&self) -> (r: String)
        ensures
            r@ == self.name(),
    {
        match self {
            CallbackType::Http => String::from_str("http"),
            CallbackType::Nats => String::from_str("nats"),
        }
    }
}

} // verus!
