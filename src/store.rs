use vstd::prelude::*;

use crate::callback::CallbackConfig;
use crate::status::TimerStatus;
use crate::table::{sorted_by_due, unique_ids, TimerTable};
use crate::timer::{Timer, TimerId};

verus! {

/// Failures of store operations.
#[derive(Debug, PartialEq, Eq)]
pub enum StoreError {
    /// No record has the id.
    NotFound,
    /// The record is terminal and cannot be changed.
    TerminalState,
    /// A terminal outcome was recorded for a record that was never claimed.
    NotExecuting,
    /// A record with the id exists already.
    Conflict,
    /// The backing storage failed; the text says how.
    Backend(String),
}

/// The contents of a store: records by id.
pub type Records = Map<TimerId, Timer>;

impl StoreError {
    pub open spec fn message_spec(&self) -> Seq<char> {
        match self {
            StoreError::NotFound => "timer not found"@,
            StoreError::TerminalState => "timer is in a terminal state"@,
            StoreError::NotExecuting => "timer was never claimed"@,
            StoreError::Conflict => "timer id already exists"@,
            StoreError::Backend(m) => "storage failure: "@ + m@,
        }
    }

    /// A short description of the failure.
    pub fn message(&self) -> (r: String)
        ensures
            r@ == self.message_spec(),
            r@.len() > 0,
    {
        proof {
            reveal_strlit("timer not found");
            reveal_strlit("timer is in a terminal state");
            reveal_strlit("timer was never claimed");
            reveal_strlit("timer id already exists");
            reveal_strlit("storage failure: ");
        }
        match self {
            StoreError::NotFound => String::from_str("timer not found"),
            StoreError::TerminalState => String::from_str("timer is in a terminal state"),
            StoreError::NotExecuting => String::from_str("timer was never claimed"),
            StoreError::Conflict => String::from_str("timer id already exists"),
            StoreError::Backend(m) => String::from_str("storage failure: ").concat(m.as_str()),
        }
    }
}

/// A new record: `pending`, created and updated at `now`.
pub open spec fn fresh_record(
    id: TimerId,
    execute_at: i64,
    callback: CallbackConfig,
    metadata: Option<String>,
    now: i64,
) -> Timer {
    Timer {
        id,
        created_at: now,
        updated_at: now,
        execute_at,
        callback_type: callback.kind(),
        callback_config: callback,
        status: TimerStatus::Pending,
        last_error: None,
        executed_at: None,
        metadata,
    }
}

pub open spec fn create_effect(
    m: Records,
    id: TimerId,
    execute_at: i64,
    callback: CallbackConfig,
    metadata: Option<String>,
    now: i64,
) -> (Result<Timer, StoreError>, Records) {
    if m.contains_key(id) {
        (Err(StoreError::Conflict), m)
    } else {
        let t = fresh_record(id, execute_at, callback, metadata, now);
        (Ok(t), m.insert(id, t))
    }
}

/// A record with the given subset of fields replaced, updated at `now`.
pub open spec fn updated_record(
    t: Timer,
    execute_at: Option<i64>,
    callback: Option<CallbackConfig>,
    metadata: Option<String>,
    now: i64,
) -> Timer {
    Timer {
        updated_at: now,
        execute_at: match execute_at {
            Some(e) => e,
            None => t.execute_at,
        },
        callback_type: match callback {
            Some(c) => c.kind(),
            None => t.callback_type,
        },
        callback_config: match callback {
            Some(c) => c,
            None => t.callback_config,
        },
        metadata: match metadata {
            Some(md) => Some(md),
            None => t.metadata,
        },
        ..t
    }
}

pub open spec fn update_effect(
    m: Records,
    id: TimerId,
    execute_at: Option<i64>,
    callback: Option<CallbackConfig>,
    metadata: Option<String>,
    now: i64,
) -> (Result<Timer, StoreError>, Records) {
    if !m.contains_key(id) {
        (Err(StoreError::NotFound), m)
    } else if m[id].status.terminal() {
        (Err(StoreError::TerminalState), m)
    } else {
        let t = updated_record(m[id], execute_at, callback, metadata, now);
        (Ok(t), m.insert(id, t))
    }
}

pub open spec fn cancel_effect(m: Records, id: TimerId, now: i64) -> (
    Result<Timer, StoreError>,
    Records,
) {
    if !m.contains_key(id) {
        (Err(StoreError::NotFound), m)
    } else if m[id].status.terminal() {
        (Err(StoreError::TerminalState), m)
    } else {
        let t = Timer { status: TimerStatus::Canceled, updated_at: now, ..m[id] };
        (Ok(t), m.insert(id, t))
    }
}

/// A record can be claimed when it is `pending` and due by its durable
/// instant; a cached snapshot that has since been rescheduled, canceled or
/// claimed elsewhere is refused.
pub open spec fn claimable(m: Records, id: TimerId, now: i64) -> bool {
    m.contains_key(id) && m[id].status == TimerStatus::Pending && m[id].execute_at <= now
}

pub open spec fn claimed_record(t: Timer, now: i64) -> Timer {
    Timer { status: TimerStatus::Executing, updated_at: now, ..t }
}

/// The claim: a compare-and-set from `pending` to `executing`.
pub open spec fn claim_effect(m: Records, id: TimerId, now: i64) -> (bool, Records) {
    if claimable(m, id, now) {
        (true, m.insert(id, claimed_record(m[id], now)))
    } else {
        (false, m)
    }
}

/// Recording success. A record that is already terminal is left alone and
/// the call succeeds, so that recording twice is harmless; a record that was
/// never claimed is refused.
pub open spec fn complete_effect(m: Records, id: TimerId, now: i64) -> (
    Result<(), StoreError>,
    Records,
) {
    if !m.contains_key(id) {
        (Err(StoreError::NotFound), m)
    } else if m[id].status == TimerStatus::Pending {
        (Err(StoreError::NotExecuting), m)
    } else if m[id].status.terminal() {
        (Ok(()), m)
    } else {
        (
            Ok(()),
            m.insert(
                id,
                Timer {
                    status: TimerStatus::Completed,
                    executed_at: Some(now),
                    updated_at: now,
                    ..m[id]
                },
            ),
        )
    }
}

/// Recording failure, with the same rules as recording success.
pub open spec fn fail_effect(m: Records, id: TimerId, error: String, now: i64) -> (
    Result<(), StoreError>,
    Records,
) {
    if !m.contains_key(id) {
        (Err(StoreError::NotFound), m)
    } else if m[id].status == TimerStatus::Pending {
        (Err(StoreError::NotExecuting), m)
    } else if m[id].status.terminal() {
        (Ok(()), m)
    } else {
        (
            Ok(()),
            m.insert(
                id,
                Timer {
                    status: TimerStatus::Failed,
                    last_error: Some(error),
                    executed_at: Some(now),
                    updated_at: now,
                    ..m[id]
                },
            ),
        )
    }
}

/// Whether a record belongs to the load window at `now`: pending, and due in
/// `(now - lookback, now + lookahead]`.
pub open spec fn in_window(t: Timer, now: i64, lookback: i64, lookahead: i64) -> bool {
    crate::table::selected(t, now - lookback, now + lookahead, true)
}

/// The field a listing is sorted by.
#[derive(Clone, Copy, Debug, PartialEq, Eq, Structural)]
pub enum SortField {
    CreatedAt,
    ExecuteAt,
}

/// The direction of a listing.
#[derive(Clone, Copy, Debug, PartialEq, Eq, Structural)]
pub enum SortOrder {
    Asc,
    Desc,
}

pub open spec fn sort_key(t: Timer, field: SortField) -> i64 {
    match field {
        SortField::CreatedAt => t.created_at,
        SortField::ExecuteAt => t.execute_at,
    }
}

/// The order of a listing: by the sort field in the chosen direction, and by
/// id where the field ties.
pub open spec fn listed_before(a: Timer, b: Timer, field: SortField, order: SortOrder) -> bool {
    let ka = sort_key(a, field);
    let kb = sort_key(b, field);
    match order {
        SortOrder::Asc => ka < kb || (ka == kb && a.id < b.id),
        SortOrder::Desc => ka > kb || (ka == kb && a.id < b.id),
    }
}

pub open spec fn listed_in_order(s: Seq<Timer>, field: SortField, order: SortOrder) -> bool {
    forall|i: int, j: int| 0 <= i < j < s.len() ==> listed_before(s[i], s[j], field, order)
}

pub open spec fn listed(t: Timer, status: Option<TimerStatus>) -> bool {
    match status {
        Some(st) => t.status == st,
        None => true,
    }
}

/// `s` lists exactly the records of `m` that pass the filter, in order.
pub open spec fn full_listing(
    m: Records,
    s: Seq<Timer>,
    status: Option<TimerStatus>,
    field: SortField,
    order: SortOrder,
) -> bool {
    &&& listed_in_order(s, field, order)
    &&& forall|i: int|
        0 <= i < s.len() ==> m.contains_key(#[trigger] s[i].id) && m[s[i].id] == s[i] && listed(
            s[i],
            status,
        )
    &&& forall|id: TimerId| #[trigger] m.contains_key(id) && listed(m[id], status) ==> s.contains(m[id])
}

proof fn lemma_ordered_eq(a: Seq<Timer>, b: Seq<Timer>, field: SortField, order: SortOrder)
    requires
        listed_in_order(a, field, order),
        listed_in_order(b, field, order),
        forall|x: Timer| a.contains(x) <==> b.contains(x),
    ensures
        a == b,
    decreases a.len(),
{
    if a.len() == 0 {
        if b.len() > 0 {
            assert(b.contains(b[0]));
        }
        assert(a =~= b);
    } else {
        assert(a.contains(a[0]));
        let k = choose|k: int| 0 <= k < b.len() && b[k] == a[0];
        assert(b.contains(b[0]));
        let j = choose|j: int| 0 <= j < a.len() && a[j] == b[0];
        if k > 0 {
            assert(listed_before(b[0], b[k], field, order));
            if j > 0 {
                assert(listed_before(a[0], a[j], field, order));
            }
        }
        assert(b[0] == a[0]);
        let a1 = a.drop_first();
        let b1 = b.drop_first();
        assert forall|x: Timer| a1.contains(x) <==> b1.contains(x) by {
            if a1.contains(x) {
                let i = choose|i: int| 0 <= i < a1.len() && a1[i] == x;
                assert(a[i + 1] == x);
                assert(listed_before(a[0], a[i + 1], field, order));
                assert(b.contains(x));
                let i2 = choose|i2: int| 0 <= i2 < b.len() && b[i2] == x;
                assert(i2 != 0);
                assert(b1[i2 - 1] == x);
            }
            if b1.contains(x) {
                let i = choose|i: int| 0 <= i < b1.len() && b1[i] == x;
                assert(b[i + 1] == x);
                assert(listed_before(b[0], b[i + 1], field, order));
                assert(a.contains(x));
                let i2 = choose|i2: int| 0 <= i2 < a.len() && a[i2] == x;
                assert(i2 != 0);
                assert(a1[i2 - 1] == x);
            }
        }
        lemma_ordered_eq(a1, b1, field, order);
        assert(a.len() == b.len());
        assert forall|i: int| 0 <= i < a.len() implies a[i] == b[i] by {
            if i > 0 {
                assert(a[i] == a1[i - 1]);
                assert(b[i] == b1[i - 1]);
            }
        }
        assert(a =~= b);
    }
}

/// A listing is determined by the store, the filter and the order: no two
/// differ.
pub proof fn lemma_listing_unique(
    m: Records,
    s1: Seq<Timer>,
    s2: Seq<Timer>,
    status: Option<TimerStatus>,
    field: SortField,
    order: SortOrder,
)
    requires
        full_listing(m, s1, status, field, order),
        full_listing(m, s2, status, field, order),
    ensures
        s1 == s2,
{
    assert forall|x: Timer| s1.contains(x) <==> s2.contains(x) by {
        if s1.contains(x) {
            let i = choose|i: int| 0 <= i < s1.len() && s1[i] == x;
            assert(m.contains_key(s1[i].id) && m[s1[i].id] == s1[i]);
        }
        if s2.contains(x) {
            let i = choose|i: int| 0 <= i < s2.len() && s2[i] == x;
            assert(m.contains_key(s2[i].id) && m[s2[i].id] == s2[i]);
        }
    }
    lemma_ordered_eq(s1, s2, field, order);
}

fn before_exec(a: &Timer, b: &Timer, field: SortField, order: SortOrder) -> (r: bool)
    ensures
        r == listed_before(*a, *b, field, order),
{
    let (ka, kb) = match field {
        SortField::CreatedAt => (a.created_at, b.created_at),
        SortField::ExecuteAt => (a.execute_at, b.execute_at),
    };
    match order {
        SortOrder::Asc => ka < kb || (ka == kb && a.id < b.id),
        SortOrder::Desc => ka > kb || (ka == kb && a.id < b.id),
    }
}

fn insert_listed(v: &mut Vec<Timer>, t: Timer, field: SortField, order: SortOrder)
    requires
        listed_in_order(old(v)@, field, order),
        forall|i: int| 0 <= i < old(v)@.len() ==> old(v)@[i].id != t.id,
    ensures
        listed_in_order(final(v)@, field, order),
        exists|k: int| 0 <= k <= old(v)@.len() && final(v)@ == old(v)@.insert(k, t),
{
    let mut k: usize = v.len();
    while k > 0 && before_exec(&t, &v[k - 1], field, order)
        invariant
            k <= v@.len(),
            listed_in_order(v@, field, order),
            forall|i: int| 0 <= i < v@.len() ==> v@[i].id != t.id,
            forall|j: int| k <= j < v@.len() ==> listed_before(t, v@[j], field, order),
        decreases k,
    {
        k = k - 1;
    }
    let ghost before = v@;
    v.insert(k, t);
    proof {
        let after = v@;
        if k > 0 {
            assert(!listed_before(t, before[k - 1], field, order));
            assert(before[k - 1].id != t.id);
            assert(listed_before(before[k - 1], t, field, order));
        }
        assert forall|i: int, j: int| 0 <= i < j < after.len() implies listed_before(
            after[i],
            after[j],
            field,
            order,
        ) by {
            if j < k {
            } else if j == k {
                assert(listed_before(before[i], before[k - 1], field, order) || i == k - 1);
            } else if i < k {
                assert(after[j] == before[j - 1]);
                assert(listed_before(before[i], before[k - 1], field, order) || i == k - 1);
                assert(listed_before(t, before[j - 1], field, order));
            } else if i == k {
                assert(after[j] == before[j - 1]);
            } else {
                assert(after[j] == before[j - 1]);
                assert(after[i] == before[i - 1]);
            }
        }
    }
}

pub open spec fn page_start(len: nat, offset: int) -> int {
    if offset < len { offset } else { len as int }
}

pub open spec fn page_end(len: nat, offset: int, limit: int) -> int {
    let start = page_start(len, offset);
    if start + limit <= len { start + limit } else { len as int }
}

/// A record left `executing` by an engine that stopped: its instant lies
/// more than `grace` before `now`.
pub open spec fn orphaned(t: Timer, now: i64, grace: i64) -> bool {
    t.status == TimerStatus::Executing && t.execute_at < now - grace
}

/// `after` is `before` failed at `now` with the reason `engine restart`.
pub open spec fn reaped(before: Timer, after: Timer, now: i64) -> bool {
    &&& after.status == TimerStatus::Failed
    &&& after.last_error matches Some(e) && e@ == "engine restart"@
    &&& after.executed_at == Some(now)
    &&& after == Timer {
        status: TimerStatus::Failed,
        last_error: after.last_error,
        executed_at: Some(now),
        updated_at: now,
        ..before
    }
}

/// All records are well formed.
pub open spec fn records_wf(m: Records) -> bool {
    forall|id: TimerId| #[trigger] m.contains_key(id) ==> m[id].id == id && m[id].wf()
}

/// Relies on `uuid::Uuid::new_v4`: a random identifier. Nothing is promised
/// of its value.
#[verifier::external_body]
fn fresh_id() -> (r: TimerId) {
    uuid::Uuid::new_v4().as_u128()
}

/// An in-process store of timer records: the source of truth for their
/// lifecycle, and the only place where transitions happen.
pub struct TimerStore {
    table: TimerTable,
}

impl View for TimerStore {
    type V = Records;

    closed spec fn view(&self) -> Records {
        self.table@
    }
}

impl TimerStore {
    pub closed spec fn wf(self) -> bool {
        self.table.wf() && records_wf(self.table@)
    }

    /// Every record held satisfies the record invariants.
    pub proof fn lemma_wf(self)
        requires
            self.wf(),
        ensures
            records_wf(self@),
            self@.dom().finite(),
    {
        self.table.lemma_rows();
    }

    pub fn new() -> (r: TimerStore)
        ensures
            r.wf(),
            r@ == Records::empty(),
    {
        TimerStore { table: TimerTable::new() }
    }

    /// The record with the given id, if any.
    pub fn get(&self, id: TimerId) -> (r: Option<Timer>)
        requires
            self.wf(),
        ensures
            r == (if self@.contains_key(id) { Some(self@[id]) } else { None }),
    {
        match self.table.index_of(id) {
            Some(i) => Some(self.table.at(i).copy()),
            None => None,
        }
    }

    /// Inserts a new `pending` record under a caller-chosen id; refuses an id
    /// that is taken.
    pub fn create_with_id(
        &mut self,
        id: TimerId,
        execute_at: i64,
        callback: CallbackConfig,
        metadata: Option<String>,
        now: i64,
    ) -> (r: Result<Timer, StoreError>)
        requires
            old(self).wf(),
        ensures
            final(self).wf(),
            (r, final(self)@) == create_effect(old(self)@, id, execute_at, callback, metadata, now),
    {
        match self.table.index_of(id) {
            Some(_) => Err(StoreError::Conflict),
            None => {
                let callback_type = callback.callback_type();
                let t = Timer {
                    id,
                    created_at: now,
                    updated_at: now,
                    execute_at,
                    callback_type,
                    callback_config: callback,
                    status: TimerStatus::Pending,
                    last_error: None,
                    executed_at: None,
                    metadata,
                };
                let out = t.copy();
                self.table.insert(t);
                Ok(out)
            },
        }
    }

    /// Inserts a new `pending` record under a fresh random id. It fails, with
    /// `Conflict`, only where that id is taken already.
    pub fn create(
        &mut self,
        execute_at: i64,
        callback: CallbackConfig,
        metadata: Option<String>,
        now: i64,
    ) -> (r: Result<Timer, StoreError>)
        requires
            old(self).wf(),
        ensures
            final(self).wf(),
            r matches Ok(t) ==> (r, final(self)@) == create_effect(
                old(self)@,
                t.id,
                execute_at,
                callback,
                metadata,
                now,
            ),
            r is Err ==> r == Err::<Timer, StoreError>(StoreError::Conflict) && final(self)@ == old(
                self,
            )@,
            r is Err ==> exists|k: TimerId| #[trigger] old(self)@.contains_key(k),
    {
        let id = fresh_id();
        self.create_with_id(id, execute_at, callback, metadata, now)
    }

    /// Applies the given subset of changes to a record that is not terminal.
    pub fn update(
        &mut self,
        id: TimerId,
        execute_at: Option<i64>,
        callback: Option<CallbackConfig>,
        metadata: Option<String>,
        now: i64,
    ) -> (r: Result<Timer, StoreError>)
        requires
            old(self).wf(),
        ensures
            final(self).wf(),
            (r, final(self)@) == update_effect(old(self)@, id, execute_at, callback, metadata, now),
    {
        proof {
            self.table.lemma_rows();
        }
        match self.table.index_of(id) {
            None => Err(StoreError::NotFound),
            Some(i) => {
                if self.table.at(i).status.is_terminal() {
                    return Err(StoreError::TerminalState);
                }
                let mut t = self.table.at(i).copy();
                match execute_at {
                    Some(e) => {
                        t.execute_at = e;
                    },
                    None => {},
                }
                match callback {
                    Some(c) => {
                        t.callback_type = c.callback_type();
                        t.callback_config = c;
                    },
                    None => {},
                }
                match metadata {
                    Some(md) => {
                        t.metadata = Some(md);
                    },
                    None => {},
                }
                t.updated_at = now;
                let out = t.copy();
                self.table.set_at(i, t);
                Ok(out)
            },
        }
    }

    /// Cancels a record that is `pending` or `executing`; terminal records
    /// are refused.
    pub fn cancel(&mut self, id: TimerId, now: i64) -> (r: Result<Timer, StoreError>)
        requires
            old(self).wf(),
        ensures
            final(self).wf(),
            (r, final(self)@) == cancel_effect(old(self)@, id, now),
    {
        proof {
            self.table.lemma_rows();
        }
        match self.table.index_of(id) {
            None => Err(StoreError::NotFound),
            Some(i) => {
                if self.table.at(i).status.is_terminal() {
                    return Err(StoreError::TerminalState);
                }
                let mut t = self.table.at(i).copy();
                t.status = TimerStatus::Canceled;
                t.updated_at = now;
                let out = t.copy();
                self.table.set_at(i, t);
                Ok(out)
            },
        }
    }

    /// Claims a due record for dispatch: true, and the record `executing`,
    /// exactly when it was `pending` and its instant has come.
    pub fn claim_due(&mut self, id: TimerId, now: i64) -> (r: bool)
        requires
            old(self).wf(),
        ensures
            final(self).wf(),
            (r, final(self)@) == claim_effect(old(self)@, id, now),
    {
        proof {
            self.table.lemma_rows();
        }
        match self.table.index_of(id) {
            None => false,
            Some(i) => {
                if self.table.at(i).status != TimerStatus::Pending || self.table.at(i).execute_at
                    > now {
                    return false;
                }
                let mut t = self.table.at(i).copy();
                t.status = TimerStatus::Executing;
                t.updated_at = now;
                self.table.set_at(i, t);
                true
            },
        }
    }

    /// The pending records due within `(now - lookback, now + lookahead]`,
    /// earliest first.
    pub fn load_window(&self, now: i64, lookback: i64, lookahead: i64) -> (r: Vec<Timer>)
        requires
            self.wf(),
        ensures
            sorted_by_due(r@),
            unique_ids(r@),
            forall|i: int|
                0 <= i < r@.len() ==> self@.contains_key(#[trigger] r@[i].id) && self@[r@[i].id]
                    == r@[i] && in_window(r@[i], now, lookback, lookahead),
            forall|id: TimerId|
                #[trigger] self@.contains_key(id) && in_window(self@[id], now, lookback, lookahead)
                    ==> r@.contains(self@[id]),
    {
        let lo = (now as i128) - (lookback as i128);
        let hi = (now as i128) + (lookahead as i128);
        self.table.select(lo, hi, true)
    }

    /// All records that pass the status filter, in listing order.
    pub fn list_all(&self, status: Option<TimerStatus>, field: SortField, order: SortOrder) -> (r:
        Vec<Timer>)
        requires
            self.wf(),
        ensures
            full_listing(self@, r@, status, field, order),
    {
        proof {
            self.table.lemma_rows();
        }
        let ghost rows = self.table.rows();
        let mut r: Vec<Timer> = Vec::new();
        let ghost mut src: Seq<int> = Seq::empty();
        let n = self.table.len();
        let mut i: usize = 0;
        while i < n
            invariant
                self.table.wf(),
                rows == self.table.rows(),
                n == rows.len(),
                i <= n,
                unique_ids(rows),
                listed_in_order(r@, field, order),
                src.len() == r@.len(),
                forall|a: int|
                    0 <= a < src.len() ==> 0 <= #[trigger] src[a] < i && rows[src[a]] == r@[a]
                        && listed(rows[src[a]], status),
                forall|a: int, b: int| 0 <= a < b < src.len() ==> src[a] != src[b],
                forall|j: int|
                    0 <= j < i && listed(#[trigger] rows[j], status) ==> r@.contains(rows[j]),
            decreases n - i,
        {
            let t = self.table.at(i);
            let pass = match status {
                Some(st) => t.status == st,
                None => true,
            };
            if pass {
                let ghost before = r@;
                let ghost src0 = src;
                proof {
                    assert forall|a: int| 0 <= a < before.len() implies before[a].id != rows[i as int].id by {
                        assert(rows[src0[a]] == before[a]);
                        assert(src0[a] < i);
                    }
                }
                insert_listed(&mut r, t.copy(), field, order);
                proof {
                    let k = choose|k: int| 0 <= k <= before.len() && r@ == before.insert(k, rows[i as int]);
                    src = src0.insert(k, i as int);
                    assert forall|a: int| 0 <= a < src.len() implies 0 <= #[trigger] src[a] < i + 1 && rows[src[a]] == r@[a]
                        && listed(rows[src[a]], status) by {
                        if a < k {
                            assert(r@[a] == before[a] && src[a] == src0[a]);
                        } else if a == k {
                            assert(r@[a] == rows[i as int] && src[a] == i);
                        } else {
                            assert(r@[a] == before[a - 1] && src[a] == src0[a - 1]);
                        }
                    }
                    assert forall|a: int, b: int| 0 <= a < b < src.len() implies src[a] != src[b] by {
                        if a < k {
                            assert(src[a] == src0[a]);
                        } else if a > k {
                            assert(src[a] == src0[a - 1]);
                        }
                        if b < k {
                            assert(src[b] == src0[b]);
                        } else if b > k {
                            assert(src[b] == src0[b - 1]);
                        }
                        if a != k && b != k {
                            let a0 = if a < k { a } else { a - 1 };
                            let b0 = if b < k { b } else { b - 1 };
                            assert(a0 < b0);
                        }
                    }
                    assert forall|j: int| 0 <= j < i + 1 && listed(#[trigger] rows[j], status) implies r@.contains(rows[j]) by {
                        if j == i {
                            assert(r@[k] == rows[j]);
                        } else {
                            assert(before.contains(rows[j]));
                            let a = choose|a: int| 0 <= a < before.len() && before[a] == rows[j];
                            if a < k {
                                assert(r@[a] == rows[j]);
                            } else {
                                assert(r@[a + 1] == rows[j]);
                            }
                        }
                    }
                }
            } else {
                proof {
                    assert forall|a: int| 0 <= a < src.len() implies 0 <= #[trigger] src[a] < i + 1 && rows[src[a]] == r@[a]
                        && listed(rows[src[a]], status) by {}
                    assert forall|j: int| 0 <= j < i + 1 && listed(#[trigger] rows[j], status) implies r@.contains(rows[j]) by {
                        if j == i {
                            assert(rows[j] == *t);
                        }
                    }
                }
            }
            i = i + 1;
        }
        proof {
            self.table.lemma_rows();
            assert forall|a: int, b: int| 0 <= a < b < r@.len() implies r@[a].id != r@[b].id by {
                assert(rows[src[a]] == r@[a]);
                assert(rows[src[b]] == r@[b]);
                assert(src[a] != src[b]);
            }
            assert forall|a: int| 0 <= a < r@.len() implies self@.contains_key(#[trigger] r@[a].id) && self@[r@[a].id]
                    == r@[a] && listed(r@[a], status) by {
                assert(rows[src[a]] == r@[a]);
                assert(rows[src[a]] == self.table.rows()[src[a]]);
            }
            assert forall|id: TimerId| #[trigger] self@.contains_key(id) && listed(self@[id], status)
                    implies r@.contains(self@[id]) by {
                let j = choose|j: int| 0 <= j < self.table.rows().len() && self.table.rows()[j].id == id;
                assert(self.table.rows()[j] == rows[j]);
            }
        }
        r
    }

    /// One page of a listing: up to `limit` records after the first
    /// `offset`, and the number of all records that pass the filter.
    pub fn list(
        &self,
        status: Option<TimerStatus>,
        field: SortField,
        order: SortOrder,
        limit: i64,
        offset: i64,
    ) -> (r: (Vec<Timer>, usize))
        requires
            self.wf(),
            limit >= 0,
            offset >= 0,
        ensures
            exists|s: Seq<Timer>|
                full_listing(self@, s, status, field, order) && r.1 == s.len() && r.0@ == s.subrange(
                    page_start(s.len(), offset as int),
                    page_end(s.len(), offset as int, limit as int),
                ),
    {
        let all = self.list_all(status, field, order);
        let total = all.len();
        let start: usize = if (offset as i128) < (total as i128) {
            offset as usize
        } else {
            total
        };
        let end: usize = if (limit as i128) <= ((total - start) as i128) {
            start + limit as usize
        } else {
            total
        };
        let mut page: Vec<Timer> = Vec::new();
        let mut i: usize = start;
        while i < end
            invariant
                start <= i <= end <= total == all@.len(),
                page@ == all@.subrange(start as int, i as int),
            decreases end - i,
        {
            page.push(all[i].copy());
            i = i + 1;
        }
        (page, total)
    }

    /// Recovery at start-up: every record left `executing` whose instant lies
    /// more than `grace` before `now` is failed with the reason
    /// `engine restart`; nothing else changes.
    pub fn reap_orphans(&mut self, now: i64, grace: i64)
        requires
            old(self).wf(),
        ensures
            final(self).wf(),
            forall|id: TimerId| #[trigger]
                final(self)@.contains_key(id) == old(self)@.contains_key(id),
            forall|id: TimerId|
                #[trigger] old(self)@.contains_key(id) ==> (if orphaned(old(self)@[id], now, grace) {
                    reaped(old(self)@[id], final(self)@[id], now)
                } else {
                    final(self)@[id] == old(self)@[id]
                }),
    {
        proof {
            self.table.lemma_rows();
            reveal_strlit("engine restart");
        }
        let ghost m0 = self@;
        let ghost rows0 = self.table.rows();
        let n = self.table.len();
        let lo = (now as i128) - (grace as i128);
        let mut i: usize = 0;
        while i < n
            invariant
                self.wf(),
                n == rows0.len(),
                i <= n,
                lo == now - grace,
                unique_ids(rows0),
                self.table.rows().len() == n,
                forall|j: int| 0 <= j < n ==> #[trigger] self.table.rows()[j].id == rows0[j].id,
                forall|j: int|
                    0 <= j < n ==> (if j < i && orphaned(rows0[j], now, grace) {
                        reaped(rows0[j], #[trigger] self.table.rows()[j], now)
                    } else {
                        self.table.rows()[j] == rows0[j]
                    }),
                "engine restart"@.len() > 0,
            decreases n - i,
        {
            let t = self.table.at(i);
            if t.status == TimerStatus::Executing && (t.execute_at as i128) < lo {
                let mut f = t.copy();
                f.status = TimerStatus::Failed;
                f.last_error = Some(String::from_str("engine restart"));
                f.executed_at = Some(now);
                f.updated_at = now;
                proof {
                    self.table.lemma_rows();
                    assert(self@.contains_key(f.id));
                }
                self.table.set_at(i, f);
                proof {
                    assert forall|id: TimerId| #[trigger] self.table@.contains_key(id) implies self.table@[id].id == id && self.table@[id].wf() by {
                        self.table.lemma_keys();
                    }
                }
            }
            i = i + 1;
        }
        proof {
            self.table.lemma_rows();
            assert forall|id: TimerId| #[trigger] self@.contains_key(id) == m0.contains_key(id) by {
                if self@.contains_key(id) {
                    let j = choose|j: int| 0 <= j < n && self.table.rows()[j].id == id;
                    assert(rows0[j].id == id);
                    assert(m0.contains_key(rows0[j].id));
                }
                if m0.contains_key(id) {
                    let j = choose|j: int| 0 <= j < n && rows0[j].id == id;
                    assert(self.table.rows()[j].id == id);
                }
            }
            assert forall|id: TimerId|
                #[trigger] m0.contains_key(id) implies (if orphaned(m0[id], now, grace) {
                    reaped(m0[id], self@[id], now)
                } else {
                    self@[id] == m0[id]
                }) by {
                let j = choose|j: int| 0 <= j < n && rows0[j].id == id;
                assert(m0[rows0[j].id] == rows0[j]);
                assert(self.table.rows()[j].id == id);
                assert(self@[self.table.rows()[j].id] == self.table.rows()[j]);
            }
        }
    }

    /// Records that the dispatch of a claimed record succeeded.
    pub fn mark_completed(&mut self, id: TimerId, now: i64) -> (r: Result<(), StoreError>)
        requires
            old(self).wf(),
        ensures
            final(self).wf(),
            (r, final(self)@) == complete_effect(old(self)@, id, now),
    {
        proof {
            self.table.lemma_rows();
        }
        match self.table.index_of(id) {
            None => Err(StoreError::NotFound),
            Some(i) => {
                let status = self.table.at(i).status;
                if status == TimerStatus::Pending {
                    return Err(StoreError::NotExecuting);
                }
                if status.is_terminal() {
                    return Ok(());
                }
                let mut t = self.table.at(i).copy();
                t.status = TimerStatus::Completed;
                t.executed_at = Some(now);
                t.updated_at = now;
                self.table.set_at(i, t);
                Ok(())
            },
        }
    }

    /// Records that the dispatch of a claimed record failed, and why. The
    /// reason is never empty: a failed record always says what went wrong.
    pub fn mark_failed(&mut self, id: TimerId, error: String, now: i64) -> (r: Result<
        (),
        StoreError,
    >)
        requires
            old(self).wf(),
            error@.len() > 0,
        ensures
            final(self).wf(),
            (r, final(self)@) == fail_effect(old(self)@, id, error, now),
    {
        proof {
            self.table.lemma_rows();
        }
        match self.table.index_of(id) {
            None => Err(StoreError::NotFound),
            Some(i) => {
                let status = self.table.at(i).status;
                if status == TimerStatus::Pending {
                    return Err(StoreError::NotExecuting);
                }
                if status.is_terminal() {
                    return Ok(());
                }
                let mut t = self.table.at(i).copy();
                t.status = TimerStatus::Failed;
                t.last_error = Some(error);
                t.executed_at = Some(now);
                t.updated_at = now;
                self.table.set_at(i, t);
                Ok(())
            },
        }
    }
}

} // verus!
