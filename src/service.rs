use vstd::prelude::*;

use crate::api::{
    check_cancel, check_create, check_update, clamp_limit, clamp_offset, create_problem,
    sort_field_of, sort_order_of, status_filter_ok, status_filter_valid, status_refusal,
    update_problem, ApiError, CancelTimerResponse, CreateTimerRequest, ListTimersQuery,
    UpdateTimerRequest,
};
use crate::callback::{copy_text, CallbackConfig};
use crate::status::TimerStatus;
use crate::store::{
    cancel_effect, fresh_record, full_listing, page_end, page_start, update_effect, TimerStore,
};
use crate::timer::{Timer, TimerId, TimerResponse};

verus! {

/// The full view of a timer, as the admission API returns it.
#[derive(Clone, Debug, PartialEq, Eq)]
pub struct TimerDetailResponse {
    pub id: TimerId,
    pub created_at: i64,
    pub updated_at: i64,
    pub execute_at: i64,
    pub callback: CallbackConfig,
    pub status: String,
    pub last_error: Option<String>,
    pub executed_at: Option<i64>,
    pub metadata: Option<String>,
}

/// One page of a listing.
#[derive(Clone, Debug, PartialEq, Eq)]
pub struct ListTimersResponse {
    pub timers: Vec<TimerResponse>,
    pub total: i64,
    pub limit: i64,
    pub offset: i64,
}

impl TimerDetailResponse {
    /// `self` is the full view of `t`.
    pub open spec fn details(self, t: Timer) -> bool {
        &&& self.id == t.id
        &&& self.created_at == t.created_at
        &&& self.updated_at == t.updated_at
        &&& self.execute_at == t.execute_at
        &&& self.callback == t.callback_config
        &&& self.status@ == t.status.name()
        &&& self.last_error == t.last_error
        &&& self.executed_at == t.executed_at
        &&& self.metadata == t.metadata
    }

    pub fn of(t: &Timer) -> (r: TimerDetailResponse)
        ensures
            r.details(*t),
    {
        TimerDetailResponse {
            id: t.id,
            created_at: t.created_at,
            updated_at: t.updated_at,
            execute_at: t.execute_at,
            callback: t.callback_config.copy(),
            status: t.status.to_string(),
            last_error: copy_text(&t.last_error),
            executed_at: t.executed_at,
            metadata: copy_text(&t.metadata),
        }
    }
}

/// Admits a new timer into the store: validation first (a refusal leaves
/// the store as it was), then a fresh `pending` record. A valid request
/// fails only where the random id drawn is taken, so never on an empty
/// store.
pub fn create_timer(
    store: &mut TimerStore,
    req: CreateTimerRequest,
    now: i64,
    pubsub_available: bool,
) -> (r: Result<TimerResponse, ApiError>)
    requires
        old(store).wf(),
    ensures
        final(store).wf(),
        create_problem(req.execute_at, req.callback, now, pubsub_available) matches Some(m) ==> (r matches Err(e)
            && e.is_validation(m) && final(store)@ == old(store)@),
        create_problem(req.execute_at, req.callback, now, pubsub_available) is None ==> (match r {
            Ok(resp) => !old(store)@.contains_key(resp.id) && final(store)@ == old(store)@.insert(
                resp.id,
                fresh_record(resp.id, req.execute_at, req.callback, req.metadata, now),
            ) && resp.summarizes(final(store)@[resp.id]),
            Err(e) => e.is_internal() && final(store)@ == old(store)@,
        }),
        create_problem(req.execute_at, req.callback, now, pubsub_available) is None && r is Err
            ==> exists|k: TimerId| #[trigger] old(store)@.contains_key(k),
{
    check_create(&req, now, pubsub_available)?;
    match store.create(req.execute_at, req.callback, req.metadata, now) {
        Ok(t) => Ok(t.to_response()),
        Err(e) => Err(ApiError::internal(e.message().as_str())),
    }
}

/// The full view of one timer, or 404.
pub fn get_timer(store: &TimerStore, id: TimerId) -> (r: Result<TimerDetailResponse, ApiError>)
    requires
        store.wf(),
    ensures
        r is Ok <==> store@.contains_key(id),
        r matches Ok(d) ==> d.details(store@[id]),
        r matches Err(e) ==> e.is_not_found(),
{
    match store.get(id) {
        Some(t) => Ok(TimerDetailResponse::of(&t)),
        None => Err(ApiError::not_found()),
    }
}

/// Changes a `pending` timer: 404 for an unknown id, 400 for a
/// refused change (the store is then as it was), else the changed record.
pub fn update_timer(
    store: &mut TimerStore,
    id: TimerId,
    req: UpdateTimerRequest,
    now: i64,
    pubsub_available: bool,
) -> (r: Result<TimerResponse, ApiError>)
    requires
        old(store).wf(),
    ensures
        final(store).wf(),
        !old(store)@.contains_key(id) ==> (r matches Err(e) && e.is_not_found() && final(store)@
            == old(store)@),
        old(store)@.contains_key(id) ==> (match update_problem(
            old(store)@[id].status,
            req.execute_at,
            req.callback,
            now,
            pubsub_available,
        ) {
            Some(m) => r matches Err(e) && e.is_validation(m) && final(store)@ == old(store)@,
            None => {
                let (res, m) = update_effect(
                    old(store)@,
                    id,
                    req.execute_at,
                    req.callback,
                    req.metadata,
                    now,
                );
                final(store)@ == m && (res matches Ok(t) && (r matches Ok(resp) && resp.summarizes(t)))
            },
        }),
{
    let current = match store.get(id) {
        Some(t) => t,
        None => {
            return Err(ApiError::not_found());
        },
    };
    check_update(current.status, &req, now, pubsub_available)?;
    match store.update(id, req.execute_at, req.callback, req.metadata, now) {
        Ok(t) => Ok(t.to_response()),
        Err(e) => Err(ApiError::internal(e.message().as_str())),
    }
}

/// Cancels a timer: 404 for an unknown id, 400 for a terminal one (the
/// store is then as it was), else the canceled record's id and status.
pub fn cancel_timer(store: &mut TimerStore, id: TimerId, now: i64) -> (r: Result<
    CancelTimerResponse,
    ApiError,
>)
    requires
        old(store).wf(),
    ensures
        final(store).wf(),
        !old(store)@.contains_key(id) ==> (r matches Err(e) && e.is_not_found() && final(store)@
            == old(store)@),
        old(store)@.contains_key(id) && old(store)@[id].status.terminal() ==> (r matches Err(e)
            && e.is_validation(status_refusal("cancel"@, old(store)@[id].status)) && final(store)@
            == old(store)@),
        old(store)@.contains_key(id) && !old(store)@[id].status.terminal() ==> (final(store)@
            == cancel_effect(old(store)@, id, now).1 && (r matches Ok(c) && c.id == id && c.status@
            == TimerStatus::Canceled.name())),
{
    let current = match store.get(id) {
        Some(t) => t,
        None => {
            return Err(ApiError::not_found());
        },
    };
    check_cancel(current.status)?;
    proof {
        store.lemma_wf();
    }
    match store.cancel(id, now) {
        Ok(t) => Ok(CancelTimerResponse { id: t.id, status: t.status.to_string() }),
        Err(e) => Err(ApiError::internal(e.message().as_str())),
    }
}

/// One page of the listing that the query asks for.
pub fn list_timers(store: &TimerStore, query: &ListTimersQuery) -> (r: Result<
    ListTimersResponse,
    ApiError,
>)
    requires
        store.wf(),
    ensures
        r is Err <==> (sort_field_of(query.sort) is None || sort_order_of(query.order) is None
            || !status_filter_valid(query.status)),
        r matches Err(e) ==> (if sort_field_of(query.sort) is None {
            e.is_validation("sort field must be 'created_at' or 'execute_at'"@)
        } else if sort_order_of(query.order) is None {
            e.is_validation("order must be 'asc' or 'desc'"@)
        } else {
            e.is_validation(
                "status must be one of: pending, executing, completed, failed, canceled"@,
            )
        }),
        r matches Ok(resp) ==> (resp.limit == clamp_limit(query.limit) && resp.offset
            == clamp_offset(query.offset) && exists|s: Seq<Timer>, f: Option<TimerStatus>|
            status_filter_ok(query.status, f) && #[trigger] full_listing(
                store@,
                s,
                f,
                sort_field_of(query.sort).unwrap(),
                sort_order_of(query.order).unwrap(),
            ) && resp.total == (if s.len() <= i64::MAX { s.len() as int } else { i64::MAX as int }) && resp.timers@.len() == page_end(
                s.len(),
                resp.offset as int,
                resp.limit as int,
            ) - page_start(s.len(), resp.offset as int) && forall|i: int|
                0 <= i < resp.timers@.len() ==> #[trigger] resp.timers@[i].summarizes(
                    s[page_start(s.len(), resp.offset as int) + i],
                )),
{
    let p = query.normalize()?;
    let (rows, total) = store.list(p.status, p.sort, p.order, p.limit, p.offset);
    let ghost s = choose|s: Seq<Timer>|
        full_listing(store@, s, p.status, p.sort, p.order) && total == s.len() && rows@
            == s.subrange(
            page_start(s.len(), p.offset as int),
            page_end(s.len(), p.offset as int, p.limit as int),
        );
    let mut timers: Vec<TimerResponse> = Vec::new();
    let mut i: usize = 0;
    while i < rows.len()
        invariant
            i <= rows@.len(),
            timers@.len() == i,
            forall|j: int| 0 <= j < i ==> #[trigger] timers@[j].summarizes(rows@[j]),
        decreases rows.len() - i,
    {
        timers.push(rows[i].to_response());
        i = i + 1;
    }
    let total_count: i64 = if (total as u128) <= (i64::MAX as u128) {
        total as i64
    } else {
        i64::MAX
    };
    let resp = ListTimersResponse { timers, total: total_count, limit: p.limit, offset: p.offset };
    proof {
        assert(status_filter_ok(query.status, p.status));
        assert(full_listing(
            store@,
            s,
            p.status,
            sort_field_of(query.sort).unwrap(),
            sort_order_of(query.order).unwrap(),
        ));
        assert forall|i: int| 0 <= i < resp.timers@.len() implies #[trigger] resp.timers@[i].summarizes(
            s[page_start(s.len(), resp.offset as int) + i],
        ) by {
            assert(rows@[i] == s[page_start(s.len(), p.offset as int) + i]);
        }
        assert(resp.total == (if s.len() <= i64::MAX { s.len() as int } else { i64::MAX as int }));
        assert(resp.timers@.len() == page_end(s.len(), resp.offset as int, resp.limit as int)
            - page_start(s.len(), resp.offset as int));
    }
    Ok(resp)
}

} // verus!
