use vstd::prelude::*;

use crate::callback::{callback_problem, check_callback, CallbackConfig};
use crate::status::{CallbackType, TimerStatus};
use crate::store::{SortField, SortOrder};
use crate::text::same_text;
use crate::timer::TimerId;

verus! {

/// Response codes of the envelope.
pub const CODE_SUCCESS: i32 = 0;
pub const CODE_INTERNAL: i32 = 1;
pub const CODE_VALIDATION: i32 = 2;
pub const CODE_NOT_FOUND: i32 = 3;
pub const CODE_UNAUTHORIZED: i32 = 4;

/// How far in the future, in milliseconds, a timer must at least be set.
pub const MIN_LEAD_MS: i64 = 5000;

/// The envelope of every response: a code (0 on success), a message, and the
/// data where there is any.
#[derive(Debug)]
pub struct ApiResponse<T> {
    pub code: i32,
    pub message: String,
    pub data: Option<T>,
}

impl<T> ApiResponse<T> {
    pub fn success(data: T) -> (r: Self)
        ensures
            r.code == CODE_SUCCESS,
            r.message@ == "success"@,
            r.data == Some(data),
    {
        ApiResponse { code: CODE_SUCCESS, message: String::from_str("success"), data: Some(data) }
    }

    pub fn error(code: i32, message: String) -> (r: ApiResponse<()>)
        ensures
            r.code == code,
            r.message == message,
            r.data is None,
    {
        ApiResponse { code, message, data: None }
    }
}

/// A refused request: the HTTP status, the envelope code and the message.
#[derive(Clone, Debug, PartialEq, Eq)]
pub struct ApiError {
    pub status: u16,
    pub code: i32,
    pub message: String,
}

impl ApiError {
    pub open spec fn is_validation(self, message: Seq<char>) -> bool {
        self.status == 400 && self.code == CODE_VALIDATION && self.message@ == message
    }

    pub open spec fn is_not_found(self) -> bool {
        self.status == 404 && self.code == CODE_NOT_FOUND && self.message@ == "timer not found"@
    }

    pub fn validation(message: String) -> (r: ApiError)
        ensures
            r.is_validation(message@),
    {
        ApiError { status: 400, code: CODE_VALIDATION, message }
    }

    pub open spec fn is_internal(self) -> bool {
        self.status == 500 && self.code == CODE_INTERNAL
    }

    /// A failure of the store, reported as `Database error: <reason>`.
    pub fn internal(reason: &str) -> (r: ApiError)
        ensures
            r.is_internal(),
            r.message@ == "Database error: "@ + reason@,
    {
        ApiError {
            status: 500,
            code: CODE_INTERNAL,
            message: String::from_str("Database error: ").concat(reason),
        }
    }

    pub fn not_found() -> (r: ApiError)
        ensures
            r.is_not_found(),
    {
        ApiError { status: 404, code: CODE_NOT_FOUND, message: String::from_str("timer not found") }
    }

    /// The envelope sent with the error status.
    pub fn to_response(&self) -> (r: ApiResponse<()>)
        ensures
            r.code == self.code,
            r.message == self.message,
            r.data is None,
    {
        ApiResponse::<()>::error(self.code, self.message.clone())
    }
}

pub open spec fn lead_message() -> Seq<char> {
    "execute_at must be at least 5 seconds in the future"@
}

/// Whether an instant is far enough in the future: strictly more than five
/// seconds after `now`.
pub open spec fn lead_ok(execute_at: i64, now: i64) -> bool {
    execute_at > now + MIN_LEAD_MS
}

/// Admits a firing instant only if it lies strictly more than five seconds
/// after `now`.
pub fn check_execute_at(execute_at: i64, now: i64) -> (r: Result<(), ApiError>)
    ensures
        r is Ok <==> lead_ok(execute_at, now),
        r matches Err(e) ==> e.is_validation(lead_message()),
{
    if (execute_at as i128) > (now as i128) + (MIN_LEAD_MS as i128) {
        Ok(())
    } else {
        Err(ApiError::validation(String::from_str("execute_at must be at least 5 seconds in the future")))
    }
}

/// The body of a create request.
#[derive(Clone, Debug, PartialEq, Eq)]
pub struct CreateTimerRequest {
    pub execute_at: i64,
    pub callback: CallbackConfig,
    pub metadata: Option<String>,
}

/// The body of an update request: the fields to change.
#[derive(Clone, Debug, PartialEq, Eq)]
pub struct UpdateTimerRequest {
    pub execute_at: Option<i64>,
    pub callback: Option<CallbackConfig>,
    pub metadata: Option<String>,
}

/// The answer to a cancel request.
#[derive(Clone, Debug, PartialEq, Eq)]
pub struct CancelTimerResponse {
    pub id: TimerId,
    pub status: String,
}

/// The refusal of a create or update request, if any: the instant first,
/// then the callback.
pub open spec fn create_problem(
    execute_at: i64,
    callback: CallbackConfig,
    now: i64,
    pubsub_available: bool,
) -> Option<Seq<char>> {
    if !lead_ok(execute_at, now) {
        Some(lead_message())
    } else {
        match callback_problem(callback, pubsub_available) {
            Some(p) => Some(p.message_spec()),
            None => None,
        }
    }
}

/// Validates a create request: the instant must lie more than five seconds
/// ahead, and the callback must be acceptable.
pub fn check_create(req: &CreateTimerRequest, now: i64, pubsub_available: bool) -> (r: Result<
    CallbackType,
    ApiError,
>)
    ensures
        r matches Ok(t) ==> t == req.callback.kind() && create_problem(
            req.execute_at,
            req.callback,
            now,
            pubsub_available,
        ) is None,
        r matches Err(e) ==> (create_problem(req.execute_at, req.callback, now, pubsub_available)
            matches Some(m) && e.is_validation(m)),
{
    check_execute_at(req.execute_at, now)?;
    match check_callback(&req.callback, pubsub_available) {
        Ok(t) => Ok(t),
        Err(p) => Err(ApiError::validation(p.message())),
    }
}

pub open spec fn status_refusal(verb: Seq<char>, s: TimerStatus) -> Seq<char> {
    "cannot "@ + verb + " timer with status '"@ + s.name() + "'"@
}

fn status_refusal_text(verb: &str, s: TimerStatus) -> (r: String)
    ensures
        r@ == status_refusal(verb@, s),
{
    String::from_str("cannot ").concat(verb).concat(" timer with status '").concat(s.as_str()).concat(
        "'",
    )
}

/// The refusal of an update, if any: a timer that is no longer `pending`
/// first, then the new instant, then the new callback.
pub open spec fn update_problem(
    current: TimerStatus,
    execute_at: Option<i64>,
    callback: Option<CallbackConfig>,
    now: i64,
    pubsub_available: bool,
) -> Option<Seq<char>> {
    if current != TimerStatus::Pending {
        Some(status_refusal("update"@, current))
    } else if execute_at matches Some(e) && !lead_ok(e, now) {
        Some(lead_message())
    } else {
        match callback {
            Some(c) => match callback_problem(c, pubsub_available) {
                Some(p) => Some(p.message_spec()),
                None => None,
            },
            None => None,
        }
    }
}

/// Validates an update of a timer whose status is `current`: only a
/// `pending` timer may be changed.
pub fn check_update(
    current: TimerStatus,
    req: &UpdateTimerRequest,
    now: i64,
    pubsub_available: bool,
) -> (r: Result<Option<CallbackType>, ApiError>)
    ensures
        r matches Ok(t) ==> update_problem(
            current,
            req.execute_at,
            req.callback,
            now,
            pubsub_available,
        ) is None && t == (match req.callback {
            Some(c) => Some(c.kind()),
            None => None,
        }),
        r matches Err(e) ==> (update_problem(
            current,
            req.execute_at,
            req.callback,
            now,
            pubsub_available,
        ) matches Some(m) && e.is_validation(m)),
{
    if current != TimerStatus::Pending {
        return Err(ApiError::validation(status_refusal_text("update", current)));
    }
    match req.execute_at {
        Some(e) => {
            check_execute_at(e, now)?;
        },
        None => {},
    }
    match &req.callback {
        Some(c) => match check_callback(c, pubsub_available) {
            Ok(t) => Ok(Some(t)),
            Err(p) => Err(ApiError::validation(p.message())),
        },
        None => Ok(None),
    }
}

/// Validates a cancel of a timer whose status is `current`: every terminal
/// status, `canceled` included, is refused.
pub fn check_cancel(current: TimerStatus) -> (r: Result<(), ApiError>)
    ensures
        r is Ok <==> !current.terminal(),
        r matches Err(e) ==> e.is_validation(status_refusal("cancel"@, current)),
{
    if current.is_terminal() {
        Err(ApiError::validation(status_refusal_text("cancel", current)))
    } else {
        Ok(())
    }
}

/// The query of a listing, as received.
#[derive(Clone, Debug, PartialEq, Eq)]
pub struct ListTimersQuery {
    pub status: Option<String>,
    pub limit: Option<i64>,
    pub offset: Option<i64>,
    pub sort: Option<String>,
    pub order: Option<String>,
}

/// The query of a listing, checked and with its defaults applied.
#[derive(Clone, Copy, Debug, PartialEq, Eq, Structural)]
pub struct ListParams {
    pub status: Option<TimerStatus>,
    pub limit: i64,
    pub offset: i64,
    pub sort: SortField,
    pub order: SortOrder,
}

/// Largest page of a listing.
pub const MAX_LIMIT: i64 = 200;

/// Page size of a listing that names none.
pub const DEFAULT_LIMIT: i64 = 50;

/// The page size: 50 by default, clamped into `[1, 200]`.
pub open spec fn clamp_limit(limit: Option<i64>) -> i64 {
    let l = match limit {
        Some(v) => v,
        None => DEFAULT_LIMIT,
    };
    if l > MAX_LIMIT {
        MAX_LIMIT
    } else if l < 1 {
        1
    } else {
        l
    }
}

/// The offset: 0 by default, and never negative.
pub open spec fn clamp_offset(offset: Option<i64>) -> i64 {
    match offset {
        Some(v) => if v < 0 {
            0
        } else {
            v
        },
        None => 0,
    }
}

pub open spec fn sort_field_of(s: Option<String>) -> Option<SortField> {
    match s {
        None => Some(SortField::CreatedAt),
        Some(v) => if v@ == "created_at"@ {
            Some(SortField::CreatedAt)
        } else if v@ == "execute_at"@ {
            Some(SortField::ExecuteAt)
        } else {
            None
        },
    }
}

pub open spec fn sort_order_of(s: Option<String>) -> Option<SortOrder> {
    match s {
        None => Some(SortOrder::Desc),
        Some(v) => if v@ == "asc"@ {
            Some(SortOrder::Asc)
        } else if v@ == "desc"@ {
            Some(SortOrder::Desc)
        } else {
            None
        },
    }
}

/// A status filter names a status exactly, in lower case.
pub open spec fn status_filter_ok(s: Option<String>, f: Option<TimerStatus>) -> bool {
    match s {
        None => f is None,
        Some(v) => f matches Some(st) && st.name() == v@,
    }
}

pub open spec fn status_filter_valid(s: Option<String>) -> bool {
    match s {
        None => true,
        Some(v) => exists|st: TimerStatus| st.name() == v@,
    }
}

pub fn clamp_page(limit: Option<i64>, offset: Option<i64>) -> (r: (i64, i64))
    ensures
        r.0 == clamp_limit(limit),
        r.1 == clamp_offset(offset),
{
    let mut l = match limit {
        Some(v) => v,
        None => DEFAULT_LIMIT,
    };
    if l > MAX_LIMIT {
        l = MAX_LIMIT;
    }
    if l < 1 {
        l = 1;
    }
    let o = match offset {
        Some(v) => if v < 0 {
            0
        } else {
            v
        },
        None => 0,
    };
    (l, o)
}

impl ListTimersQuery {
    /// Checks the query and applies its defaults: the sort field must be
    /// `created_at` (the default) or `execute_at`, the order `asc` or `desc`
    /// (the default), the status filter, if any, the name of a status.
    pub fn normalize(&self) -> (r: Result<ListParams, ApiError>)
        ensures
            r matches Ok(p) ==> (Some(p.sort) == sort_field_of(self.sort) && Some(p.order)
                == sort_order_of(self.order) && status_filter_ok(self.status, p.status) && p.limit
                == clamp_limit(self.limit) && p.offset == clamp_offset(self.offset)),
            r is Err <==> (sort_field_of(self.sort) is None || sort_order_of(self.order) is None
                || !status_filter_valid(self.status)),
            r matches Err(e) ==> (if sort_field_of(self.sort) is None {
                e.is_validation("sort field must be 'created_at' or 'execute_at'"@)
            } else if sort_order_of(self.order) is None {
                e.is_validation("order must be 'asc' or 'desc'"@)
            } else {
                e.is_validation(
                    "status must be one of: pending, executing, completed, failed, canceled"@,
                )
            }),
    {
        let (limit, offset) = clamp_page(self.limit, self.offset);
        let sort = match &self.sort {
            None => SortField::CreatedAt,
            Some(v) => {
                if same_text(v.as_str(), "created_at") {
                    SortField::CreatedAt
                } else if same_text(v.as_str(), "execute_at") {
                    SortField::ExecuteAt
                } else {
                    return Err(
                        ApiError::validation(
                            String::from_str("sort field must be 'created_at' or 'execute_at'"),
                        ),
                    );
                }
            },
        };
        let order = match &self.order {
            None => SortOrder::Desc,
            Some(v) => {
                if same_text(v.as_str(), "asc") {
                    SortOrder::Asc
                } else if same_text(v.as_str(), "desc") {
                    SortOrder::Desc
                } else {
                    return Err(
                        ApiError::validation(String::from_str("order must be 'asc' or 'desc'")),
                    );
                }
            },
        };
        let status = match &self.status {
            None => None,
            Some(v) => match TimerStatus::from_lowered(v.as_str()) {
                Some(st) => Some(st),
                None => {
                    return Err(
                        ApiError::validation(
                            String::from_str(
                                "status must be one of: pending, executing, completed, failed, canceled",
                            ),
                        ),
                    );
                },
            },
        };
        Ok(ListParams { status, limit, offset, sort, order })
    }
}

/// The health report.
#[derive(Clone, Debug, PartialEq, Eq)]
pub struct HealthData {
    pub status: String,
    pub database: String,
    pub timestamp: i64,
}

/// The answer of the health probe, by whether the store answered: 200 with
/// `up`/`connected`, or 500 with code 1 and `degraded`/`disconnected`.
pub fn health_check(store_reachable: bool, timestamp: i64) -> (r: (u16, ApiResponse<HealthData>))
    ensures
        store_reachable ==> (r.0 == 200 && r.1.code == CODE_SUCCESS && r.1.message@ == "success"@
            && (r.1.data matches Some(d) && d.status@ == "up"@ && d.database@ == "connected"@
            && d.timestamp == timestamp)),
        !store_reachable ==> (r.0 == 500 && r.1.code == CODE_INTERNAL && r.1.message@
            == "database connection failed"@ && (r.1.data matches Some(d) && d.status@
            == "degraded"@ && d.database@ == "disconnected"@ && d.timestamp == timestamp)),
{
    if store_reachable {
        let data = HealthData {
            status: String::from_str("up"),
            database: String::from_str("connected"),
            timestamp,
        };
        (200, ApiResponse::success(data))
    } else {
        let data = HealthData {
            status: String::from_str("degraded"),
            database: String::from_str("disconnected"),
            timestamp,
        };
        (
            500,
            ApiResponse {
                code: CODE_INTERNAL,
                message: String::from_str("database connection failed"),
                data: Some(data),
            },
        )
    }
}

/// The envelope of a refused request without the right `X-API-Key`.
pub fn unauthorized() -> (r: (u16, ApiResponse<()>))
    ensures
        r.0 == 401,
        r.1.code == CODE_UNAUTHORIZED,
        r.1.message@ == "unauthorized"@,
        r.1.data is None,
{
    (401, ApiResponse::<()>::error(CODE_UNAUTHORIZED, String::from_str("unauthorized")))
}

/// Whether a request may pass: only with a key equal to the configured one.
pub fn authorized(presented: Option<&str>, api_key: &String) -> (r: bool)
    ensures
        r == (presented matches Some(k) && k@ == api_key@),
{
    match presented {
        Some(k) => crate::text::same_text(k, api_key.as_str()),
        None => false,
    }
}

} // verus!
