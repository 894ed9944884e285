use vstd::prelude::*;

use crate::callback::CallbackConfig;
use crate::status::TimerStatus;
use crate::store::{
    cancel_effect, claim_effect, claimed_record, complete_effect, create_effect, fail_effect,
    reaped, update_effect, Records, StoreError, TimerStore,
};
use crate::timer::{lifecycle_step, Timer, TimerId};

verus! {

/// Every record present before is present after, one lifecycle step on.
pub open spec fn follows_lifecycle(before: Records, after: Records) -> bool {
    forall|id: TimerId| #[trigger]
        before.contains_key(id) ==> after.contains_key(id) && lifecycle_step(before[id], after[id])
}

/// Some record is in status `s` after and was not before.
pub open spec fn enters(before: Records, after: Records, s: TimerStatus) -> bool {
    exists|id: TimerId| #[trigger]
        after.contains_key(id) && after[id].status == s && !(before.contains_key(id)
            && before[id].status == s)
}

/// Every operation of the store moves each record along the lifecycle:
/// a status changes only as the lifecycle admits, and a terminal record is
/// never changed. The same holds of each claim that a tick makes, and of
/// the recovery at start-up, which fails only `executing` records.
pub proof fn lemma_operations_follow_lifecycle(
    m: Records,
    id: TimerId,
    now: i64,
    execute_at: i64,
    callback: CallbackConfig,
    metadata: Option<String>,
    new_execute_at: Option<i64>,
    new_callback: Option<CallbackConfig>,
    new_metadata: Option<String>,
    error: String,
)
    ensures
        follows_lifecycle(m, create_effect(m, id, execute_at, callback, metadata, now).1),
        follows_lifecycle(
            m,
            update_effect(m, id, new_execute_at, new_callback, new_metadata, now).1,
        ),
        follows_lifecycle(m, cancel_effect(m, id, now).1),
        follows_lifecycle(m, claim_effect(m, id, now).1),
        follows_lifecycle(m, complete_effect(m, id, now).1),
        follows_lifecycle(m, fail_effect(m, id, error, now).1),
        m.contains_key(id) && m[id].status == TimerStatus::Pending ==> lifecycle_step(
            m[id],
            claimed_record(m[id], now),
        ),
        forall|before: Timer, after: Timer|
            before.status == TimerStatus::Executing && #[trigger] reaped(before, after, now)
                ==> lifecycle_step(
                before,
                after,
            ),
{
}

/// A record enters `executing` only by a won claim, and `completed` only
/// from `executing`: no other operation of the store starts a dispatch.
pub proof fn lemma_dispatch_starts_only_by_claim(
    m: Records,
    id: TimerId,
    now: i64,
    execute_at: i64,
    callback: CallbackConfig,
    metadata: Option<String>,
    new_execute_at: Option<i64>,
    new_callback: Option<CallbackConfig>,
    new_metadata: Option<String>,
    error: String,
)
    ensures
        !enters(m, create_effect(m, id, execute_at, callback, metadata, now).1, TimerStatus::Executing),
        !enters(
            m,
            update_effect(m, id, new_execute_at, new_callback, new_metadata, now).1,
            TimerStatus::Executing,
        ),
        !enters(m, cancel_effect(m, id, now).1, TimerStatus::Executing),
        !enters(m, complete_effect(m, id, now).1, TimerStatus::Executing),
        !enters(m, fail_effect(m, id, error, now).1, TimerStatus::Executing),
        enters(m, claim_effect(m, id, now).1, TimerStatus::Executing) ==> claim_effect(m, id, now).0,
        enters(m, complete_effect(m, id, now).1, TimerStatus::Completed) ==> m.contains_key(id)
            && m[id].status == TimerStatus::Executing,
{
}

/// How many of a series of claims of one timer succeed, the claims made one
/// after the other at the given instants.
pub open spec fn claims_won(m: Records, id: TimerId, nows: Seq<i64>) -> nat
    decreases nows.len(),
{
    if nows.len() == 0 {
        0
    } else {
        let (won, next) = claim_effect(m, id, nows[0]);
        (if won {
            1nat
        } else {
            0nat
        }) + claims_won(next, id, nows.drop_first())
    }
}

proof fn lemma_no_claim_unless_pending(m: Records, id: TimerId, nows: Seq<i64>)
    requires
        !(m.contains_key(id) && m[id].status == TimerStatus::Pending),
    ensures
        claims_won(m, id, nows) == 0,
    decreases nows.len(),
{
    if nows.len() > 0 {
        lemma_no_claim_unless_pending(m, id, nows.drop_first());
    }
}

/// However many claims of one timer are made (the store serializes them),
/// at most one succeeds; exactly one does when the timer is `pending` and
/// one of the claims comes at or after its instant.
pub proof fn lemma_claim_race(m: Records, id: TimerId, nows: Seq<i64>)
    ensures
        claims_won(m, id, nows) <= 1,
        claims_won(m, id, nows) == 1 <==> (m.contains_key(id) && m[id].status
            == TimerStatus::Pending && exists|i: int| 0 <= i < nows.len() && m[id].execute_at
            <= #[trigger] nows[i]),
    decreases nows.len(),
{
    if nows.len() > 0 {
        let (won, next) = claim_effect(m, id, nows[0]);
        let rest = nows.drop_first();
        if won {
            lemma_no_claim_unless_pending(next, id, rest);
        } else {
            lemma_claim_race(m, id, rest);
            if m.contains_key(id) && m[id].status == TimerStatus::Pending {
                if exists|i: int| 0 <= i < nows.len() && m[id].execute_at <= #[trigger] nows[i] {
                    let i = choose|i: int| 0 <= i < nows.len() && m[id].execute_at <= #[trigger] nows[i];
                    assert(i > 0);
                    assert(rest[i - 1] == nows[i]);
                }
                if exists|i: int| 0 <= i < rest.len() && m[id].execute_at <= #[trigger] rest[i] {
                    let i = choose|i: int| 0 <= i < rest.len() && m[id].execute_at <= #[trigger] rest[i];
                    assert(nows[i + 1] == rest[i]);
                }
            }
        }
    }
}

/// Once a record has left `pending`, no step that follows the lifecycle
/// brings it back.
pub proof fn lemma_never_pending_again(before: Records, after: Records, id: TimerId)
    requires
        follows_lifecycle(before, after),
        before.contains_key(id),
        before[id].status != TimerStatus::Pending,
    ensures
        after.contains_key(id),
        after[id].status != TimerStatus::Pending,
{
}

/// Over any run of store states whose steps follow the lifecycle, a timer
/// is claimed at most once: after a won claim, no later claim of it wins, so
/// at most one dispatch of it is ever handed out.
pub proof fn lemma_claimed_once_per_run(
    run: Seq<Records>,
    id: TimerId,
    i: int,
    now_i: i64,
    j: int,
    now_j: i64,
)
    requires
        forall|k: int| 0 <= k < run.len() - 1 ==> follows_lifecycle(#[trigger] run[k], run[k + 1]),
        0 <= i < j < run.len(),
        claim_effect(run[i], id, now_i).0,
        run[i + 1] == claim_effect(run[i], id, now_i).1,
    ensures
        !claim_effect(run[j], id, now_j).0,
{
    lemma_still_claimed(run, id, i + 1, j);
}

proof fn lemma_still_claimed(run: Seq<Records>, id: TimerId, a: int, b: int)
    requires
        forall|k: int| 0 <= k < run.len() - 1 ==> follows_lifecycle(#[trigger] run[k], run[k + 1]),
        0 <= a <= b < run.len(),
        run[a].contains_key(id),
        run[a][id].status != TimerStatus::Pending,
    ensures
        run[b].contains_key(id),
        run[b][id].status != TimerStatus::Pending,
    decreases b - a,
{
    if a < b {
        lemma_never_pending_again(run[a], run[a + 1], id);
        lemma_still_claimed(run, id, a + 1, b);
    }
}

/// In a well-formed store every failed record says why it failed and when
/// it finished.
pub proof fn lemma_failed_records_explained(store: &TimerStore)
    requires
        store.wf(),
    ensures
        forall|id: TimerId|
            #[trigger] store@.contains_key(id) && store@[id].status == TimerStatus::Failed ==> (
            store@[id].last_error matches Some(e) && e@.len() > 0) && store@[id].executed_at is Some,
{
    store.lemma_wf();
}

/// Creating a timer and reading it back gives the callback, instant and
/// metadata that were handed in.
pub proof fn lemma_create_then_get(
    m: Records,
    id: TimerId,
    execute_at: i64,
    callback: CallbackConfig,
    metadata: Option<String>,
    now: i64,
)
    requires
        !m.contains_key(id),
    ensures
        ({
            let (r, after) = create_effect(m, id, execute_at, callback, metadata, now);
            &&& r is Ok
            &&& after.contains_key(id)
            &&& after[id].callback_config == callback
            &&& after[id].execute_at == execute_at
            &&& after[id].metadata == metadata
            &&& after[id].status == TimerStatus::Pending
        }),
{
}

/// Terminal writes are idempotent: recording an outcome a second time
/// succeeds and changes nothing; canceling twice is refused the second time
/// and changes nothing.
pub proof fn lemma_repeated_terminal_writes(
    m: Records,
    id: TimerId,
    now1: i64,
    now2: i64,
    error: String,
)
    ensures
        ({
            let (r1, m1) = complete_effect(m, id, now1);
            r1 is Ok ==> complete_effect(m1, id, now2) == (Ok::<(), StoreError>(()), m1)
        }),
        ({
            let (r1, m1) = fail_effect(m, id, error, now1);
            r1 is Ok ==> complete_effect(m1, id, now2) == (Ok::<(), StoreError>(()), m1)
        }),
        m.contains_key(id) && m[id].status.terminal() ==> fail_effect(m, id, error, now1) == (
            Ok::<(), StoreError>(()),
            m,
        ) && complete_effect(m, id, now1) == (Ok::<(), StoreError>(()), m),
        ({
            let (r1, m1) = cancel_effect(m, id, now1);
            r1 is Ok ==> cancel_effect(m1, id, now2) == (
                Err::<Timer, StoreError>(StoreError::TerminalState),
                m1,
            )
        }),
{
}

} // verus!
