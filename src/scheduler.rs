use vstd::prelude::*;

use crate::store::{claimable, claimed_record, in_window, Records, TimerStore};
use crate::table::{
    lemma_map_of_at, lemma_map_of_dom, map_of, selected, sorted_by_due, unique_ids, TimerTable,
};
use crate::timer::{Timer, TimerId};

verus! {

/// Seconds between two refreshes of the cache by the loader.
pub const LOAD_INTERVAL_SECS: u64 = 30;

/// Seconds between two ticks of the ticker.
pub const TICK_INTERVAL_SECS: u64 = 1;

/// How far back the load window reaches, in milliseconds.
pub const LOOKBACK_MS: i64 = 300_000;

/// How far ahead the load window reaches, in milliseconds.
pub const LOOKAHEAD_MS: i64 = 60_000;

/// What became of one claim that the ticker asked of the store.
#[derive(Clone, Copy, Debug, PartialEq, Eq, Structural)]
pub enum ClaimOutcome {
    /// The store moved the record to `executing`: dispatch it.
    Claimed,
    /// The record was claimed elsewhere, canceled or rescheduled.
    NotClaimed,
    /// The store could not be asked; a later tick will try again.
    Failed,
}

/// Whether a cached record is due at `now`.
pub open spec fn due_at(t: Timer, now: i64) -> bool {
    t.execute_at <= now
}

pub open spec fn seen(d: Seq<Timer>, k: int, id: TimerId) -> bool {
    exists|i: int| 0 <= i < k && #[trigger] d[i].id == id
}

/// The near-term window of soon-to-fire records, refreshed whole by the
/// loader and thinned by the ticker.
pub struct TimerCache {
    table: TimerTable,
}

impl View for TimerCache {
    type V = Map<TimerId, Timer>;

    closed spec fn view(&self) -> Map<TimerId, Timer> {
        self.table@
    }
}

impl TimerCache {
    pub closed spec fn wf(self) -> bool {
        self.table.wf()
    }

    /// Each cached record is held under its own id.
    pub proof fn lemma_keys(self)
        requires
            self.wf(),
        ensures
            forall|id: TimerId| #[trigger] self@.contains_key(id) ==> self@[id].id == id,
    {
        self.table.lemma_keys();
    }

    pub fn new() -> (r: TimerCache)
        ensures
            r.wf(),
            r@ == Map::<TimerId, Timer>::empty(),
    {
        TimerCache { table: TimerTable::new() }
    }

    pub fn len(&self) -> (r: usize)
        requires
            self.wf(),
        ensures
            r == self@.len(),
    {
        self.table.len()
    }

    /// The cached record with the given id, if any.
    pub fn get(&self, id: TimerId) -> (r: Option<Timer>)
        requires
            self.wf(),
        ensures
            r == (if self@.contains_key(id) { Some(self@[id]) } else { None }),
    {
        match self.table.index_of(id) {
            Some(i) => Some(self.table.at(i).copy()),
            None => None,
        }
    }

    /// Replaces the whole content by the mapping that the loaded records
    /// describe (a later record wins over an earlier one with the same id).
    pub fn refresh(&mut self, rows: Vec<Timer>)
        requires
            old(self).wf(),
        ensures
            final(self).wf(),
            final(self)@ == map_of(rows@),
    {
        let mut fresh = TimerTable::new();
        let mut i: usize = 0;
        while i < rows.len()
            invariant
                fresh.wf(),
                i <= rows@.len(),
                fresh@ == map_of(rows@.subrange(0, i as int)),
            decreases rows.len() - i,
        {
            assert(rows@.subrange(0, i + 1).drop_last() == rows@.subrange(0, i as int));
            fresh.insert(rows[i].copy());
            i = i + 1;
        }
        assert(rows@.subrange(0, rows@.len() as int) == rows@);
        self.table = fresh;
    }

    /// The cached records due at `now`, earliest first.
    pub fn due(&self, now: i64) -> (r: Vec<Timer>)
        requires
            self.wf(),
        ensures
            sorted_by_due(r@),
            unique_ids(r@),
            forall|i: int|
                0 <= i < r@.len() ==> self@.contains_key(#[trigger] r@[i].id) && self@[r@[i].id]
                    == r@[i] && due_at(r@[i], now),
            forall|id: TimerId|
                #[trigger] self@.contains_key(id) && due_at(self@[id], now) ==> r@.contains(
                    self@[id],
                ),
    {
        let lo: i128 = (i64::MIN as i128) - 1;
        let r = self.table.select(lo, now as i128, false);
        proof {
            assert forall|t: Timer| selected(t, lo as int, now as int, false) <==> due_at(t, now) by {}
        }
        r
    }

    /// Settles one claim of the ticker: a claimed record leaves the cache and
    /// is dispatched; any other record stays until the next refresh, so that
    /// a snapshot whose durable instant moved later is offered again.
    pub fn settle_claim(&mut self, id: TimerId, outcome: ClaimOutcome) -> (dispatch: bool)
        requires
            old(self).wf(),
        ensures
            final(self).wf(),
            dispatch == (outcome == ClaimOutcome::Claimed),
            final(self)@ == (if outcome == ClaimOutcome::Claimed {
                old(self)@.remove(id)
            } else {
                old(self)@
            }),
    {
        match outcome {
            ClaimOutcome::Claimed => {
                self.table.remove(id);
                true
            },
            _ => false,
        }
    }

    /// One tick of the ticker against a store. Each cached record due at
    /// `now` is offered to the store's claim, earliest first; the claimed
    /// ones leave the cache. The claimed records, as the store now holds them, are returned
    /// in that order for dispatch; the store changes in those claims alone.
    pub fn tick(&mut self, store: &mut TimerStore, now: i64) -> (r: Vec<Timer>)
        requires
            old(self).wf(),
            old(store).wf(),
        ensures
            final(self).wf(),
            final(store).wf(),
            unique_ids(r@),
            forall|a: int|
                0 <= a < r@.len() ==> old(self)@.contains_key(#[trigger] r@[a].id) && due_at(
                    old(self)@[r@[a].id],
                    now,
                ) && claimable(old(store)@, r@[a].id, now) && r@[a] == claimed_record(
                    old(store)@[r@[a].id],
                    now,
                ),
            forall|a: int, b: int|
                0 <= a < b < r@.len() ==> old(self)@[r@[a].id].execute_at <= old(
                    self,
                )@[r@[b].id].execute_at,
            forall|id: TimerId|
                old(self)@.contains_key(id) && due_at(old(self)@[id], now) && #[trigger] claimable(
                    old(store)@,
                    id,
                    now,
                ) ==> exists|a: int| 0 <= a < r@.len() && r@[a].id == id,
            forall|id: TimerId| #[trigger]
                final(store)@.contains_key(id) == old(store)@.contains_key(id),
            forall|id: TimerId|
                #[trigger] old(store)@.contains_key(id) ==> final(store)@[id] == (if exists|a: int|
                    0 <= a < r@.len() && r@[a].id == id {
                    claimed_record(old(store)@[id], now)
                } else {
                    old(store)@[id]
                }),
            forall|id: TimerId|
                #[trigger] final(self)@.contains_key(id) <==> (old(self)@.contains_key(id) && !(
                due_at(old(self)@[id], now) && claimable(old(store)@, id, now))),
            forall|id: TimerId| #[trigger]
                final(self)@.contains_key(id) ==> final(self)@[id] == old(self)@[id],
    {
        let ghost cache0 = self@;
        let ghost store0: Records = store@;
        proof {
            self.lemma_keys();
        }
        let d = self.due(now);
        let mut r: Vec<Timer> = Vec::new();
        let ghost mut idx: Seq<int> = Seq::empty();
        let mut k: usize = 0;
        while k < d.len()
            invariant
                self.wf(),
                store.wf(),
                k <= d@.len(),
                sorted_by_due(d@),
                unique_ids(d@),
                forall|i: int|
                    0 <= i < d@.len() ==> cache0.contains_key(#[trigger] d@[i].id) && cache0[d@[i].id]
                        == d@[i] && due_at(d@[i], now),
                forall|id: TimerId|
                    #[trigger] cache0.contains_key(id) && due_at(cache0[id], now) ==> d@.contains(
                        cache0[id],
                    ),
                forall|id: TimerId| #[trigger] store@.contains_key(id) == store0.contains_key(id),
                forall|id: TimerId|
                    #[trigger] store0.contains_key(id) ==> store@[id] == (if seen(d@, k as int, id)
                        && claimable(store0, id, now) {
                        claimed_record(store0[id], now)
                    } else {
                        store0[id]
                    }),
                idx.len() == r@.len(),
                forall|a: int, b: int| 0 <= a < b < idx.len() ==> idx[a] < idx[b],
                forall|a: int|
                    0 <= a < idx.len() ==> 0 <= #[trigger] idx[a] < k && d@[idx[a]].id == r@[a].id
                        && claimable(store0, r@[a].id, now) && r@[a] == claimed_record(
                        store0[r@[a].id],
                        now,
                    ),
                forall|i: int|
                    0 <= i < k && claimable(store0, #[trigger] d@[i].id, now) ==> exists|a: int|
                        0 <= a < r@.len() && r@[a].id == d@[i].id,
                forall|id: TimerId|
                    #[trigger] self@.contains_key(id) <==> (cache0.contains_key(id) && !(seen(
                        d@,
                        k as int,
                        id,
                    ) && claimable(store0, id, now))),
                forall|id: TimerId| #[trigger] self@.contains_key(id) ==> self@[id] == cache0[id],
                forall|id: TimerId| #[trigger] cache0.contains_key(id) ==> cache0[id].id == id,
            decreases d.len() - k,
        {
            let id = d[k].id;
            proof {
                assert(!seen(d@, k as int, id)) by {
                    if seen(d@, k as int, id) {
                        let i = choose|i: int| 0 <= i < k && #[trigger] d@[i].id == id;
                        assert(d@[i].id != d@[k as int].id);
                    }
                }
                store.lemma_wf();
            }
            let ghost store_before = store@;
            let ghost r_before = r@;
            let ghost cache_before = self@;
            let claimed = store.claim_due(id, now);
            proof {
                if store0.contains_key(id) {
                    assert(store_before[id] == store0[id]);
                }
                assert(claimable(store_before, id, now) == claimable(store0, id, now));
            }
            if claimed {
                let got = store.get(id);
                match got {
                    Some(t) => {
                        r.push(t);
                        proof {
                            idx = idx.push(k as int);
                        }
                    },
                    None => {},
                }
                self.table.remove(id);
            }
            proof {
                assert forall|x: TimerId| #[trigger] store0.contains_key(x) implies store@[x] == (if seen(d@, k + 1, x)
                    && claimable(store0, x, now) {
                    claimed_record(store0[x], now)
                } else {
                    store0[x]
                }) by {
                    if x == id {
                        assert(d@[k as int].id == x);
                    } else {
                        if seen(d@, k + 1, x) {
                            let i = choose|i: int| 0 <= i < k + 1 && #[trigger] d@[i].id == x;
                            assert(i < k);
                        }
                        if seen(d@, k as int, x) {
                            let i = choose|i: int| 0 <= i < k && #[trigger] d@[i].id == x;
                            assert(d@[i].id == x);
                        }
                    }
                }
                assert forall|i: int|
                    0 <= i < k + 1 && claimable(store0, #[trigger] d@[i].id, now) implies exists|a: int|
                        0 <= a < r@.len() && r@[a].id == d@[i].id by {
                    if i == k {
                        assert(r@[r@.len() - 1].id == id);
                    } else {
                        let a = choose|a: int| 0 <= a < r_before.len() && r_before[a].id == d@[i].id;
                        assert(r@[a] == r_before[a]);
                    }
                }
                assert forall|x: TimerId|
                    #[trigger] self@.contains_key(x) <==> (cache0.contains_key(x) && !(seen(
                        d@,
                        k + 1,
                        x,
                    ) && claimable(store0, x, now))) by {
                    if seen(d@, k + 1, x) && x != id {
                        let i = choose|i: int| 0 <= i < k + 1 && #[trigger] d@[i].id == x;
                        assert(seen(d@, k as int, x));
                    }
                    if seen(d@, k as int, x) {
                        let i = choose|i: int| 0 <= i < k && #[trigger] d@[i].id == x;
                        assert(seen(d@, k + 1, x));
                    }
                    if x == id {
                        assert(d@[k as int].id == x);
                    }
                }
                assert forall|x: TimerId| #[trigger] self@.contains_key(x) implies self@[x] == cache0[x] by {
                    assert(cache_before.contains_key(x));
                }
            }
            k = k + 1;
        }
        proof {
            assert forall|a: int, b: int| 0 <= a < b < r@.len() implies r@[a].id != r@[b].id by {
                assert(idx[a] < idx[b]);
                assert(d@[idx[a]].id != d@[idx[b]].id);
            }
            assert forall|a: int, b: int|
                0 <= a < b < r@.len() implies cache0[r@[a].id].execute_at <= cache0[r@[b].id].execute_at by {
                assert(idx[a] < idx[b]);
                assert(cache0[d@[idx[a]].id] == d@[idx[a]]);
                assert(cache0[d@[idx[b]].id] == d@[idx[b]]);
            }
            assert forall|a: int| 0 <= a < r@.len() implies cache0.contains_key(#[trigger] r@[a].id) && due_at(
                cache0[r@[a].id],
                now,
            ) && claimable(store0, r@[a].id, now) && r@[a] == claimed_record(store0[r@[a].id], now) by {
                assert(0 <= idx[a] < k);
                assert(d@[idx[a]].id == r@[a].id);
            }
            assert forall|id: TimerId|
                cache0.contains_key(id) && due_at(cache0[id], now) && #[trigger] claimable(store0, id, now)
                    implies exists|a: int| 0 <= a < r@.len() && r@[a].id == id by {
                assert(d@.contains(cache0[id]));
                let i = choose|i: int| 0 <= i < d@.len() && d@[i] == cache0[id];
                assert(d@[i].id == id);
            }
            assert forall|id: TimerId|
                #[trigger] store0.contains_key(id) implies store@[id] == (if exists|a: int|
                    0 <= a < r@.len() && r@[a].id == id {
                    claimed_record(store0[id], now)
                } else {
                    store0[id]
                }) by {
                if exists|a: int| 0 <= a < r@.len() && r@[a].id == id {
                    let a = choose|a: int| 0 <= a < r@.len() && r@[a].id == id;
                    assert(d@[idx[a]].id == id);
                    assert(seen(d@, k as int, id));
                } else if seen(d@, k as int, id) && claimable(store0, id, now) {
                    let i = choose|i: int| 0 <= i < k && #[trigger] d@[i].id == id;
                    assert(claimable(store0, d@[i].id, now));
                }
            }
            assert forall|id: TimerId|
                #[trigger] self@.contains_key(id) <==> (cache0.contains_key(id) && !(due_at(cache0[id], now) && claimable(store0, id, now))) by {
                if seen(d@, k as int, id) {
                    let i = choose|i: int| 0 <= i < k && #[trigger] d@[i].id == id;
                    assert(cache0[d@[i].id] == d@[i]);
                }
                if cache0.contains_key(id) && due_at(cache0[id], now) {
                    assert(d@.contains(cache0[id]));
                    let i = choose|i: int| 0 <= i < d@.len() && d@[i] == cache0[id];
                    assert(d@[i].id == id);
                }
            }
        }
        r
    }

    /// One refresh of the loader against a store: the cache then holds
    /// exactly the store's pending records of the load window at `now`.
    pub fn load(&mut self, store: &TimerStore, now: i64)
        requires
            old(self).wf(),
            store.wf(),
        ensures
            final(self).wf(),
            forall|id: TimerId|
                #[trigger] final(self)@.contains_key(id) <==> (store@.contains_key(id) && in_window(
                    store@[id],
                    now,
                    LOOKBACK_MS,
                    LOOKAHEAD_MS,
                )),
            forall|id: TimerId| #[trigger]
                final(self)@.contains_key(id) ==> final(self)@[id] == store@[id],
    {
        let rows = store.load_window(now, LOOKBACK_MS, LOOKAHEAD_MS);
        self.refresh(rows);
        proof {
            lemma_map_of_dom(rows@);
            assert forall|id: TimerId|
                #[trigger] self@.contains_key(id) <==> (store@.contains_key(id) && in_window(
                    store@[id],
                    now,
                    LOOKBACK_MS,
                    LOOKAHEAD_MS,
                )) by {
                if self@.contains_key(id) {
                    let i = choose|i: int| 0 <= i < rows@.len() && rows@[i].id == id;
                    assert(store@.contains_key(rows@[i].id));
                }
                if store@.contains_key(id) && in_window(store@[id], now, LOOKBACK_MS, LOOKAHEAD_MS) {
                    assert(rows@.contains(store@[id]));
                    let i = choose|i: int| 0 <= i < rows@.len() && rows@[i] == store@[id];
                    assert(store@.contains_key(rows@[i].id));
                    store.lemma_wf();
                    assert(rows@[i].id == id);
                }
            }
            assert forall|id: TimerId| #[trigger]
                self@.contains_key(id) implies self@[id] == store@[id] by {
                let i = choose|i: int| 0 <= i < rows@.len() && rows@[i].id == id;
                lemma_map_of_at(rows@, i);
                assert(store@.contains_key(rows@[i].id));
            }
        }
    }
}

} // verus!
