use vstd::prelude::*;

use crate::status::TimerStatus;
use crate::timer::{Timer, TimerId};

verus! {

/// The mapping from id to record that a sequence of records describes; a
/// later record replaces an earlier one with the same id.
pub open spec fn map_of(s: Seq<Timer>) -> Map<TimerId, Timer>
    decreases s.len(),
{
    if s.len() == 0 {
        Map::empty()
    } else {
        map_of(s.drop_last()).insert(s.last().id, s.last())
    }
}

pub open spec fn unique_ids(s: Seq<Timer>) -> bool {
    forall|i: int, j: int| 0 <= i < j < s.len() ==> s[i].id != s[j].id
}

pub proof fn lemma_map_of_dom(s: Seq<Timer>)
    ensures
        forall|id: TimerId| #[trigger]
            map_of(s).contains_key(id) <==> exists|i: int| 0 <= i < s.len() && s[i].id == id,
    decreases s.len(),
{
    if s.len() > 0 {
        let p = s.drop_last();
        lemma_map_of_dom(p);
        assert(map_of(s) == map_of(p).insert(s.last().id, s.last()));
        assert forall|id: TimerId| #[trigger]
            map_of(s).contains_key(id) <==> exists|i: int| 0 <= i < s.len() && s[i].id == id by {
            if map_of(s).contains_key(id) {
                if id != s.last().id {
                    let i = choose|i: int| 0 <= i < p.len() && p[i].id == id;
                    assert(s[i].id == id);
                } else {
                    assert(s[s.len() - 1].id == id);
                }
            }
            if exists|i: int| 0 <= i < s.len() && s[i].id == id {
                let i = choose|i: int| 0 <= i < s.len() && s[i].id == id;
                if i < s.len() - 1 {
                    assert(p[i].id == id);
                }
            }
        }
    }
}

pub proof fn lemma_map_of_at(s: Seq<Timer>, i: int)
    requires
        unique_ids(s),
        0 <= i < s.len(),
    ensures
        map_of(s).contains_key(s[i].id),
        map_of(s)[s[i].id] == s[i],
    decreases s.len(),
{
    if i < s.len() - 1 {
        let p = s.drop_last();
        assert(p[i] == s[i]);
        lemma_map_of_at(p, i);
    }
}


/// Whether a record is selected by a due range `(lo, hi]`, and, where
/// `pending_only`, by being `pending`.
pub open spec fn selected(t: Timer, lo: int, hi: int, pending_only: bool) -> bool {
    &&& (pending_only ==> t.status == TimerStatus::Pending)
    &&& lo < t.execute_at
    &&& t.execute_at <= hi
}

pub open spec fn sorted_by_due(s: Seq<Timer>) -> bool {
    forall|i: int, j: int| 0 <= i < j < s.len() ==> s[i].execute_at <= s[j].execute_at
}

/// Inserts a record into a vector sorted by due instant, after every record
/// due no later than it.
fn insert_by_due(v: &mut Vec<Timer>, t: Timer)
    requires
        sorted_by_due(old(v)@),
    ensures
        sorted_by_due(final(v)@),
        exists|k: int| 0 <= k <= old(v)@.len() && final(v)@ == old(v)@.insert(k, t),
{
    let mut k: usize = v.len();
    while k > 0 && v[k - 1].execute_at > t.execute_at
        invariant
            k <= v@.len(),
            sorted_by_due(v@),
            forall|j: int| k <= j < v@.len() ==> v@[j].execute_at > t.execute_at,
        decreases k,
    {
        k = k - 1;
    }
    let ghost before = v@;
    v.insert(k, t);
    proof {
        let after = v@;
        assert(after == before.insert(k as int, t));
        assert forall|i: int, j: int| 0 <= i < j < after.len() implies after[i].execute_at
            <= after[j].execute_at by {
            if j < k {
            } else if j == k {
                assert(before[k - 1].execute_at <= t.execute_at);
                assert(before[i].execute_at <= before[k - 1].execute_at || i == k - 1);
            } else if i < k {
                assert(after[j] == before[j - 1]);
                if k > 0 {
                    assert(before[i].execute_at <= before[k - 1].execute_at || i == k - 1);
                }
            } else if i == k {
                assert(after[j] == before[j - 1]);
            } else {
                assert(after[j] == before[j - 1]);
                assert(after[i] == before[i - 1]);
            }
        }
    }
}

/// Records keyed by id, held in a vector with no id twice.
pub struct TimerTable {
    rows: Vec<Timer>,
}

impl View for TimerTable {
    type V = Map<TimerId, Timer>;

    closed spec fn view(&self) -> Map<TimerId, Timer> {
        map_of(self.rows@)
    }
}

impl TimerTable {
    pub closed spec fn wf(self) -> bool {
        unique_ids(self.rows@)
    }

    /// The records in the order they are held.
    pub closed spec fn rows(self) -> Seq<Timer> {
        self.rows@
    }

    pub proof fn lemma_rows(self)
        requires
            self.wf(),
        ensures
            forall|i: int|
                0 <= i < self.rows().len() ==> self@.contains_key(#[trigger] self.rows()[i].id)
                    && self@[self.rows()[i].id] == self.rows()[i],
            forall|id: TimerId|
                #[trigger] self@.contains_key(id) ==> exists|i: int|
                    0 <= i < self.rows().len() && self.rows()[i].id == id,
            unique_ids(self.rows()),
            self@.dom().finite(),
            self@.len() == self.rows().len(),
    {
        lemma_map_of_dom(self.rows@);
        assert forall|i: int| 0 <= i < self.rows().len() implies self@.contains_key(
            #[trigger] self.rows()[i].id,
        ) && self@[self.rows()[i].id] == self.rows()[i] by {
            lemma_map_of_at(self.rows@, i);
        }
        lemma_map_of_finite_len(self.rows@);
    }

    /// Each record is held under its own id.
    pub proof fn lemma_keys(self)
        requires
            self.wf(),
        ensures
            forall|id: TimerId| #[trigger] self@.contains_key(id) ==> self@[id].id == id,
    {
        self.lemma_rows();
        assert forall|id: TimerId| #[trigger] self@.contains_key(id) implies self@[id].id == id by {
            let i = choose|i: int| 0 <= i < self.rows().len() && self.rows()[i].id == id;
            assert(self@[self.rows()[i].id] == self.rows()[i]);
        }
    }

    pub fn new() -> (r: TimerTable)
        ensures
            r.wf(),
            r@ == Map::<TimerId, Timer>::empty(),
    {
        TimerTable { rows: Vec::new() }
    }

    pub fn len(&self) -> (r: usize)
        requires
            self.wf(),
        ensures
            r == self@.len(),
            r == self.rows().len(),
    {
        proof {
            self.lemma_rows();
        }
        self.rows.len()
    }

    pub fn at(&self, i: usize) -> (r: &Timer)
        requires
            self.wf(),
            i < self.rows().len(),
        ensures
            *r == self.rows()[i as int],
    {
        &self.rows[i]
    }

    pub fn index_of(&self, id: TimerId) -> (r: Option<usize>)
        requires
            self.wf(),
        ensures
            r matches Some(i) ==> i < self.rows().len() && self.rows()[i as int].id == id
                && self@.contains_key(id) && self@[id] == self.rows()[i as int],
            r is None ==> !self@.contains_key(id),
    {
        proof {
            self.lemma_rows();
        }
        let mut i: usize = 0;
        while i < self.rows.len()
            invariant
                self.wf(),
                i <= self.rows@.len(),
                forall|j: int| 0 <= j < i ==> self.rows@[j].id != id,
            decreases self.rows.len() - i,
        {
            if self.rows[i].id == id {
                proof {
                    self.lemma_rows();
                    assert(self.rows()[i as int].id == id);
                }
                return Some(i);
            }
            i = i + 1;
        }
        None
    }

    /// Adds a record, replacing the one with the same id if there is one.
    pub fn insert(&mut self, t: Timer)
        requires
            old(self).wf(),
        ensures
            final(self).wf(),
            final(self)@ == old(self)@.insert(t.id, t),
    {
        proof {
            self.lemma_rows();
        }
        match self.index_of(t.id) {
            Some(i) => {
                let ghost before = self.rows@;
                let ghost id = t.id;
                self.rows.set(i, t);
                proof {
                    let after = self.rows@;
                    assert(unique_ids(after));
                    lemma_map_of_dom(before);
                    lemma_map_of_dom(after);
                    assert forall|k: TimerId| #[trigger] map_of(after).contains_key(k) implies map_of(
                        before,
                    ).insert(id, after[i as int]).contains_key(k) && map_of(after)[k] == map_of(
                        before,
                    ).insert(id, after[i as int])[k] by {
                        let j = choose|j: int| 0 <= j < after.len() && after[j].id == k;
                        lemma_map_of_at(after, j);
                        if j != i {
                            lemma_map_of_at(before, j);
                        }
                    }
                    assert forall|k: TimerId| #[trigger] map_of(before).insert(id, after[i as int]).contains_key(k) implies map_of(after).contains_key(k) by {
                        if k != id {
                            let j = choose|j: int| 0 <= j < before.len() && before[j].id == k;
                            assert(after[j].id == k);
                        } else {
                            assert(after[i as int].id == k);
                        }
                    }
                    assert(map_of(after) =~= map_of(before).insert(id, after[i as int]));
                }
            },
            None => {
                let ghost before = self.rows@;
                self.rows.push(t);
                proof {
                    lemma_map_of_dom(before);
                    assert(self.rows@.drop_last() == before);
                    assert forall|a: int, b: int| 0 <= a < b < self.rows@.len() implies self.rows@[a].id != self.rows@[b].id by {
                        if b == before.len() {
                            assert(before[a].id == self.rows@[a].id);
                        }
                    }
                }
            },
        }
    }

    /// Replaces the record at a position by one with the same id.
    pub fn set_at(&mut self, i: usize, t: Timer)
        requires
            old(self).wf(),
            i < old(self).rows().len(),
            old(self).rows()[i as int].id == t.id,
        ensures
            final(self).wf(),
            final(self)@ == old(self)@.insert(t.id, t),
            final(self).rows() == old(self).rows().update(i as int, t),
    {
        let ghost before = self.rows@;
        let ghost id = t.id;
        self.rows.set(i, t);
        proof {
            let after = self.rows@;
            assert(unique_ids(after));
            lemma_map_of_dom(before);
            lemma_map_of_dom(after);
            assert forall|k: TimerId| #[trigger] map_of(after).contains_key(k) implies map_of(
                before,
            ).insert(id, after[i as int]).contains_key(k) && map_of(after)[k] == map_of(
                before,
            ).insert(id, after[i as int])[k] by {
                let j = choose|j: int| 0 <= j < after.len() && after[j].id == k;
                lemma_map_of_at(after, j);
                if j != i {
                    lemma_map_of_at(before, j);
                }
            }
            assert forall|k: TimerId| #[trigger] map_of(before).insert(id, after[i as int]).contains_key(k) implies map_of(after).contains_key(k) by {
                if k != id {
                    let j = choose|j: int| 0 <= j < before.len() && before[j].id == k;
                    assert(after[j].id == k);
                } else {
                    assert(after[i as int].id == k);
                }
            }
            assert(map_of(after) =~= map_of(before).insert(id, after[i as int]));
        }
    }

    /// Removes the record with the given id, if there is one.
    pub fn remove(&mut self, id: TimerId)
        requires
            old(self).wf(),
        ensures
            final(self).wf(),
            final(self)@ == old(self)@.remove(id),
    {
        match self.index_of(id) {
            Some(i) => {
                let ghost before = self.rows@;
                self.rows.remove(i);
                proof {
                    let after = self.rows@;
                    assert forall|a: int, b: int| 0 <= a < b < after.len() implies after[a].id != after[b].id by {
                        let a0 = if a < i { a } else { a + 1 };
                        let b0 = if b < i { b } else { b + 1 };
                        assert(after[a] == before[a0]);
                        assert(after[b] == before[b0]);
                    }
                    lemma_map_of_dom(before);
                    lemma_map_of_dom(after);
                    assert forall|k: TimerId| #[trigger] map_of(after).contains_key(k) implies map_of(
                        before,
                    ).remove(id).contains_key(k) && map_of(after)[k] == map_of(before).remove(id)[k] by {
                        let j = choose|j: int| 0 <= j < after.len() && after[j].id == k;
                        let j0 = if j < i { j } else { j + 1 };
                        assert(after[j] == before[j0]);
                        lemma_map_of_at(after, j);
                        lemma_map_of_at(before, j0);
                        assert(j0 != i);
                    }
                    assert forall|k: TimerId| #[trigger] map_of(before).remove(id).contains_key(k) implies map_of(after).contains_key(k) by {
                        let j = choose|j: int| 0 <= j < before.len() && before[j].id == k;
                        assert(j != i);
                        let j1 = if j < i { j } else { j - 1 };
                        assert(after[j1] == before[j]);
                    }
                    assert(map_of(after) =~= map_of(before).remove(id));
                }
            },
            None => {
                assert(self@ =~= old(self)@.remove(id));
            },
        }
    }

    /// The selected records, by due instant, earliest first.
    pub fn select(&self, lo: i128, hi: i128, pending_only: bool) -> (r: Vec<Timer>)
        requires
            self.wf(),
        ensures
            sorted_by_due(r@),
            unique_ids(r@),
            forall|i: int|
                0 <= i < r@.len() ==> self@.contains_key(#[trigger] r@[i].id) && self@[r@[i].id]
                    == r@[i] && selected(r@[i], lo as int, hi as int, pending_only),
            forall|id: TimerId|
                #[trigger] self@.contains_key(id) && selected(self@[id], lo as int, hi as int, pending_only)
                    ==> r@.contains(self@[id]),
    {
        proof {
            self.lemma_rows();
        }
        let ghost rows = self.rows();
        let mut r: Vec<Timer> = Vec::new();
        let ghost mut src: Seq<int> = Seq::empty();
        let n = self.len();
        let mut i: usize = 0;
        while i < n
            invariant
                self.wf(),
                rows == self.rows(),
                n == rows.len(),
                i <= n,
                unique_ids(rows),
                sorted_by_due(r@),
                src.len() == r@.len(),
                forall|a: int|
                    0 <= a < src.len() ==> 0 <= #[trigger] src[a] < i && rows[src[a]] == r@[a]
                        && selected(rows[src[a]], lo as int, hi as int, pending_only),
                forall|a: int, b: int| 0 <= a < b < src.len() ==> src[a] != src[b],
                forall|j: int|
                    0 <= j < i && selected(#[trigger] rows[j], lo as int, hi as int, pending_only) ==> r@.contains(rows[j]),
            decreases n - i,
        {
            let t = self.at(i);
            let pass = (!pending_only || t.status == TimerStatus::Pending) && lo < (
            t.execute_at as i128) && (t.execute_at as i128) <= hi;
            if pass {
                let ghost before = r@;
                let ghost src0 = src;
                proof {
                    assert forall|a: int| 0 <= a < before.len() implies before[a].id != rows[i as int].id by {
                        assert(rows[src0[a]] == before[a]);
                        assert(src0[a] < i);
                    }
                }
                insert_by_due(&mut r, t.copy());
                proof {
                    let k = choose|k: int| 0 <= k <= before.len() && r@ == before.insert(k, rows[i as int]);
                    src = src0.insert(k, i as int);
                    assert forall|a: int| 0 <= a < src.len() implies 0 <= #[trigger] src[a] < i + 1 && rows[src[a]] == r@[a]
                        && selected(rows[src[a]], lo as int, hi as int, pending_only) by {
                        if a < k {
                            assert(r@[a] == before[a] && src[a] == src0[a]);
                        } else if a == k {
                            assert(r@[a] == rows[i as int] && src[a] == i);
                        } else {
                            assert(r@[a] == before[a - 1] && src[a] == src0[a - 1]);
                        }
                    }
                    assert forall|a: int, b: int| 0 <= a < b < src.len() implies src[a] != src[b] by {
                        if a < k {
                            assert(src[a] == src0[a]);
                        } else if a > k {
                            assert(src[a] == src0[a - 1]);
                        }
                        if b < k {
                            assert(src[b] == src0[b]);
                        } else if b > k {
                            assert(src[b] == src0[b - 1]);
                        }
                        if a != k && b != k {
                            let a0 = if a < k { a } else { a - 1 };
                            let b0 = if b < k { b } else { b - 1 };
                            assert(a0 < b0);
                        }
                    }
                    assert forall|j: int| 0 <= j < i + 1 && selected(#[trigger] rows[j], lo as int, hi as int, pending_only) implies r@.contains(rows[j]) by {
                        if j == i {
                            assert(r@[k] == rows[j]);
                        } else {
                            assert(before.contains(rows[j]));
                            let a = choose|a: int| 0 <= a < before.len() && before[a] == rows[j];
                            if a < k {
                                assert(r@[a] == rows[j]);
                            } else {
                                assert(r@[a + 1] == rows[j]);
                            }
                        }
                    }
                }
            } else {
                proof {
                    assert forall|a: int| 0 <= a < src.len() implies 0 <= #[trigger] src[a] < i + 1 && rows[src[a]] == r@[a]
                        && selected(rows[src[a]], lo as int, hi as int, pending_only) by {}
                    assert forall|j: int| 0 <= j < i + 1 && selected(#[trigger] rows[j], lo as int, hi as int, pending_only) implies r@.contains(rows[j]) by {
                        if j == i {
                            assert(rows[j] == *t);
                        }
                    }
                }
            }
            i = i + 1;
        }
        proof {
            self.lemma_rows();
            assert forall|a: int, b: int| 0 <= a < b < r@.len() implies r@[a].id != r@[b].id by {
                assert(rows[src[a]] == r@[a]);
                assert(rows[src[b]] == r@[b]);
                assert(src[a] != src[b]);
            }
            assert forall|a: int| 0 <= a < r@.len() implies self@.contains_key(#[trigger] r@[a].id) && self@[r@[a].id]
                    == r@[a] && selected(r@[a], lo as int, hi as int, pending_only) by {
                assert(rows[src[a]] == r@[a]);
                assert(rows[src[a]] == self.rows()[src[a]]);
            }
            assert forall|id: TimerId| #[trigger] self@.contains_key(id) && selected(self@[id], lo as int, hi as int, pending_only)
                    implies r@.contains(self@[id]) by {
                let j = choose|j: int| 0 <= j < self.rows().len() && self.rows()[j].id == id;
                assert(self.rows()[j] == rows[j]);
            }
        }
        r
    }

    pub fn clear(&mut self)
        requires
            old(self).wf(),
        ensures
            final(self).wf(),
            final(self)@ == Map::<TimerId, Timer>::empty(),
    {
        self.rows.clear();
    }
}

pub proof fn lemma_map_of_finite_len(s: Seq<Timer>)
    requires
        unique_ids(s),
    ensures
        map_of(s).dom().finite(),
        map_of(s).len() == s.len(),
    decreases s.len(),
{
    if s.len() > 0 {
        let p = s.drop_last();
        lemma_map_of_finite_len(p);
        lemma_map_of_dom(p);
        assert(!map_of(p).contains_key(s.last().id)) by {
            if map_of(p).contains_key(s.last().id) {
                let i = choose|i: int| 0 <= i < p.len() && p[i].id == s.last().id;
                assert(s[i].id == s[s.len() - 1].id);
            }
        }
    }
}

} // verus!
