use vstd::prelude::*;

use crate::errors::Error;
use crate::wager::{pending_contribution, with_status, Wager, WagerStatus};

verus! {

/// No two records of the sequence share a request id.
pub open spec fn unique_ids(s: Seq<Wager>) -> bool {
    forall|i: int, j: int| 0 <= i < j < s.len() ==> s[i].id != s[j].id
}

/// Some record of the sequence carries the id.
pub open spec fn has_id(s: Seq<Wager>, id: u64) -> bool {
    exists|i: int| 0 <= i < s.len() && s[i].id == id
}

/// The position of the record carrying the id (meaningful only under
/// `has_id`).
pub open spec fn index_of(s: Seq<Wager>, id: u64) -> int {
    choose|i: int| 0 <= i < s.len() && s[i].id == id
}

/// The record carrying the id (meaningful only under `has_id`).
pub open spec fn record_of(s: Seq<Wager>, id: u64) -> Wager {
    s[index_of(s, id)]
}

/// Total stake still owed across the sequence: the sum of the stakes of
/// its pending records.
pub open spec fn sum_pending(s: Seq<Wager>) -> int
    decreases s.len(),
{
    if s.len() == 0 {
        0
    } else {
        pending_contribution(s[0]) + sum_pending(s.drop_first())
    }
}

proof fn lemma_sum_nonneg(s: Seq<Wager>)
    ensures
        sum_pending(s) >= 0,
    decreases s.len(),
{
    if s.len() != 0 {
        lemma_sum_nonneg(s.drop_first());
    }
}

proof fn lemma_sum_push(s: Seq<Wager>, w: Wager)
    ensures
        sum_pending(s.push(w)) == sum_pending(s) + pending_contribution(w),
    decreases s.len(),
{
    if s.len() == 0 {
        assert(s.push(w).drop_first() =~= Seq::<Wager>::empty());
        assert(sum_pending(s) == 0);
        assert(sum_pending(Seq::<Wager>::empty()) == 0);
    } else {
        assert(s.push(w).drop_first() =~= s.drop_first().push(w));
        lemma_sum_push(s.drop_first(), w);
    }
}

proof fn lemma_sum_update(s: Seq<Wager>, i: int, w: Wager)
    requires
        0 <= i < s.len(),
    ensures
        sum_pending(s.update(i, w)) == sum_pending(s) - pending_contribution(s[i])
            + pending_contribution(w),
    decreases s.len(),
{
    if i == 0 {
        assert(s.update(0, w).drop_first() =~= s.drop_first());
    } else {
        assert(s.update(i, w).drop_first() =~= s.drop_first().update(i - 1, w));
        lemma_sum_update(s.drop_first(), i - 1, w);
    }
}

proof fn lemma_sum_remove(s: Seq<Wager>, i: int)
    requires
        0 <= i < s.len(),
    ensures
        sum_pending(s.remove(i)) == sum_pending(s) - pending_contribution(s[i]),
    decreases s.len(),
{
    if i == 0 {
        assert(s.remove(0) =~= s.drop_first());
    } else {
        assert(s.remove(i).drop_first() =~= s.drop_first().remove(i - 1));
        lemma_sum_remove(s.drop_first(), i - 1);
    }
}

proof fn lemma_sum_element(s: Seq<Wager>, i: int)
    requires
        0 <= i < s.len(),
    ensures
        pending_contribution(s[i]) <= sum_pending(s),
    decreases s.len(),
{
    if i == 0 {
        lemma_sum_nonneg(s.drop_first());
    } else {
        lemma_sum_element(s.drop_first(), i - 1);
        assert(pending_contribution(s[0]) >= 0);
    }
}

/// Under unique ids, the record found at a position is the record the id
/// maps to.
proof fn lemma_record_at_index(s: Seq<Wager>, i: int)
    requires
        unique_ids(s),
        0 <= i < s.len(),
    ensures
        has_id(s, s[i].id),
        index_of(s, s[i].id) == i,
        record_of(s, s[i].id) == s[i],
{
    let id = s[i].id;
    assert(has_id(s, id));
    let j = index_of(s, id);
    assert(0 <= j < s.len() && s[j].id == id);
    if i < j {
        assert(s[i].id != s[j].id);
    }
    if j < i {
        assert(s[j].id != s[i].id);
    }
}

/// The wager store: a mapping from request id to wager record.  It owns
/// the records and nothing else; it never moves funds and never draws
/// randomness.  Ids are unique while a record for them exists.
pub struct WagerStore {
    records: Vec<Wager>,
}

impl WagerStore {
    /// Well-formedness: no two records share an id.
    pub closed spec fn wf(&self) -> bool {
        unique_ids(self.records@)
    }

    /// Whether a record exists under the id.
    pub closed spec fn contains_id(&self, id: u64) -> bool {
        has_id(self.records@, id)
    }

    /// The record under the id (meaningful only under `contains_id`).
    pub closed spec fn record_at(&self, id: u64) -> Wager {
        record_of(self.records@, id)
    }

    /// Total stake of the pending records: the store's escrow obligation.
    pub closed spec fn pending_total(&self) -> int {
        sum_pending(self.records@)
    }

    /// How many records the store holds.
    pub closed spec fn count(&self) -> int {
        self.records@.len() as int
    }

    /// The store's total obligation is never negative.
    pub proof fn lemma_pending_total_nonneg(&self)
        ensures
            self.pending_total() >= 0,
    {
        lemma_sum_nonneg(self.records@);
    }

    /// A pending record's stake never exceeds the store's total obligation,
    /// and the obligation is never negative.
    pub proof fn lemma_pending_stake_bounded(&self, id: u64)
        requires
            self.wf(),
            self.contains_id(id),
            self.record_at(id).status is Pending,
        ensures
            self.record_at(id).stake as int <= self.pending_total(),
            self.pending_total() >= 0,
    {
        let i = index_of(self.records@, id);
        lemma_sum_element(self.records@, i);
        lemma_sum_nonneg(self.records@);
    }

    pub fn new() -> (r: WagerStore)
        ensures
            r.wf(),
            r.count() == 0,
            r.pending_total() == 0,
            forall|id: u64| !r.contains_id(id),
    {
        WagerStore { records: Vec::new() }
    }

    fn find_index(&self, id: u64) -> (r: Option<usize>)
        ensures
            match r {
                Some(i) => i < self.records@.len() && self.records@[i as int].id == id,
                None => !self.contains_id(id),
            },
    {
        let mut i: usize = 0;
        while i < self.records.len()
            invariant
                i <= self.records@.len(),
                forall|k: int| 0 <= k < i ==> self.records@[k].id != id,
            decreases self.records@.len() - i,
        {
            if self.records[i].id == id {
                return Some(i);
            }
            i = i + 1;
        }
        None
    }

    /// File a new record under its id.  Fails with `DuplicateId`, changing
    /// nothing, exactly when a record under that id already exists.
    pub fn insert(&mut self, w: Wager) -> (r: Result<(), Error>)
        requires
            old(self).wf(),
        ensures
            final(self).wf(),
            match r {
                Ok(()) => {
                    &&& !old(self).contains_id(w.id)
                    &&& final(self).contains_id(w.id)
                    &&& final(self).record_at(w.id) == w
                    &&& forall|id: u64|
                        id != w.id ==> final(self).contains_id(id) == old(self).contains_id(id)
                    &&& forall|id: u64|
                        id != w.id && old(self).contains_id(id) ==> final(self).record_at(id)
                            == old(self).record_at(id)
                    &&& final(self).pending_total() == old(self).pending_total()
                        + pending_contribution(w)
                    &&& final(self).count() == old(self).count() + 1
                },
                Err(e) => {
                    &&& e == Error::DuplicateId
                    &&& old(self).contains_id(w.id)
                    &&& *final(self) == *old(self)
                },
            },
    {
        match self.find_index(w.id) {
            Some(_) => Err(Error::DuplicateId),
            None => {
                let ghost before = self.records@;
                let ghost wid = w.id;
                self.records.push(w);
                proof {
                    let after = self.records@;
                    lemma_sum_push(before, after[before.len() as int]);
                    assert forall|i: int| 0 <= i < before.len() implies before[i].id != wid by {
                        assert(!has_id(before, wid));
                    }
                    assert(unique_ids(after));
                    lemma_record_at_index(after, before.len() as int);
                    assert forall|id: u64| id != wid && has_id(before, id) implies has_id(
                        after,
                        id,
                    ) && record_of(after, id) == record_of(before, id) by {
                        let i = index_of(before, id);
                        assert(0 <= i < before.len() && before[i].id == id);
                        assert(after[i] == before[i]);
                        lemma_record_at_index(after, i);
                        lemma_record_at_index(before, i);
                    }
                    assert forall|id: u64| id != wid && has_id(after, id) implies has_id(
                        before,
                        id,
                    ) by {
                        let i = index_of(after, id);
                        assert(0 <= i < after.len() && after[i].id == id);
                        assert(i != before.len());
                        assert(before[i].id == id);
                    }
                }
                Ok(())
            },
        }
    }

    /// Read the record under the id.  Fails with `NotFound` exactly when no
    /// record exists under it.
    pub fn get(&self, id: u64) -> (r: Result<&Wager, Error>)
        requires
            self.wf(),
        ensures
            match r {
                Ok(w) => self.contains_id(id) && *w == self.record_at(id),
                Err(e) => e == Error::NotFound && !self.contains_id(id),
            },
    {
        match self.find_index(id) {
            None => Err(Error::NotFound),
            Some(i) => {
                proof {
                    lemma_record_at_index(self.records@, i as int);
                }
                Ok(&self.records[i])
            },
        }
    }

    /// Replace the status of the record under the id, keeping every other
    /// field.  Fails with `NotFound`, changing nothing, exactly when no
    /// record exists under it.
    pub fn set_status(&mut self, id: u64, status: WagerStatus) -> (r: Result<(), Error>)
        requires
            old(self).wf(),
        ensures
            final(self).wf(),
            match r {
                Ok(()) => {
                    &&& old(self).contains_id(id)
                    &&& final(self).contains_id(id)
                    &&& final(self).record_at(id) == with_status(old(self).record_at(id), status)
                    &&& forall|j: u64|
                        j != id ==> final(self).contains_id(j) == old(self).contains_id(j)
                    &&& forall|j: u64|
                        j != id && old(self).contains_id(j) ==> final(self).record_at(j)
                            == old(self).record_at(j)
                    &&& final(self).pending_total() == old(self).pending_total()
                        - pending_contribution(old(self).record_at(id))
                        + pending_contribution(with_status(old(self).record_at(id), status))
                    &&& final(self).count() == old(self).count()
                },
                Err(e) => {
                    &&& e == Error::NotFound
                    &&& !old(self).contains_id(id)
                    &&& *final(self) == *old(self)
                },
            },
    {
        match self.find_index(id) {
            None => Err(Error::NotFound),
            Some(i) => {
                let ghost before = self.records@;
                proof {
                    lemma_record_at_index(before, i as int);
                }
                let mut w = self.records.remove(i);
                w.status = status;
                self.records.insert(i, w);
                proof {
                    let after = self.records@;
                    let neww = with_status(before[i as int], status);
                    assert(after =~= before.update(i as int, neww));
                    lemma_sum_update(before, i as int, neww);
                    assert forall|a: int, b: int| 0 <= a < b < after.len() implies after[a].id
                        != after[b].id by {
                        assert(after[a].id == before[a].id);
                        assert(after[b].id == before[b].id);
                    }
                    lemma_record_at_index(after, i as int);
                    assert forall|j: u64| j != id && has_id(before, j) implies has_id(after, j)
                        && record_of(after, j) == record_of(before, j) by {
                        let k = index_of(before, j);
                        assert(0 <= k < before.len() && before[k].id == j);
                        assert(k != i);
                        assert(after[k] == before[k]);
                        lemma_record_at_index(after, k);
                        lemma_record_at_index(before, k);
                    }
                    assert forall|j: u64| j != id && has_id(after, j) implies has_id(before, j) by {
                        let k = index_of(after, j);
                        assert(0 <= k < after.len() && after[k].id == j);
                        assert(k != i);
                        assert(before[k].id == j);
                    }
                }
                Ok(())
            },
        }
    }

    /// Take the record under the id out of the store.  Removal is
    /// idempotent: absent ids are a safe no-op, and afterwards no record
    /// exists under the id either way.
    pub fn remove(&mut self, id: u64)
        requires
            old(self).wf(),
        ensures
            final(self).wf(),
            !final(self).contains_id(id),
            forall|j: u64| j != id ==> final(self).contains_id(j) == old(self).contains_id(j),
            forall|j: u64|
                j != id && old(self).contains_id(j) ==> final(self).record_at(j) == old(
                    self,
                ).record_at(j),
            final(self).pending_total() == old(self).pending_total() - if old(self).contains_id(id) {
                pending_contribution(old(self).record_at(id))
            } else {
                0
            },
            final(self).count() == old(self).count() - if old(self).contains_id(id) {
                1int
            } else {
                0int
            },
    {
        match self.find_index(id) {
            None => {},
            Some(i) => {
                let ghost before = self.records@;
                proof {
                    lemma_record_at_index(before, i as int);
                }
                self.records.remove(i);
                proof {
                    let after = self.records@;
                    lemma_sum_remove(before, i as int);
                    assert forall|k: int| 0 <= k < after.len() implies after[k] == (if k < i {
                        before[k]
                    } else {
                        before[k + 1]
                    }) by {}
                    assert forall|a: int, b: int| 0 <= a < b < after.len() implies after[a].id
                        != after[b].id by {
                        let a0 = if a < i { a } else { a + 1 };
                        let b0 = if b < i { b } else { b + 1 };
                        assert(after[a].id == before[a0].id);
                        assert(after[b].id == before[b0].id);
                    }
                    assert forall|j: u64| has_id(after, j) implies j != id && has_id(before, j) by {
                        let k = index_of(after, j);
                        assert(0 <= k < after.len() && after[k].id == j);
                        let k0 = if k < i { k } else { k + 1 };
                        assert(before[k0].id == j);
                        assert(k0 != i);
                        lemma_record_at_index(before, k0);
                    }
                    assert forall|j: u64| j != id && has_id(before, j) implies has_id(after, j)
                        && record_of(after, j) == record_of(before, j) by {
                        let k0 = index_of(before, j);
                        assert(0 <= k0 < before.len() && before[k0].id == j);
                        assert(k0 != i);
                        let k = if k0 < i {
                            k0
                        } else {
                            k0 - 1
                        };
                        assert(after[k] == before[k0]);
                        lemma_record_at_index(after, k);
                        lemma_record_at_index(before, k0);
                    }
                }
            },
        }
    }
}

} // verus!
