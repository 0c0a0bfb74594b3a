//! The persistence contract, and an in-memory table that keeps it.
//!
//! A table maps a key, the JSON text of a signal identifier and of a
//! processor scope, to a record whose memoized value is JSON text too. Its
//! three operations are the atomic claim, the completion write, and the
//! delete; `claim_spec`, `complete_spec` and `invalidate_spec` state what
//! each does to the table, and every backend is expected to keep them.
use vstd::prelude::*;

use crate::model::{Completion, Expiration, Process};
use crate::time::{Duration, Timestamp};
use crate::wire::text_view;

verus! {

/// A key: the signal identifier and the processor scope.
pub type Key = (Seq<char>, Seq<char>);

/// A record as the table holds it.
pub type Record = Process<Seq<char>, Seq<char>, Seq<char>>;

/// A row of a table in executable form.
pub type Row = Process<String, String, String>;

pub open spec fn row_key(r: Row) -> Key {
    (r.id@, r.processor_id@)
}

pub open spec fn row_view(r: Row) -> Record {
    Process {
        id: r.id@,
        processor_id: r.processor_id@,
        started_at: r.started_at,
        completed_at: r.completed_at,
        expires_on: r.expires_on,
        memoized: text_view(r.memoized),
    }
}

/// The record that a claim at `now` creates.
pub open spec fn fresh_record(key: Key, now: Timestamp) -> Record {
    Process {
        id: key.0,
        processor_id: key.1,
        started_at: now,
        completed_at: None,
        expires_on: None,
        memoized: None,
    }
}

/// The claim: where the key has no record, one started at `now` is created
/// and nothing is returned; else the table is left as it is and its record
/// is returned.
pub open spec fn claim_spec(t: Map<Key, Record>, key: Key, now: Timestamp) -> (Map<Key, Record>, Option<Record>) {
    if t.contains_key(key) {
        (t, Some(t[key]))
    } else {
        (t.insert(key, fresh_record(key, now)), None)
    }
}

/// The completion: the record of the key (created if absent, as started at
/// `now`) is marked completed at `now` with `value`, and, with a time to
/// live, expires that long after `now`. Without one its expiry is kept.
pub open spec fn complete_spec(
    t: Map<Key, Record>,
    key: Key,
    now: Timestamp,
    ttl: Option<Duration>,
    value: Seq<char>,
) -> Map<Key, Record> {
    let base = if t.contains_key(key) { t[key] } else { fresh_record(key, now) };
    let expires_on = match ttl {
        Some(d) => Some(Expiration { instant: now.saturating_add_spec(d) }),
        None => base.expires_on,
    };
    t.insert(key, Process { completed_at: Some(now), expires_on, memoized: Some(value), ..base })
}

/// The delete: the key has no record afterwards, whether it had one or not.
pub open spec fn invalidate_spec(t: Map<Key, Record>, key: Key) -> Map<Key, Record> {
    t.remove(key)
}

/// An operation on a table.
pub enum TableOp {
    Claim { key: Key, now: Timestamp },
    Complete { key: Key, now: Timestamp, ttl: Option<Duration>, value: Seq<char> },
    Invalidate { key: Key },
}

pub open spec fn apply_op(t: Map<Key, Record>, op: TableOp) -> Map<Key, Record> {
    match op {
        TableOp::Claim { key, now } => claim_spec(t, key, now).0,
        TableOp::Complete { key, now, ttl, value } => complete_spec(t, key, now, ttl, value),
        TableOp::Invalidate { key } => invalidate_spec(t, key),
    }
}

/// The table that a sequence of operations leaves, starting from an empty one.
pub open spec fn replay(ops: Seq<TableOp>) -> Map<Key, Record>
    decreases ops.len(),
{
    if ops.len() == 0 {
        Map::empty()
    } else {
        apply_op(replay(ops.drop_last()), ops.last())
    }
}

fn copy_text(o: &Option<String>) -> (r: Option<String>)
    ensures
        text_view(r) == text_view(*o),
{
    match o {
        Some(s) => Some(s.clone()),
        None => None,
    }
}

fn copy_row(r: &Row) -> (c: Row)
    ensures
        row_view(c) == row_view(*r),
{
    Process {
        id: r.id.clone(),
        processor_id: r.processor_id.clone(),
        started_at: r.started_at,
        completed_at: r.completed_at,
        expires_on: r.expires_on,
        memoized: copy_text(&r.memoized),
    }
}

/// A table held in memory, for a single process and for tests.
pub struct MemoryTable {
    rows: Vec<Row>,
    model: Ghost<Map<Key, Record>>,
}

impl View for MemoryTable {
    type V = Map<Key, Record>;

    closed spec fn view(&self) -> Map<Key, Record> {
        self.model@
    }
}

impl MemoryTable {
    /// Keys are unique among the rows, and the model maps each row's key to
    /// its record and holds no other key.
    pub closed spec fn wf(&self) -> bool {
        &&& forall|i: int, j: int|
            0 <= i < j < self.rows@.len() ==> row_key(#[trigger] self.rows@[i]) != row_key(
                #[trigger] self.rows@[j],
            )
        &&& forall|i: int|
            0 <= i < self.rows@.len() ==> self.model@.contains_key(row_key(#[trigger] self.rows@[i]))
                && self.model@[row_key(self.rows@[i])] == row_view(self.rows@[i])
        &&& forall|k: Key|
            #[trigger] self.model@.contains_key(k) ==> exists|i: int|
                0 <= i < self.rows@.len() && row_key(#[trigger] self.rows@[i]) == k
    }

    pub fn new() -> (r: MemoryTable)
        ensures
            r.wf(),
            r@ == Map::<Key, Record>::empty(),
    {
        MemoryTable { rows: Vec::new(), model: Ghost(Map::empty()) }
    }

    fn find(&self, id: &String, processor_id: &String) -> (r: Option<usize>)
        requires
            self.wf(),
        ensures
            match r {
                Some(i) => i < self.rows@.len() && row_key(self.rows@[i as int]) == (id@, processor_id@),
                None => !self@.contains_key((id@, processor_id@)),
            },
    {
        let mut i: usize = 0;
        while i < self.rows.len()
            invariant
                self.wf(),
                i <= self.rows@.len(),
                forall|j: int| 0 <= j < i ==> row_key(#[trigger] self.rows@[j]) != (id@, processor_id@),
            decreases self.rows@.len() - i,
        {
            if self.rows[i].id == *id && self.rows[i].processor_id == *processor_id {
                return Some(i);
            }
            i = i + 1;
        }
        None
    }

    /// A copy of the record of a key, if it has one.
    pub fn get(&self, id: &String, processor_id: &String) -> (r: Option<Row>)
        requires
            self.wf(),
        ensures
            match r {
                Some(row) => self@.contains_key((id@, processor_id@)) && self@[(id@, processor_id@)]
                    == row_view(row),
                None => !self@.contains_key((id@, processor_id@)),
            },
    {
        match self.find(id, processor_id) {
            Some(i) => Some(copy_row(&self.rows[i])),
            None => None,
        }
    }

    /// The atomic claim of `claim_spec`: returns the record that stood before,
    /// or `None` where this call created it.
    pub fn claim(&mut self, id: String, processor_id: String, now: Timestamp) -> (r: Option<Row>)
        requires
            old(self).wf(),
        ensures
            final(self).wf(),
            final(self)@ == claim_spec(old(self)@, (id@, processor_id@), now).0,
            match r {
                Some(row) => claim_spec(old(self)@, (id@, processor_id@), now).1 == Some(row_view(row)),
                None => claim_spec(old(self)@, (id@, processor_id@), now).1 is None,
            },
    {
        match self.find(&id, &processor_id) {
            Some(i) => Some(copy_row(&self.rows[i])),
            None => {
                let ghost key = (id@, processor_id@);
                let row = Process::new(id, processor_id, now);
                assert(row_view(row) == fresh_record(key, now));
                self.rows.push(row);
                self.model = Ghost(self.model@.insert(key, fresh_record(key, now)));
                proof {
                    let n = self.rows@.len() - 1;
                    assert(row_key(self.rows@[n]) == key);
                    assert forall|k: Key| #[trigger] self.model@.contains_key(k) implies exists|i: int|
                        0 <= i < self.rows@.len() && row_key(#[trigger] self.rows@[i]) == k by {
                        if k != key {
                            let i = choose|i: int| 0 <= i < old(self).rows@.len() && row_key(#[trigger] old(self).rows@[i]) == k;
                            assert(self.rows@[i] == old(self).rows@[i]);
                        }
                    }
                }
                None
            },
        }
    }

    /// The completion write of `complete_spec`, for the key of `completion`.
    pub fn complete(&mut self, completion: &Completion<String, String>, now: Timestamp, value: String)
        requires
            old(self).wf(),
        ensures
            final(self).wf(),
            final(self)@ == complete_spec(
                old(self)@,
                (completion.id@, completion.processor_id@),
                now,
                completion.ttl,
                value@,
            ),
    {
        let ghost key = (completion.id@, completion.processor_id@);
        let ghost expected = complete_spec(old(self)@, key, now, completion.ttl, value@);
        match self.find(&completion.id, &completion.processor_id) {
            Some(i) => {
                let old_expiry = self.rows[i].expires_on;
                let expires_on = match completion.expiration_at(now) {
                    Some(e) => Some(e),
                    None => old_expiry,
                };
                let mut row = copy_row(&self.rows[i]);
                row.completed_at = Some(now);
                row.expires_on = expires_on;
                row.memoized = Some(value);
                assert(row_view(row) == expected[key]);
                self.rows.set(i, row);
                self.model = Ghost(expected);
                proof {
                    assert forall|k: Key| #[trigger] self.model@.contains_key(k) implies exists|j: int|
                        0 <= j < self.rows@.len() && row_key(#[trigger] self.rows@[j]) == k by {
                        if k != key {
                            let j = choose|j: int| 0 <= j < old(self).rows@.len() && row_key(#[trigger] old(self).rows@[j]) == k;
                            assert(self.rows@[j] == old(self).rows@[j]);
                        } else {
                            assert(row_key(self.rows@[i as int]) == k);
                        }
                    }
                }
            },
            None => {
                let mut row = Process::new(completion.id.clone(), completion.processor_id.clone(), now);
                row.completed_at = Some(now);
                row.expires_on = completion.expiration_at(now);
                row.memoized = Some(value);
                assert(row_view(row) == expected[key]);
                self.rows.push(row);
                self.model = Ghost(expected);
                proof {
                    let n = self.rows@.len() - 1;
                    assert(row_key(self.rows@[n]) == key);
                    assert forall|k: Key| #[trigger] self.model@.contains_key(k) implies exists|j: int|
                        0 <= j < self.rows@.len() && row_key(#[trigger] self.rows@[j]) == k by {
                        if k != key {
                            let j = choose|j: int| 0 <= j < old(self).rows@.len() && row_key(#[trigger] old(self).rows@[j]) == k;
                            assert(self.rows@[j] == old(self).rows@[j]);
                        }
                    }
                }
            },
        }
    }

    /// The delete of `invalidate_spec`; a key without a record is no error.
    pub fn invalidate(&mut self, id: &String, processor_id: &String)
        requires
            old(self).wf(),
        ensures
            final(self).wf(),
            final(self)@ == invalidate_spec(old(self)@, (id@, processor_id@)),
    {
        let ghost key = (id@, processor_id@);
        match self.find(id, processor_id) {
            Some(i) => {
                let ghost before = self.rows@;
                self.rows.remove(i);
                self.model = Ghost(self.model@.remove(key));
                proof {
                    assert forall|j: int| 0 <= j < self.rows@.len() implies #[trigger] self.rows@[j] == (if j
                        < i {
                        before[j]
                    } else {
                        before[j + 1]
                    }) by {}
                    assert forall|k: Key| #[trigger] self.model@.contains_key(k) implies exists|j: int|
                        0 <= j < self.rows@.len() && row_key(#[trigger] self.rows@[j]) == k by {
                        let j = choose|j: int| 0 <= j < before.len() && row_key(#[trigger] before[j]) == k;
                        assert(j != i);
                        if j < i {
                            assert(self.rows@[j] == before[j]);
                        } else {
                            assert(self.rows@[j - 1] == before[j]);
                        }
                    }
                    assert forall|a: int, b: int| 0 <= a < b < self.rows@.len() implies row_key(
                        #[trigger] self.rows@[a],
                    ) != row_key(#[trigger] self.rows@[b]) by {
                        let a0 = if a < i { a } else { a + 1 };
                        let b0 = if b < i { b } else { b + 1 };
                        assert(self.rows@[a] == before[a0]);
                        assert(self.rows@[b] == before[b0]);
                    }
                    assert forall|j: int| 0 <= j < self.rows@.len() implies self.model@.contains_key(
                        row_key(#[trigger] self.rows@[j]),
                    ) && self.model@[row_key(self.rows@[j])] == row_view(self.rows@[j]) by {
                        let j0 = if j < i { j } else { j + 1 };
                        assert(self.rows@[j] == before[j0]);
                        assert(j0 != i);
                    }
                }
            },
            None => {
                assert(self.model@.remove(key) =~= self.model@);
            },
        }
    }
}

} // verus!
