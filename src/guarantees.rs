//! What the protocol guarantees when its sessions run against a table that
//! keeps the persistence contract of `crate::store`.
use vstd::prelude::*;

use crate::coordinator::{observed_status, Phase, Session, Step};
use crate::model::ProcessStatus;
use crate::store::{
    apply_op, claim_spec, complete_spec, invalidate_spec, replay, Key, Record, TableOp,
};
use crate::time::{Duration, Timestamp};

verus! {

/// The step a session takes after claiming `key` in table `t` at `now`.
pub open spec fn start_step(s: Session, t: Map<Key, Record>, key: Key, now: Timestamp) -> Step<Seq<char>> {
    s.claim_transition(now, observed_status(claim_spec(t, key, now).1, now, s.max_processing_time)).1
}

pub open spec fn op_key(op: TableOp) -> Key {
    match op {
        TableOp::Claim { key, .. } => key,
        TableOp::Complete { key, .. } => key,
        TableOp::Invalidate { key } => key,
    }
}

/// Within the timeout window of a record that nobody completed and that has
/// not expired, no caller is told to run the effect: a claim on its key
/// leaves the table as it is and sends the caller to wait, and a caller that
/// is already waiting, whose wait began after the record started and whose
/// cap is no shorter than the maximum processing time, does not take over on
/// waking. The caller whose claim created the record is then the only runner
/// until the window ends or the record is completed or deleted.
pub proof fn lemma_single_runner_within_window(t: Map<Key, Record>, key: Key, now: Timestamp, s: Session)
    requires
        t.contains_key(key),
        t[key].completed_at is None,
        !t[key].is_expired_spec(now),
        now.nanos < t[key].started_at.nanos + s.max_processing_time.nanos,
        !(s.phase is Finished),
    ensures
        claim_spec(t, key, now).0 == t,
        start_step(s, t, key, now) is Sleep,
        (s.phase matches Phase::Polling { since, .. } && t[key].started_at.nanos <= since.nanos
            && s.strategy.max_duration_spec().nanos >= s.max_processing_time.nanos) ==> s.wake_transition::<
            Seq<char>,
        >(now).1 != Ok::<Step<Seq<char>>, ()>(Step::New),
{
}

/// The first claim on a key that has no record runs the effect, and leaves a
/// record that started at that instant and that nobody completed.
pub proof fn lemma_first_claim_runs(t: Map<Key, Record>, key: Key, now: Timestamp, s: Session)
    requires
        !t.contains_key(key),
        !(s.phase is Finished),
    ensures
        start_step(s, t, key, now) == Step::<Seq<char>>::New,
        claim_spec(t, key, now).0.contains_key(key),
        claim_spec(t, key, now).0[key].started_at == now,
        claim_spec(t, key, now).0[key].completed_at is None,
{
}

proof fn lemma_memoized_was_completed(ops: Seq<TableOp>, key: Key, v: Seq<char>)
    requires
        replay(ops).contains_key(key),
        replay(ops)[key].memoized == Some(v),
    ensures
        exists|i: int|
            0 <= i < ops.len() && (#[trigger] ops[i] matches TableOp::Complete { key: k, value: w, .. }
                && k == key && w == v),
    decreases ops.len(),
{
    let prev = ops.drop_last();
    let last = ops.last();
    if last matches TableOp::Complete { key: k, value: w, .. } && k == key && w == v {
        assert(ops[ops.len() - 1] == last);
    } else {
        assert(replay(ops) == apply_op(replay(prev), last));
        assert(replay(prev).contains_key(key) && replay(prev)[key].memoized == Some(v));
        lemma_memoized_was_completed(prev, key, v);
        let i = choose|i: int|
            0 <= i < prev.len() && (#[trigger] prev[i] matches TableOp::Complete { key: k, value: w, .. }
                && k == key && w == v);
        assert(ops[i] == prev[i]);
    }
}

/// A caller is handed a memoized value only after some completion wrote
/// exactly that value for the same key: in any table reached from an empty
/// one, a duplicate's value is that of an earlier completion.
pub proof fn lemma_duplicate_follows_completion(ops: Seq<TableOp>, key: Key, now: Timestamp, s: Session, v: Seq<char>)
    requires
        start_step(s, replay(ops), key, now) == Step::Duplicate(v),
    ensures
        exists|i: int|
            0 <= i < ops.len() && (#[trigger] ops[i] matches TableOp::Complete { key: k, value: w, .. }
                && k == key && w == v),
{
    lemma_memoized_was_completed(ops, key, v);
}

/// After a key is invalidated, the next attempt to start it runs the effect.
pub proof fn lemma_invalidate_then_start_is_new(t: Map<Key, Record>, key: Key, now: Timestamp, s: Session)
    requires
        !(s.phase is Finished),
    ensures
        claim_spec(invalidate_spec(t, key), key, now).1 is None,
        start_step(s, invalidate_spec(t, key), key, now) == Step::<Seq<char>>::New,
{
}

/// Once a claim was followed by a completion with `v`, the next attempt to
/// start the key is a duplicate carrying `v`, whatever the time to live and
/// whatever the instant: completion outranks expiry and timeout.
pub proof fn lemma_completion_visible_to_next_start(
    t: Map<Key, Record>,
    key: Key,
    claimed_at: Timestamp,
    completed_at: Timestamp,
    ttl: Option<Duration>,
    v: Seq<char>,
    now: Timestamp,
    s: Session,
)
    requires
        !(s.phase is Finished),
    ensures
        ({
            let done = complete_spec(claim_spec(t, key, claimed_at).0, key, completed_at, ttl, v);
            &&& claim_spec(done, key, now).0 == done
            &&& s.claim_transition(now, observed_status(claim_spec(done, key, now).1, now, s.max_processing_time))
                == (Phase::Finished, Step::Duplicate(v))
        }),
{
}

/// An operation on one key leaves the record of every other key as it was.
pub proof fn lemma_other_keys_untouched(t: Map<Key, Record>, op: TableOp, other: Key)
    requires
        op_key(op) != other,
    ensures
        apply_op(t, op).contains_key(other) == t.contains_key(other),
        t.contains_key(other) ==> apply_op(t, op)[other] == t[other],
{
}

/// Two distinct signals under one scope never interfere: whatever is done to
/// the first, a claim on the second observes, and decides, the same as before.
pub proof fn lemma_distinct_signals_independent(
    t: Map<Key, Record>,
    a: Seq<char>,
    b: Seq<char>,
    scope: Seq<char>,
    op: TableOp,
    now: Timestamp,
    s: Session,
)
    requires
        a != b,
        op_key(op) == (a, scope),
    ensures
        claim_spec(apply_op(t, op), (b, scope), now).1 == claim_spec(t, (b, scope), now).1,
        start_step(s, apply_op(t, op), (b, scope), now) == start_step(s, t, (b, scope), now),
{
    lemma_other_keys_untouched(t, op, (b, scope));
}

/// One signal under two distinct scopes is deduplicated separately: whatever
/// is done under the first scope, a claim under the second observes, and
/// decides, the same as before.
pub proof fn lemma_distinct_scopes_independent(
    t: Map<Key, Record>,
    id: Seq<char>,
    p: Seq<char>,
    q: Seq<char>,
    op: TableOp,
    now: Timestamp,
    s: Session,
)
    requires
        p != q,
        op_key(op) == (id, p),
    ensures
        claim_spec(apply_op(t, op), (id, q), now).1 == claim_spec(t, (id, q), now).1,
        start_step(s, apply_op(t, op), (id, q), now) == start_step(s, t, (id, q), now),
{
    lemma_other_keys_untouched(t, op, (id, q));
}

/// A record completed without a time to live, which had no expiry, never
/// expires: at every later instant it is completed with its value.
pub proof fn lemma_no_ttl_never_expires(
    t: Map<Key, Record>,
    key: Key,
    now: Timestamp,
    v: Seq<char>,
    later: Timestamp,
    max_processing_time: Duration,
)
    requires
        t.contains_key(key) ==> t[key].expires_on is None,
    ensures
        ({
            let r = complete_spec(t, key, now, None, v)[key];
            &&& r.expires_on is None
            &&& !r.is_expired_spec(later)
            &&& r.status_spec(later, max_processing_time) == ProcessStatus::Completed(v)
        }),
{
}

} // verus!
