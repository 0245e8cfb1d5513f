//! What the protocol guarantees, proved of the mathematical state and so,
//! through the contracts of the store, of every run of the store.

use vstd::prelude::*;
use crate::error::WorkflowError;
use crate::fencing::fencing_verdict;
use crate::lease::{lease_is_live, lemma_remaining_lease_time, remaining_lease_time};
use crate::lifecycle::{expiry_fits, is_expired, FinishDecision};
use crate::model::{LeaseOutcome, StoreView};
use crate::schema::{CheckpointRecord, LeasedCheckpointValue, WorkflowRecord, WorkflowStatus};

verus! {

// ---- epochs ----

/// The state after one top-level start of the workflow `id` at each of the
/// instants `times`, in order.
pub open spec fn started(s: StoreView, id: Seq<char>, times: Seq<i64>) -> StoreView
    decreases times.len(),
{
    if times.len() == 0 {
        s
    } else {
        started(s, id, times.drop_last()).start(id, false, times.last())
    }
}

/// The epoch recorded for `id`, or 0 where none is.
pub open spec fn epoch(s: StoreView, id: Seq<char>) -> int {
    match s.token(id) {
        Some(token) => token as int,
        None => 0,
    }
}

/// Epochs are monotonic: the k-th of a run of top-level starts of one
/// workflow is answered with the epoch recorded before the run plus k. For a
/// workflow that was never started the answers are 1, 2, 3 and so on.
pub proof fn lemma_monotonic_epochs(s: StoreView, id: Seq<char>, times: Seq<i64>)
    requires
        epoch(s, id) + times.len() <= i64::MAX,
    ensures
        epoch(started(s, id, times), id) == epoch(s, id) + times.len(),
        forall|k: int|
            0 <= k < times.len() ==> #[trigger] started(s, id, times.subrange(0, k)).start_result(
                id,
                false,
            ) == Ok::<int, WorkflowError>(epoch(s, id) + k + 1),
    decreases times.len(),
{
    if times.len() > 0 {
        let shorter = times.drop_last();
        lemma_monotonic_epochs(s, id, shorter);
        let before = started(s, id, shorter);
        assert(epoch(before, id) == epoch(s, id) + shorter.len());
        assert forall|k: int| 0 <= k < times.len() implies #[trigger] started(
            s,
            id,
            times.subrange(0, k),
        ).start_result(id, false) == Ok::<int, WorkflowError>(epoch(s, id) + k + 1) by {
            if k < shorter.len() {
                assert(times.subrange(0, k) =~= shorter.subrange(0, k));
            } else {
                assert(times.subrange(0, k) =~= shorter);
            }
        }
    }
}

/// A nested start answers with the recorded epoch and leaves every epoch as
/// it is; without a recorded epoch it fails.
pub proof fn lemma_nested_inheritance(s: StoreView, id: Seq<char>, now: i64)
    ensures
        s.start_result(id, true) == match s.token(id) {
            Some(token) => Ok::<int, WorkflowError>(token as int),
            None => Err::<int, WorkflowError>(WorkflowError::NestedFencingConflict),
        },
        s.start(id, true, now).tokens == s.tokens,
{
    assert(s.start(id, true, now).tokens =~= s.tokens);
}

/// No operation but the cleanup lowers or forgets a recorded epoch, and only
/// a top-level start raises one, by exactly 1.
pub proof fn lemma_epochs_never_decrease(
    s: StoreView,
    id: Seq<char>,
    other: Seq<char>,
    is_nested: bool,
    fencing_token: i64,
    position: i64,
    lease_timeout: i64,
    expire_after: i64,
    idempotency_checksum: i64,
    value: Seq<u8>,
    now: i64,
)
    requires
        s.grant_fits(other, is_nested),
    ensures
        s.commit(other, fencing_token, position, idempotency_checksum, value, now).tokens
            == s.tokens,
        s.try_lease(
            other,
            fencing_token,
            position,
            lease_timeout,
            idempotency_checksum,
            now,
        ).tokens == s.tokens,
        s.release(other, position).tokens == s.tokens,
        s.finish(other, fencing_token, expire_after, now).tokens == s.tokens,
        s.cleanup(false, now).tokens == s.tokens,
        s.token(id) matches Some(token) ==> s.start(other, is_nested, now).token(id) == Some(
            if other == id && !is_nested {
                (token + 1) as i64
            } else {
                token
            },
        ),
{
}

// ---- the ledger ----

/// A commit that succeeded succeeds again when it is repeated with the same
/// idempotency checksum, whatever the token, the instant and the value of
/// the repetition: the step keeps its one row, and the row keeps the value
/// that was written first.
pub proof fn lemma_idempotent_commit(
    s: StoreView,
    id: Seq<char>,
    fencing_token: i64,
    position: i64,
    idempotency_checksum: i64,
    value: Seq<u8>,
    now: i64,
    second_token: i64,
    again: Seq<u8>,
    later: i64,
)
    requires
        s.commit_result(id, fencing_token, position, idempotency_checksum, now) is Ok,
    ensures
        ({
            let once = s.commit(id, fencing_token, position, idempotency_checksum, value, now);
            let twice = once.commit(id, second_token, position, idempotency_checksum, again, later);
            &&& once.commit_result(id, second_token, position, idempotency_checksum, later) is Ok
            &&& once.commit_result(id, fencing_token, position, idempotency_checksum, later)
                == s.commit_result(id, fencing_token, position, idempotency_checksum, now)
            &&& once.checkpoints.contains_key((id, position))
            &&& once.checkpoints[(id, position)].idempotency_checksum == idempotency_checksum
            &&& s.checkpoint(id, position) is None ==> once.checkpoints[(id, position)].value
                == value
            &&& twice.checkpoints == once.checkpoints
        }),
{
    let once = s.commit(id, fencing_token, position, idempotency_checksum, value, now);
    let twice = once.commit(id, second_token, position, idempotency_checksum, again, later);
    assert(!once.leases.contains_key((id, position)));
    assert(twice.checkpoints =~= once.checkpoints);
}

/// Once a step is committed, a commit with another idempotency checksum
/// fails as non-deterministic, whoever makes it and whenever, unless it is
/// fenced off first; and the committed row stays as it is.
pub proof fn lemma_non_determinism_detected(
    s: StoreView,
    id: Seq<char>,
    fencing_token: i64,
    position: i64,
    idempotency_checksum: i64,
    value: Seq<u8>,
    now: i64,
)
    requires
        s.checkpoint(id, position) matches Some(record) && record.idempotency_checksum
            != idempotency_checksum,
    ensures
        s.commit_result(id, fencing_token, position, idempotency_checksum, now) is Err,
        s.token(id) is Some && s.lease(id, position) is None ==> s.commit_result(
            id,
            fencing_token,
            position,
            idempotency_checksum,
            now,
        ) == Err::<bool, WorkflowError>(
            WorkflowError::NonDeterministicCheckpoint {
                position_checksum: position,
                stored: s.checkpoints[(id, position)].idempotency_checksum,
                provided: idempotency_checksum,
            },
        ),
        s.commit(id, fencing_token, position, idempotency_checksum, value, now).checkpoints
            == s.checkpoints,
{
    assert(s.commit(id, fencing_token, position, idempotency_checksum, value, now).checkpoints
        =~= s.checkpoints);
}

/// After a first commit of a step that had no row, a second commit with
/// another idempotency checksum fails as non-deterministic, whatever its
/// token, and the row still holds what the first commit wrote.
pub proof fn lemma_second_commit_rejected(
    s: StoreView,
    id: Seq<char>,
    fencing_token: i64,
    position: i64,
    first_checksum: i64,
    first: Seq<u8>,
    now: i64,
    second_token: i64,
    second_checksum: i64,
    second: Seq<u8>,
    later: i64,
)
    requires
        s.checkpoint(id, position) is None,
        s.commit_result(id, fencing_token, position, first_checksum, now) is Ok,
        first_checksum != second_checksum,
    ensures
        ({
            let once = s.commit(id, fencing_token, position, first_checksum, first, now);
            let twice = once.commit(id, second_token, position, second_checksum, second, later);
            &&& once.commit_result(id, second_token, position, second_checksum, later) == Err::<
                bool,
                WorkflowError,
            >(
                WorkflowError::NonDeterministicCheckpoint {
                    position_checksum: position,
                    stored: first_checksum,
                    provided: second_checksum,
                },
            )
            &&& twice.checkpoint(id, position) == Some(
                CheckpointRecord {
                    idempotency_checksum: first_checksum,
                    value: first,
                    created_at: now,
                },
            )
        }),
{
    let once = s.commit(id, fencing_token, position, first_checksum, first, now);
    assert(!once.leases.contains_key((id, position)));
}

/// Committed rows are immutable: no operation but the cleanup changes or
/// removes the row of a committed step.
pub proof fn lemma_checkpoints_immutable(
    s: StoreView,
    id: Seq<char>,
    position: i64,
    other: Seq<char>,
    is_nested: bool,
    fencing_token: i64,
    other_position: i64,
    lease_timeout: i64,
    expire_after: i64,
    idempotency_checksum: i64,
    value: Seq<u8>,
    now: i64,
)
    requires
        s.checkpoint(id, position) is Some,
    ensures
        s.commit(
            other,
            fencing_token,
            other_position,
            idempotency_checksum,
            value,
            now,
        ).checkpoint(id, position) == s.checkpoint(id, position),
        s.try_lease(
            other,
            fencing_token,
            other_position,
            lease_timeout,
            idempotency_checksum,
            now,
        ).checkpoints == s.checkpoints,
        s.release(other, other_position).checkpoints == s.checkpoints,
        s.start(other, is_nested, now).checkpoints == s.checkpoints,
        s.finish(other, fencing_token, expire_after, now).checkpoints == s.checkpoints,
        s.cleanup(false, now).checkpoints == s.checkpoints,
{
}

// ---- leases ----

/// While a lease is live, every further attempt on its step, by whomever,
/// is answered with the time that the lease still runs, and is never
/// granted. Where the arithmetic stays within `i64` that time is the expiry
/// of the lease less the instant of the attempt.
pub proof fn lemma_lease_exclusivity(
    s: StoreView,
    id: Seq<char>,
    fencing_token: i64,
    position: i64,
    lease_timeout: i64,
    idempotency_checksum: i64,
    now: i64,
    second_token: i64,
    second_timeout: i64,
    second_checksum: i64,
    later: i64,
)
    requires
        s.try_lease_result(id, fencing_token, position, lease_timeout, idempotency_checksum, now)
            == Ok::<LeaseOutcome, WorkflowError>(LeaseOutcome::Acquired),
        later <= now + lease_timeout,
    ensures
        ({
            let held = s.try_lease(
                id,
                fencing_token,
                position,
                lease_timeout,
                idempotency_checksum,
                now,
            );
            let lease = LeasedCheckpointValue { lease_timeout, created_at: now };
            &&& held.lease(id, position) == Some(lease)
            &&& held.try_lease_result(
                id,
                second_token,
                position,
                second_timeout,
                second_checksum,
                later,
            ) == Ok::<LeaseOutcome, WorkflowError>(
                LeaseOutcome::Busy(remaining_lease_time(lease, later)),
            )
            &&& held.try_lease(
                id,
                second_token,
                position,
                second_timeout,
                second_checksum,
                later,
            ) == held
            &&& remaining_lease_time(lease, later) >= 0
            &&& later < now + lease_timeout <= i64::MAX ==> remaining_lease_time(lease, later) > 0
            &&& now + lease_timeout <= i64::MAX && now + lease_timeout - later <= i64::MAX
                ==> remaining_lease_time(lease, later) == now + lease_timeout - later
        }),
{
    let lease = LeasedCheckpointValue { lease_timeout, created_at: now };
    lemma_remaining_lease_time(lease, later);
}

/// Once a lease has run out, the holder of the recorded epoch acquires the
/// step anew, with a lease that starts at the instant of the attempt.
pub proof fn lemma_lease_reclaim(
    s: StoreView,
    id: Seq<char>,
    fencing_token: i64,
    position: i64,
    lease_timeout: i64,
    idempotency_checksum: i64,
    now: i64,
    second_token: i64,
    second_timeout: i64,
    second_checksum: i64,
    later: i64,
)
    requires
        s.try_lease_result(id, fencing_token, position, lease_timeout, idempotency_checksum, now)
            == Ok::<LeaseOutcome, WorkflowError>(LeaseOutcome::Acquired),
        later > now + lease_timeout,
        s.token(id) == Some(second_token),
    ensures
        ({
            let held = s.try_lease(
                id,
                fencing_token,
                position,
                lease_timeout,
                idempotency_checksum,
                now,
            );
            &&& held.try_lease_result(
                id,
                second_token,
                position,
                second_timeout,
                second_checksum,
                later,
            ) == Ok::<LeaseOutcome, WorkflowError>(LeaseOutcome::Acquired)
            &&& held.try_lease(
                id,
                second_token,
                position,
                second_timeout,
                second_checksum,
                later,
            ).lease(id, position) == Some(
                LeasedCheckpointValue { lease_timeout: second_timeout, created_at: later },
            )
        }),
{
}

/// The state after one lease request for the same step, by callers with the
/// same token, at each of the instants `times`, in order.
pub open spec fn contended(
    s: StoreView,
    id: Seq<char>,
    fencing_token: i64,
    position: i64,
    lease_timeout: i64,
    idempotency_checksum: i64,
    times: Seq<i64>,
) -> StoreView
    decreases times.len(),
{
    if times.len() == 0 {
        s
    } else {
        contended(
            s,
            id,
            fencing_token,
            position,
            lease_timeout,
            idempotency_checksum,
            times.drop_last(),
        ).try_lease(
            id,
            fencing_token,
            position,
            lease_timeout,
            idempotency_checksum,
            times.last(),
        )
    }
}

/// Of any number of attempts on a step that was never attempted before,
/// made with the recorded epoch and served one after another while the
/// first lease is live, the first is granted and every other is told to
/// wait, for a time that is positive where the attempt comes before the
/// lease ends and that end is representable.
pub proof fn lemma_race_safety(
    s: StoreView,
    id: Seq<char>,
    fencing_token: i64,
    position: i64,
    lease_timeout: i64,
    idempotency_checksum: i64,
    times: Seq<i64>,
)
    requires
        s.checkpoint(id, position) is None,
        s.lease(id, position) is None,
        s.token(id) == Some(fencing_token),
        forall|k: int| 0 <= k < times.len() ==> #[trigger] times[k] <= times[0] + lease_timeout,
    ensures
        forall|k: int|
            0 <= k < times.len() ==> (#[trigger] contended(
                s,
                id,
                fencing_token,
                position,
                lease_timeout,
                idempotency_checksum,
                times.subrange(0, k),
            )).try_lease_result(
                id,
                fencing_token,
                position,
                lease_timeout,
                idempotency_checksum,
                times[k],
            ) == if k == 0 {
                Ok::<LeaseOutcome, WorkflowError>(LeaseOutcome::Acquired)
            } else {
                Ok::<LeaseOutcome, WorkflowError>(
                    LeaseOutcome::Busy(
                        remaining_lease_time(
                            LeasedCheckpointValue { lease_timeout, created_at: times[0] },
                            times[k],
                        ),
                    ),
                )
            },
        forall|k: int|
            0 < k < times.len() && #[trigger] times[k] < times[0] + lease_timeout <= i64::MAX
                ==> remaining_lease_time(
                LeasedCheckpointValue { lease_timeout, created_at: times[0] },
                times[k],
            ) > 0,
        times.len() > 0 ==> contended(
            s,
            id,
            fencing_token,
            position,
            lease_timeout,
            idempotency_checksum,
            times,
        ) == s.try_lease(
            id,
            fencing_token,
            position,
            lease_timeout,
            idempotency_checksum,
            times[0],
        ),
    decreases times.len(),
{
    if times.len() > 0 {
        let shorter = times.drop_last();
        assert forall|k: int| 0 <= k < shorter.len() implies #[trigger] shorter[k] <= shorter[0]
            + lease_timeout by {
            assert(shorter[k] == times[k]);
            assert(shorter[0] == times[0]);
        }
        lemma_race_safety(
            s,
            id,
            fencing_token,
            position,
            lease_timeout,
            idempotency_checksum,
            shorter,
        );
        let n = times.len() - 1;
        assert forall|k: int| 0 <= k < times.len() implies (#[trigger] contended(
            s,
            id,
            fencing_token,
            position,
            lease_timeout,
            idempotency_checksum,
            times.subrange(0, k),
        )).try_lease_result(
            id,
            fencing_token,
            position,
            lease_timeout,
            idempotency_checksum,
            times[k],
        ) == if k == 0 {
            Ok::<LeaseOutcome, WorkflowError>(LeaseOutcome::Acquired)
        } else {
            Ok::<LeaseOutcome, WorkflowError>(
                LeaseOutcome::Busy(
                    remaining_lease_time(
                        LeasedCheckpointValue { lease_timeout, created_at: times[0] },
                        times[k],
                    ),
                ),
            )
        } by {
            if k < n {
                assert(times.subrange(0, k) =~= shorter.subrange(0, k));
                assert(shorter[k] == times[k]);
                if n > 0 {
                    assert(shorter[0] == times[0]);
                }
            } else {
                assert(times.subrange(0, k) =~= shorter);
                if n > 0 {
                    assert(shorter[0] == times[0]);
                    assert(times[k] <= times[0] + lease_timeout);
                }
            }
        }
        let first = s.try_lease(
            id,
            fencing_token,
            position,
            lease_timeout,
            idempotency_checksum,
            times[0],
        );
        let before = contended(
            s,
            id,
            fencing_token,
            position,
            lease_timeout,
            idempotency_checksum,
            shorter,
        );
        if n > 0 {
            assert(shorter[0] == times[0]);
            assert(times[n] <= times[0] + lease_timeout);
            assert(before == first);
            assert(first.lease(id, position) == Some(
                LeasedCheckpointValue { lease_timeout, created_at: times[0] },
            ));
            assert(first.checkpoint(id, position) is None);
        } else {
            assert(before == s);
        }
    }
}

// ---- fencing ----

/// The fencing rule: a caller is refused as expired exactly when a recorded
/// epoch is strictly newer than the one it presents.
pub proof fn lemma_fencing_rule(stored: i64, provided: i64)
    ensures
        provided < stored ==> fencing_verdict(Some(stored), provided) == Err::<i64, WorkflowError>(
            WorkflowError::FencingTokenExpired { stored, provided },
        ),
        provided >= stored ==> fencing_verdict(Some(stored), provided) == Ok::<i64, WorkflowError>(
            stored,
        ),
{
}

/// A stale caller is refused as expired by a completion, by a lease request
/// for a step that is neither committed nor under a live lease, and by a
/// commit that consumes a live lease. A caller that is not stale is never
/// refused as expired.
pub proof fn lemma_stale_rejection(
    s: StoreView,
    id: Seq<char>,
    fencing_token: i64,
    position: i64,
    lease_timeout: i64,
    expire_after: i64,
    idempotency_checksum: i64,
    now: i64,
)
    requires
        s.token(id) is Some,
    ensures
        ({
            let stored = s.tokens[id];
            let expired = WorkflowError::FencingTokenExpired { stored, provided: fencing_token };
            let finished = s.finish_result(id, fencing_token, expire_after, now);
            let leased = s.try_lease_result(
                id,
                fencing_token,
                position,
                lease_timeout,
                idempotency_checksum,
                now,
            );
            let committed = s.commit_result(id, fencing_token, position, idempotency_checksum, now);
            let live = s.lease(id, position) matches Some(lease) && lease_is_live(lease, now);
            &&& fencing_token < stored ==> {
                &&& finished == Err::<FinishDecision, WorkflowError>(expired)
                &&& s.checkpoint(id, position) is None && !live ==> leased == Err::<
                    LeaseOutcome,
                    WorkflowError,
                >(expired)
                &&& live ==> committed == Err::<bool, WorkflowError>(expired)
                &&& !live && committed is Ok ==> committed == Ok::<bool, WorkflowError>(true)
            }
            &&& fencing_token >= stored ==> {
                &&& !(finished matches Err(WorkflowError::FencingTokenExpired { .. }))
                &&& !(leased matches Err(WorkflowError::FencingTokenExpired { .. }))
                &&& !(committed matches Err(WorkflowError::FencingTokenExpired { .. }))
                &&& committed is Ok ==> committed == Ok::<bool, WorkflowError>(false)
            }
        }),
{
}

// ---- the lifecycle ----

/// A completion by a caller that is not stale moves a running workflow to
/// completed, with the instant of completion and the expiry that was asked
/// for; a further completion by such a caller succeeds and changes nothing.
pub proof fn lemma_completion_transition(
    s: StoreView,
    id: Seq<char>,
    fencing_token: i64,
    expire_after: i64,
    now: i64,
    second_token: i64,
    second_expire_after: i64,
    later: i64,
)
    requires
        s.workflow(id) matches Some(record) && record.status == WorkflowStatus::Running,
        s.token(id) matches Some(stored) && stored <= fencing_token && stored <= second_token,
        expiry_fits(expire_after, now),
    ensures
        ({
            let done = s.finish(id, fencing_token, expire_after, now);
            &&& s.finish_result(id, fencing_token, expire_after, now) is Ok
            &&& done.workflow(id) == Some(
                WorkflowRecord {
                    status: WorkflowStatus::Completed,
                    expire_at: Some((now + expire_after) as i64),
                    completed_at: Some(now),
                    created_at: s.workflows[id].created_at,
                },
            )
            &&& done.finish_result(id, second_token, second_expire_after, later) is Ok
            &&& done.finish(id, second_token, second_expire_after, later) == done
        }),
{
}

/// A completion judges the caller before it looks at the instant or at the
/// expiry: unless it completes a running workflow, its answer is the same
/// for every instant and every expiry, and the state stays as it is.
pub proof fn lemma_finish_judged_first(
    s: StoreView,
    id: Seq<char>,
    fencing_token: i64,
    expire_after: i64,
    now: i64,
    other_expire_after: i64,
    later: i64,
)
    requires
        s.judged_status(id, fencing_token) != Ok::<WorkflowStatus, WorkflowError>(
            WorkflowStatus::Running,
        ),
    ensures
        s.finish(id, fencing_token, expire_after, now) == s,
        s.finish_result(id, fencing_token, expire_after, now) == s.finish_result(
            id,
            fencing_token,
            other_expire_after,
            later,
        ),
        s.finish_fits(id, fencing_token, expire_after, now),
        s.judged_status(id, fencing_token) matches Err(e) ==> s.finish_result(
            id,
            fencing_token,
            expire_after,
            now,
        ) == Err::<FinishDecision, WorkflowError>(e),
        s.judged_status(id, fencing_token) is Ok ==> s.finish_result(
            id,
            fencing_token,
            expire_after,
            now,
        ) == Ok::<FinishDecision, WorkflowError>(
            FinishDecision::AlreadyCompleted,
        ),
{
}

/// Completed is terminal: no operation but the cleanup changes a completed
/// workflow.
pub proof fn lemma_completed_is_terminal(
    s: StoreView,
    id: Seq<char>,
    other: Seq<char>,
    is_nested: bool,
    fencing_token: i64,
    position: i64,
    lease_timeout: i64,
    expire_after: i64,
    idempotency_checksum: i64,
    value: Seq<u8>,
    now: i64,
)
    requires
        s.workflow(id) matches Some(record) && record.status == WorkflowStatus::Completed,
    ensures
        s.start(other, is_nested, now).workflow(id) == s.workflow(id),
        s.finish(other, fencing_token, expire_after, now).workflow(id) == s.workflow(id),
        s.commit(other, fencing_token, position, idempotency_checksum, value, now).workflows
            == s.workflows,
        s.try_lease(
            other,
            fencing_token,
            position,
            lease_timeout,
            idempotency_checksum,
            now,
        ).workflows == s.workflows,
        s.release(other, position).workflows == s.workflows,
        s.cleanup(false, now).workflows == s.workflows,
{
}

/// Every operation keeps the state well formed: epochs are at least 1, and
/// the completion fields of a workflow are set exactly when it has
/// completed.
pub proof fn lemma_well_formed_preserved(
    s: StoreView,
    id: Seq<char>,
    is_nested: bool,
    fencing_token: i64,
    position: i64,
    lease_timeout: i64,
    expire_after: i64,
    idempotency_checksum: i64,
    value: Seq<u8>,
    is_leader: bool,
    now: i64,
)
    requires
        s.well_formed(),
        s.grant_fits(id, is_nested),
    ensures
        StoreView::empty().well_formed(),
        s.start(id, is_nested, now).well_formed(),
        s.finish(id, fencing_token, expire_after, now).well_formed(),
        s.commit(id, fencing_token, position, idempotency_checksum, value, now).well_formed(),
        s.try_lease(
            id,
            fencing_token,
            position,
            lease_timeout,
            idempotency_checksum,
            now,
        ).well_formed(),
        s.release(id, position).well_formed(),
        s.cleanup(is_leader, now).well_formed(),
{
}

// ---- the cleanup ----

/// On the leader a cleanup removes a workflow that has completed and whose
/// expiry lies in the past, with its epoch, its checkpoints and its leases;
/// it keeps every other workflow, running ones whatever their age, with all
/// that belongs to them. On any other replica it changes nothing.
pub proof fn lemma_cleanup_scope(s: StoreView, id: Seq<char>, position: i64, now: i64)
    ensures
        s.cleanup(false, now) == s,
        s.retires(id, now) <==> (s.workflow(id) matches Some(record) && is_expired(record, now)),
        s.workflow(id) matches Some(record) && record.status == WorkflowStatus::Running
            ==> !s.retires(id, now),
        s.retires(id, now) ==> {
            let after = s.cleanup(true, now);
            &&& after.workflow(id) is None
            &&& after.token(id) is None
            &&& after.checkpoint(id, position) is None
            &&& after.lease(id, position) is None
        },
        !s.retires(id, now) ==> {
            let after = s.cleanup(true, now);
            &&& after.workflow(id) == s.workflow(id)
            &&& after.token(id) == s.token(id)
            &&& after.checkpoint(id, position) == s.checkpoint(id, position)
            &&& after.lease(id, position) == s.lease(id, position)
        },
{
}

} // verus!
