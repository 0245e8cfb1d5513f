//! The state of the coordination core as mathematics, and each operation as
//! a function from the state before to the state after and the answer.
//!
//! Time is an argument: every transition is a function of the state, the
//! request and the instant at which it is served.

use vstd::prelude::*;
use crate::error::WorkflowError;
use crate::fencing::{granted_token, grant_fits};
use crate::lease::{lease_verdict, replay_verdict, LeaseDecision};
use crate::ledger::{commit_verdict, is_listing, write_verdict};
use crate::lifecycle::{
    completed_record, finish_fits, finish_verdict, fresh_record, judged_status, step_survives,
    survives, FinishDecision,
};
use crate::table::restricted;
use crate::schema::{
    CheckpointRecord, CheckpointValueView, CheckpointView, LeasedCheckpointValue, WorkflowRecord,
    WorkflowStatus,
};

verus! {

/// The four tables of the core: workflows and epochs by workflow id,
/// checkpoints and leases by workflow id and position.
#[verifier::ext_equal]
pub struct StoreView {
    pub workflows: Map<Seq<char>, WorkflowRecord>,
    pub tokens: Map<Seq<char>, i64>,
    pub checkpoints: Map<(Seq<char>, i64), CheckpointRecord>,
    pub leases: Map<(Seq<char>, i64), LeasedCheckpointValue>,
}

/// The answer to a lease request.
pub enum LeaseOutcome {
    /// The step is committed: skip it and use this value.
    AlreadyComputed(Seq<u8>),
    /// Another attempt holds the step for this many more milliseconds.
    Busy(i64),
    /// The caller holds the step and should execute it.
    Acquired,
}

impl StoreView {
    /// The state in which nothing has happened yet.
    pub open spec fn empty() -> StoreView {
        StoreView {
            workflows: Map::empty(),
            tokens: Map::empty(),
            checkpoints: Map::empty(),
            leases: Map::empty(),
        }
    }

    /// What every reachable state satisfies: epochs start at 1, and the
    /// completion fields of a workflow are set exactly when it has completed.
    pub open spec fn well_formed(self) -> bool {
        &&& forall|id: Seq<char>| #[trigger]
            self.tokens.contains_key(id) ==> self.tokens[id] >= 1
        &&& forall|id: Seq<char>| #[trigger]
            self.workflows.contains_key(id) ==> self.workflows[id].well_formed()
    }

    /// The recorded epoch of a workflow.
    pub open spec fn token(self, id: Seq<char>) -> Option<i64> {
        if self.tokens.contains_key(id) {
            Some(self.tokens[id])
        } else {
            None
        }
    }

    /// The row of a workflow.
    pub open spec fn workflow(self, id: Seq<char>) -> Option<WorkflowRecord> {
        if self.workflows.contains_key(id) {
            Some(self.workflows[id])
        } else {
            None
        }
    }

    /// The committed result of a step.
    pub open spec fn checkpoint(self, id: Seq<char>, position: i64) -> Option<CheckpointRecord> {
        if self.checkpoints.contains_key((id, position)) {
            Some(self.checkpoints[(id, position)])
        } else {
            None
        }
    }

    /// The whole row of a committed step.
    pub open spec fn checkpoint_row(self, id: Seq<char>, position: i64) -> Option<CheckpointView> {
        match self.checkpoint(id, position) {
            Some(record) => Some(
                CheckpointView { workflow_id: id, position_checksum: position, record },
            ),
            None => None,
        }
    }

    /// The committed result of a step as it is handed out for replay.
    pub open spec fn committed(self, id: Seq<char>, position: i64) -> Option<CheckpointValueView> {
        match self.checkpoint(id, position) {
            Some(record) => Some(record.at(position)),
            None => None,
        }
    }

    /// The lease row of a step, live or not.
    pub open spec fn lease(self, id: Seq<char>, position: i64) -> Option<LeasedCheckpointValue> {
        if self.leases.contains_key((id, position)) {
            Some(self.leases[(id, position)])
        } else {
            None
        }
    }

    /// Whether `listing` is the replay list of a workflow: its committed
    /// steps, each once, by ascending position.
    pub open spec fn is_listing(self, id: Seq<char>, listing: Seq<CheckpointValueView>) -> bool {
        is_listing(self.checkpoints, id, listing)
    }

    // ---- the fencing token authority ----

    /// The answer to a grant of ownership.
    pub open spec fn grant_result(self, id: Seq<char>, is_nested: bool) -> Result<
        int,
        WorkflowError,
    > {
        granted_token(self.token(id), is_nested)
    }

    /// The state after a grant of ownership: the granted epoch is recorded.
    pub open spec fn grant(self, id: Seq<char>, is_nested: bool) -> StoreView {
        match self.grant_result(id, is_nested) {
            Ok(token) => StoreView { tokens: self.tokens.insert(id, token as i64), ..self },
            Err(_) => self,
        }
    }

    /// Whether a grant can be recorded in this state.
    pub open spec fn grant_fits(self, id: Seq<char>, is_nested: bool) -> bool {
        grant_fits(self.token(id), is_nested)
    }

    // ---- the workflow lifecycle ----

    /// The state after the row of a workflow was inserted or fetched.
    pub open spec fn ensure_workflow(self, id: Seq<char>, now: i64) -> StoreView {
        if self.workflows.contains_key(id) {
            self
        } else {
            StoreView { workflows: self.workflows.insert(id, fresh_record(now)), ..self }
        }
    }

    /// The state after a start: the row exists, and the grant is recorded.
    pub open spec fn start(self, id: Seq<char>, is_nested: bool, now: i64) -> StoreView {
        self.ensure_workflow(id, now).grant(id, is_nested)
    }

    /// The epoch that a start answers with.
    pub open spec fn start_result(self, id: Seq<char>, is_nested: bool) -> Result<
        int,
        WorkflowError,
    > {
        self.grant_result(id, is_nested)
    }

    /// The status of a workflow, where it has a row.
    pub open spec fn status(self, id: Seq<char>) -> Option<WorkflowStatus> {
        match self.workflow(id) {
            Some(record) => Some(record.status),
            None => None,
        }
    }

    /// The judgement on who asks for a completion: the status of the
    /// workflow where the request is accepted, a failure otherwise. It
    /// depends on the state and the token alone.
    pub open spec fn judged_status(self, id: Seq<char>, fencing_token: i64) -> Result<
        WorkflowStatus,
        WorkflowError,
    > {
        judged_status(self.token(id), self.status(id), fencing_token)
    }

    /// Whether a completion request can be served at `now`: where it
    /// completes a running workflow, the expiry must be representable.
    pub open spec fn finish_fits(
        self,
        id: Seq<char>,
        fencing_token: i64,
        expire_after: i64,
        now: i64,
    ) -> bool {
        finish_fits(self.token(id), self.status(id), fencing_token, expire_after, now)
    }

    /// The answer to a completion request.
    pub open spec fn finish_result(
        self,
        id: Seq<char>,
        fencing_token: i64,
        expire_after: i64,
        now: i64,
    ) -> Result<FinishDecision, WorkflowError> {
        finish_verdict(self.token(id), self.status(id), fencing_token, expire_after, now)
    }

    /// The state after a completion request.
    pub open spec fn finish(
        self,
        id: Seq<char>,
        fencing_token: i64,
        expire_after: i64,
        now: i64,
    ) -> StoreView {
        match self.finish_result(id, fencing_token, expire_after, now) {
            Ok(FinishDecision::Complete { .. }) => StoreView {
                workflows: self.workflows.insert(
                    id,
                    completed_record(self.workflows[id], expire_after, now),
                ),
                ..self
            },
            _ => self,
        }
    }

    // ---- the checkpoint ledger ----

    /// The answer to a commit; the `bool` of a success is the abort flag.
    pub open spec fn commit_result(
        self,
        id: Seq<char>,
        fencing_token: i64,
        position: i64,
        idempotency_checksum: i64,
        now: i64,
    ) -> Result<bool, WorkflowError> {
        match commit_verdict(self.token(id), self.lease(id, position), fencing_token, now) {
            Err(e) => Err(e),
            Ok(abort) => match write_verdict(
                position,
                match self.checkpoint(id, position) {
                    Some(record) => Some(record.idempotency_checksum),
                    None => None,
                },
                idempotency_checksum,
            ) {
                Err(e) => Err(e),
                Ok(_) => Ok(abort),
            },
        }
    }

    /// The state after a commit: the lease of the step is consumed whatever
    /// the answer, and the result is recorded by the first commit that
    /// succeeds.
    pub open spec fn commit(
        self,
        id: Seq<char>,
        fencing_token: i64,
        position: i64,
        idempotency_checksum: i64,
        value: Seq<u8>,
        now: i64,
    ) -> StoreView {
        let consumed = StoreView { leases: self.leases.remove((id, position)), ..self };
        if self.commit_result(id, fencing_token, position, idempotency_checksum, now) is Ok
            && !self.checkpoints.contains_key((id, position)) {
            StoreView {
                checkpoints: self.checkpoints.insert(
                    (id, position),
                    CheckpointRecord { idempotency_checksum, value, created_at: now },
                ),
                ..consumed
            }
        } else {
            consumed
        }
    }

    // ---- the checkpoint lease manager ----

    /// The answer to a lease request.
    pub open spec fn try_lease_result(
        self,
        id: Seq<char>,
        fencing_token: i64,
        position: i64,
        lease_timeout: i64,
        idempotency_checksum: i64,
        now: i64,
    ) -> Result<LeaseOutcome, WorkflowError> {
        match replay_verdict(self.committed(id, position), idempotency_checksum) {
            Err(e) => Err(e),
            Ok(Some(value)) => Ok(LeaseOutcome::AlreadyComputed(value)),
            Ok(None) => match lease_verdict(
                self.lease(id, position),
                self.token(id),
                fencing_token,
                lease_timeout,
                now,
            ) {
                Err(e) => Err(e),
                Ok(LeaseDecision::Busy(remaining)) => Ok(LeaseOutcome::Busy(remaining)),
                Ok(LeaseDecision::Acquire(_)) => Ok(LeaseOutcome::Acquired),
            },
        }
    }

    /// The state after a lease request: a lease that starts at `now` is
    /// stored exactly when the answer is `Acquired`.
    pub open spec fn try_lease(
        self,
        id: Seq<char>,
        fencing_token: i64,
        position: i64,
        lease_timeout: i64,
        idempotency_checksum: i64,
        now: i64,
    ) -> StoreView {
        match self.try_lease_result(
            id,
            fencing_token,
            position,
            lease_timeout,
            idempotency_checksum,
            now,
        ) {
            Ok(LeaseOutcome::Acquired) => StoreView {
                leases: self.leases.insert(
                    (id, position),
                    LeasedCheckpointValue { lease_timeout, created_at: now },
                ),
                ..self
            },
            _ => self,
        }
    }

    /// The state after a release: the lease row of the step is gone.
    pub open spec fn release(self, id: Seq<char>, position: i64) -> StoreView {
        StoreView { leases: self.leases.remove((id, position)), ..self }
    }

    // ---- the cleanup task ----

    /// Whether the workflow `id` is retired by a cleanup at `now`.
    pub open spec fn retires(self, id: Seq<char>, now: i64) -> bool {
        !survives(self.workflows, now)(id)
    }

    /// The state after a cleanup at `now`: on the leader, every retired
    /// workflow is gone with its epoch, its checkpoints and its leases;
    /// elsewhere nothing changes.
    pub open spec fn cleanup(self, is_leader: bool, now: i64) -> StoreView {
        if !is_leader {
            self
        } else {
            StoreView {
                workflows: restricted(self.workflows, survives(self.workflows, now)),
                tokens: restricted(self.tokens, survives(self.workflows, now)),
                checkpoints: restricted(self.checkpoints, step_survives(self.workflows, now)),
                leases: restricted(self.leases, step_survives(self.workflows, now)),
            }
        }
    }
}

} // verus!
