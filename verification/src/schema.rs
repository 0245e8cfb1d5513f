//! The persisted records of the core and their mathematical views.

use vstd::prelude::*;

verus! {

/// The two states of a workflow. `Completed` is terminal.
#[derive(Debug, Clone, Copy, PartialEq, Eq, Structural)]
pub enum WorkflowStatus {
    Running,
    Completed,
}

impl WorkflowStatus {
    /// The integer under which a status is persisted.
    pub open spec fn spec_code(self) -> i64 {
        match self {
            WorkflowStatus::Running => 0,
            WorkflowStatus::Completed => 1,
        }
    }

    /// The status that a persisted integer stands for, if any.
    pub open spec fn spec_from_code(code: i64) -> Option<WorkflowStatus> {
        if code == 0 {
            Some(WorkflowStatus::Running)
        } else if code == 1 {
            Some(WorkflowStatus::Completed)
        } else {
            None
        }
    }

    #[verifier::when_used_as_spec(spec_code)]
    pub fn code(self) -> (code: i64)
        ensures
            code == self.spec_code(),
    {
        match self {
            WorkflowStatus::Running => 0,
            WorkflowStatus::Completed => 1,
        }
    }

    /// Decodes a persisted status; `None` for any integer but 0 and 1.
    #[verifier::when_used_as_spec(spec_from_code)]
    pub fn from_code(code: i64) -> (status: Option<WorkflowStatus>)
        ensures
            status == WorkflowStatus::spec_from_code(code),
    {
        if code == 0 {
            Some(WorkflowStatus::Running)
        } else if code == 1 {
            Some(WorkflowStatus::Completed)
        } else {
            None
        }
    }
}

/// Decoding undoes encoding.
pub proof fn lemma_status_code_round_trip(status: WorkflowStatus)
    ensures
        WorkflowStatus::spec_from_code(status.spec_code()) == Some(status),
{
}

/// What is recorded of a workflow besides its id.
pub struct WorkflowRecord {
    pub status: WorkflowStatus,
    pub expire_at: Option<i64>,
    pub completed_at: Option<i64>,
    pub created_at: i64,
}

impl WorkflowRecord {
    /// The expiry and completion times are set exactly on completed workflows.
    pub open spec fn well_formed(self) -> bool {
        &&& self.expire_at is Some <==> self.status == WorkflowStatus::Completed
        &&& self.completed_at is Some <==> self.status == WorkflowStatus::Completed
    }
}

/// The mathematical view of a [`Workflow`].
pub struct WorkflowView {
    pub id: Seq<char>,
    pub record: WorkflowRecord,
}

/// One row of the workflow table.
#[derive(Debug, Clone, PartialEq, Eq)]
pub struct Workflow {
    pub id: String,
    pub status: WorkflowStatus,
    pub expire_at: Option<i64>,
    pub completed_at: Option<i64>,
    pub created_at: i64,
}

impl View for Workflow {
    type V = WorkflowView;

    open spec fn view(&self) -> WorkflowView {
        WorkflowView { id: self.id@, record: self.record() }
    }
}

impl Workflow {
    pub open spec fn record(&self) -> WorkflowRecord {
        WorkflowRecord {
            status: self.status,
            expire_at: self.expire_at,
            completed_at: self.completed_at,
            created_at: self.created_at,
        }
    }

    pub open spec fn well_formed(&self) -> bool {
        self.record().well_formed()
    }
}

/// The ownership epoch of one workflow.
#[derive(Debug, Clone, PartialEq, Eq)]
pub struct WorkflowFencingToken {
    pub workflow_id: String,
    pub fencing_token: i64,
}

/// The mathematical view of a [`WorkflowFencingToken`].
pub struct WorkflowFencingTokenView {
    pub workflow_id: Seq<char>,
    pub fencing_token: i64,
}

impl View for WorkflowFencingToken {
    type V = WorkflowFencingTokenView;

    open spec fn view(&self) -> WorkflowFencingTokenView {
        WorkflowFencingTokenView { workflow_id: self.workflow_id@, fencing_token: self.fencing_token }
    }
}

/// What is recorded of a committed step under its key.
pub struct CheckpointRecord {
    pub idempotency_checksum: i64,
    pub value: Seq<u8>,
    pub created_at: i64,
}

impl CheckpointRecord {
    /// The record as it is handed out for the step at `position_checksum`.
    pub open spec fn at(self, position_checksum: i64) -> CheckpointValueView {
        CheckpointValueView {
            position_checksum,
            idempotency_checksum: self.idempotency_checksum,
            value: self.value,
        }
    }
}

/// The mathematical view of a [`CheckpointValue`].
pub struct CheckpointValueView {
    pub position_checksum: i64,
    pub idempotency_checksum: i64,
    pub value: Seq<u8>,
}

/// A committed step as handed out for replay.
#[derive(Debug, Clone, PartialEq, Eq)]
pub struct CheckpointValue {
    pub position_checksum: i64,
    pub idempotency_checksum: i64,
    pub value: Vec<u8>,
}

impl View for CheckpointValue {
    type V = CheckpointValueView;

    open spec fn view(&self) -> CheckpointValueView {
        CheckpointValueView {
            position_checksum: self.position_checksum,
            idempotency_checksum: self.idempotency_checksum,
            value: self.value@,
        }
    }
}

/// The view of a checkpoint that may be absent.
pub open spec fn optional_view(checkpoint: Option<CheckpointValue>) -> Option<CheckpointValueView> {
    match checkpoint {
        Some(c) => Some(c@),
        None => None,
    }
}

/// The view of a checkpoint row that may be absent.
pub open spec fn optional_row_view(checkpoint: Option<Checkpoint>) -> Option<CheckpointView> {
    match checkpoint {
        Some(c) => Some(c@),
        None => None,
    }
}

/// The mathematical view of a [`Checkpoint`].
pub struct CheckpointView {
    pub workflow_id: Seq<char>,
    pub position_checksum: i64,
    pub record: CheckpointRecord,
}

/// One row of the checkpoint table. Rows are immutable once written.
#[derive(Debug, Clone, PartialEq, Eq)]
pub struct Checkpoint {
    pub workflow_id: String,
    pub position_checksum: i64,
    pub idempotency_checksum: i64,
    pub value: Vec<u8>,
    pub created_at: i64,
}

impl View for Checkpoint {
    type V = CheckpointView;

    open spec fn view(&self) -> CheckpointView {
        CheckpointView {
            workflow_id: self.workflow_id@,
            position_checksum: self.position_checksum,
            record: self.record(),
        }
    }
}

impl Checkpoint {
    pub open spec fn record(&self) -> CheckpointRecord {
        CheckpointRecord {
            idempotency_checksum: self.idempotency_checksum,
            value: self.value@,
            created_at: self.created_at,
        }
    }
}

/// A time-bounded exclusive claim on one step: it holds from `created_at`
/// until `created_at + lease_timeout`, both in milliseconds.
#[derive(Debug, Clone, Copy, PartialEq, Eq, Structural)]
pub struct LeasedCheckpointValue {
    pub lease_timeout: i64,
    pub created_at: i64,
}

/// One row of the lease table.
#[derive(Debug, Clone, PartialEq, Eq)]
pub struct LeasedCheckpoint {
    pub workflow_id: String,
    pub position_checksum: i64,
    pub lease_timeout: i64,
    pub created_at: i64,
}

/// The mathematical view of a [`LeasedCheckpoint`].
pub struct LeasedCheckpointView {
    pub workflow_id: Seq<char>,
    pub position_checksum: i64,
    pub lease: LeasedCheckpointValue,
}

impl View for LeasedCheckpoint {
    type V = LeasedCheckpointView;

    open spec fn view(&self) -> LeasedCheckpointView {
        LeasedCheckpointView {
            workflow_id: self.workflow_id@,
            position_checksum: self.position_checksum,
            lease: self.lease(),
        }
    }
}

impl LeasedCheckpoint {
    pub open spec fn lease(&self) -> LeasedCheckpointValue {
        LeasedCheckpointValue { lease_timeout: self.lease_timeout, created_at: self.created_at }
    }
}

} // verus!
