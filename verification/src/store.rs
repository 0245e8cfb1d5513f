//! A store held in memory, on which every operation of the core is carried
//! out in full and proved against the mathematical state.

use vstd::prelude::*;
use crate::checkpoint_service::{
    CheckpointInput, CheckpointOutput, LeaseCheckpointInput, LeaseCheckpointOutput,
    LeaseCheckpointReturnType,
};
use crate::error::WorkflowError;
use crate::fencing::grant_token;
use crate::lease::{decide_lease, replay_checkpoint, LeaseDecision};
use crate::ledger::{decide_write, fence_commit, views, WriteDecision};
use crate::lifecycle::{decide_finish, FinishDecision};
use crate::model::StoreView;
use crate::rows::{
    checkpoint_table, complete_workflow, insert_checkpoint, insert_workflow_if_absent,
    lease_table, list_checkpoints, no_checkpoints, no_leases, no_tokens, no_workflows,
    read_checkpoint, read_checkpoint_row, read_idempotency_checksum, read_lease, read_token, read_workflow,
    retain_checkpoints, retain_leases, retain_tokens, retain_workflows, take_lease, token_table,
    valid_checkpoints, valid_leases, valid_tokens, valid_workflows, workflow_table, write_lease,
    write_token,
};
use crate::schema::{
    optional_row_view, Checkpoint, CheckpointValue, CheckpointValueView, LeasedCheckpoint,
    LeasedCheckpointValue, Workflow, WorkflowFencingToken,
};
use crate::workflow_service::{
    CreateWorkflowInput, CreateWorkflowOutput, FinishWorkflowInput, FinishWorkflowOutput,
};

verus! {

/// The tables of the core, held in memory.
pub struct MemoryStore {
    workflows: Vec<Workflow>,
    tokens: Vec<WorkflowFencingToken>,
    checkpoints: Vec<Checkpoint>,
    leases: Vec<LeasedCheckpoint>,
}

impl View for MemoryStore {
    type V = StoreView;

    closed spec fn view(&self) -> StoreView {
        StoreView {
            workflows: workflow_table(self.workflows@),
            tokens: token_table(self.tokens@),
            checkpoints: checkpoint_table(self.checkpoints@),
            leases: lease_table(self.leases@),
        }
    }
}

impl MemoryStore {
    #[verifier::type_invariant]
    spec fn consistent(self) -> bool {
        &&& valid_workflows(self.workflows@)
        &&& valid_tokens(self.tokens@)
        &&& valid_checkpoints(self.checkpoints@)
        &&& valid_leases(self.leases@)
    }

    /// A store in which nothing has happened yet.
    pub fn new() -> (store: MemoryStore)
        ensures
            store@ == StoreView::empty(),
            store@.well_formed(),
    {
        MemoryStore {
            workflows: no_workflows(),
            tokens: no_tokens(),
            checkpoints: no_checkpoints(),
            leases: no_leases(),
        }
    }

    // ---- the fencing token authority ----

    /// The recorded epoch of a workflow.
    pub fn lookup(&self, workflow_id: &str) -> (token: Option<i64>)
        ensures
            token == self@.token(workflow_id@),
            self@.well_formed(),
    {
        proof {
            use_type_invariant(self);
        }
        let id = String::from_str(workflow_id);
        read_token(&self.tokens, &id)
    }

    /// Grants ownership of a workflow: a top-level grant mints and records
    /// the next epoch, a nested grant hands out the recorded one.
    pub fn grant_ownership(&mut self, workflow_id: &str, is_nested: bool) -> (granted: Result<
        i64,
        WorkflowError,
    >)
        requires
            old(self)@.grant_fits(workflow_id@, is_nested),
        ensures
            final(self)@ == old(self)@.grant(workflow_id@, is_nested),
            final(self)@.well_formed(),
            match old(self)@.grant_result(workflow_id@, is_nested) {
                Ok(t) => granted == Ok::<i64, WorkflowError>(t as i64) && t == t as i64,
                Err(e) => granted == Err::<i64, WorkflowError>(e),
            },
    {
        proof {
            use_type_invariant(&*self);
        }
        let id = String::from_str(workflow_id);
        let stored = read_token(&self.tokens, &id);
        let token: i64 = grant_token(stored, is_nested)?;
        let mut tokens: Vec<WorkflowFencingToken> = no_tokens();
        std::mem::swap(&mut tokens, &mut self.tokens);
        write_token(&mut tokens, id, token);
        self.tokens = tokens;
        assert(self@ =~= old(self)@.grant(workflow_id@, is_nested));
        Ok(token)
    }

    // ---- the workflow lifecycle ----

    /// The row of a workflow.
    pub fn status(&self, workflow_id: &str) -> (workflow: Option<Workflow>)
        ensures
            match workflow {
                Some(w) => w.id@ == workflow_id@ && self@.workflow(workflow_id@) == Some(w.record()),
                None => self@.workflow(workflow_id@) is None,
            },
            self@.well_formed(),
    {
        proof {
            use_type_invariant(self);
        }
        let id = String::from_str(workflow_id);
        read_workflow(&self.workflows, &id)
    }

    /// Starts driving a workflow at `now`: its row is inserted or fetched,
    /// ownership is granted, and the committed steps are listed on request.
    pub fn start(&mut self, data: CreateWorkflowInput, now: i64) -> (started: Result<
        CreateWorkflowOutput,
        WorkflowError,
    >)
        requires
            old(self)@.grant_fits(data.workflow_id@, data.is_nested),
        ensures
            final(self)@ == old(self)@.start(data.workflow_id@, data.is_nested, now),
            final(self)@.well_formed(),
            match old(self)@.start_result(data.workflow_id@, data.is_nested) {
                Ok(t) => started matches Ok(output) && output.fencing_token == t && (
                output.checkpoints is Some <==> data.prefetch_checkpoints) && (
                output.checkpoints matches Some(listing) ==> old(self)@.is_listing(
                    data.workflow_id@,
                    views(listing@),
                )),
                Err(e) => started matches Err(failure) && failure == e,
            },
    {
        proof {
            use_type_invariant(&*self);
        }
        let mut workflows: Vec<Workflow> = no_workflows();
        std::mem::swap(&mut workflows, &mut self.workflows);
        insert_workflow_if_absent(&mut workflows, data.workflow_id.clone(), now);
        self.workflows = workflows;
        assert(self@ =~= old(self)@.ensure_workflow(data.workflow_id@, now));
        let fencing_token: i64 = self.grant_ownership(data.workflow_id.as_str(), data.is_nested)?;
        let checkpoints = if data.prefetch_checkpoints {
            Some(self.list(data.workflow_id.as_str()))
        } else {
            None
        };
        Ok(CreateWorkflowOutput { fencing_token, checkpoints })
    }

    /// Completes a workflow at `now`, to be kept for `data.expire_after`
    /// more milliseconds. Completing a completed workflow changes nothing.
    ///
    /// The caller is judged before any expiry is computed, so the expiry
    /// need only be representable where a running workflow is completed.
    pub fn finish(&mut self, data: FinishWorkflowInput, now: i64) -> (finished: Result<
        FinishWorkflowOutput,
        WorkflowError,
    >)
        requires
            old(self)@.finish_fits(
                data.workflow_id@,
                data.fencing_token,
                data.expire_after,
                now,
            ),
        ensures
            final(self)@ == old(self)@.finish(
                data.workflow_id@,
                data.fencing_token,
                data.expire_after,
                now,
            ),
            final(self)@.well_formed(),
            match old(self)@.finish_result(
                data.workflow_id@,
                data.fencing_token,
                data.expire_after,
                now,
            ) {
                Ok(_) => finished == Ok::<FinishWorkflowOutput, WorkflowError>(
                    FinishWorkflowOutput {  },
                ),
                Err(e) => finished == Err::<FinishWorkflowOutput, WorkflowError>(e),
            },
    {
        proof {
            use_type_invariant(&*self);
        }
        let stored = read_token(&self.tokens, &data.workflow_id);
        let status = match read_workflow(&self.workflows, &data.workflow_id) {
            Some(workflow) => Some(workflow.status),
            None => None,
        };
        match decide_finish(stored, status, data.fencing_token, data.expire_after, now)? {
            FinishDecision::Complete { completed_at, expire_at } => {
                let mut workflows: Vec<Workflow> = no_workflows();
                std::mem::swap(&mut workflows, &mut self.workflows);
                complete_workflow(&mut workflows, &data.workflow_id, completed_at, expire_at);
                self.workflows = workflows;
                assert(self@ =~= old(self)@.finish(
                    data.workflow_id@,
                    data.fencing_token,
                    data.expire_after,
                    now,
                ));
            },
            FinishDecision::AlreadyCompleted => {},
        }
        Ok(FinishWorkflowOutput {  })
    }

    // ---- the checkpoint ledger ----

    /// The row of a committed step.
    pub fn get(&self, workflow_id: &str, position_checksum: i64) -> (checkpoint: Option<Checkpoint>)
        ensures
            optional_row_view(checkpoint) == self@.checkpoint_row(workflow_id@, position_checksum),
    {
        proof {
            use_type_invariant(self);
        }
        let id = String::from_str(workflow_id);
        read_checkpoint_row(&self.checkpoints, &id, position_checksum)
    }

    /// The committed steps of a workflow by ascending position.
    pub fn list(&self, workflow_id: &str) -> (listing: Vec<CheckpointValue>)
        ensures
            self@.is_listing(workflow_id@, views(listing@)),
    {
        proof {
            use_type_invariant(self);
        }
        let id = String::from_str(workflow_id);
        list_checkpoints(&self.checkpoints, &id)
    }

    /// The number of committed steps of a workflow.
    pub fn count(&self, workflow_id: &str) -> (count: usize)
        ensures
            exists|listing: Seq<CheckpointValueView>|
                #[trigger] self@.is_listing(workflow_id@, listing) && count == listing.len(),
    {
        let listing = self.list(workflow_id);
        assert(self@.is_listing(workflow_id@, views(listing@)));
        listing.len()
    }

    /// Commits the result of a step at `now`.
    ///
    /// The lease of the step is consumed whatever the answer. The commit is
    /// fenced against the recorded epoch; a first commit writes the result,
    /// a repeated one changes nothing, and one whose idempotency checksum
    /// differs from the recorded one fails.
    pub fn commit(&mut self, data: CheckpointInput, now: i64) -> (committed: Result<
        CheckpointOutput,
        WorkflowError,
    >)
        ensures
            final(self)@ == old(self)@.commit(
                data.workflow_id@,
                data.fencing_token,
                data.position_checksum,
                data.idempotency_checksum,
                data.value@,
                now,
            ),
            final(self)@.well_formed(),
            match old(self)@.commit_result(
                data.workflow_id@,
                data.fencing_token,
                data.position_checksum,
                data.idempotency_checksum,
                now,
            ) {
                Ok(abort) => committed == Ok::<CheckpointOutput, WorkflowError>(
                    CheckpointOutput { abort },
                ),
                Err(e) => committed == Err::<CheckpointOutput, WorkflowError>(e),
            },
    {
        proof {
            use_type_invariant(&*self);
        }
        let stored = read_token(&self.tokens, &data.workflow_id);
        let mut leases: Vec<LeasedCheckpoint> = no_leases();
        std::mem::swap(&mut leases, &mut self.leases);
        let consumed = take_lease(&mut leases, &data.workflow_id, data.position_checksum);
        self.leases = leases;
        let ghost after_take = self@;
        assert(after_take =~= StoreView {
            leases: old(self)@.leases.remove((data.workflow_id@, data.position_checksum)),
            ..old(self)@
        });
        let abort: bool = fence_commit(stored, consumed, data.fencing_token, now)?;
        let recorded = read_idempotency_checksum(
            &self.checkpoints,
            &data.workflow_id,
            data.position_checksum,
        );
        match decide_write(data.position_checksum, recorded, data.idempotency_checksum)? {
            WriteDecision::Insert => {
                let mut checkpoints: Vec<Checkpoint> = no_checkpoints();
                std::mem::swap(&mut checkpoints, &mut self.checkpoints);
                insert_checkpoint(
                    &mut checkpoints,
                    data.workflow_id,
                    data.position_checksum,
                    data.idempotency_checksum,
                    data.value,
                    now,
                );
                self.checkpoints = checkpoints;
                assert(self@ =~= old(self)@.commit(
                    data.workflow_id@,
                    data.fencing_token,
                    data.position_checksum,
                    data.idempotency_checksum,
                    data.value@,
                    now,
                ));
            },
            WriteDecision::Keep => {},
        }
        Ok(CheckpointOutput { abort })
    }

    // ---- the checkpoint lease manager ----

    /// The lease row of a step, live or not.
    pub fn lease(&self, workflow_id: &str, position_checksum: i64) -> (lease: Option<
        LeasedCheckpointValue,
    >)
        ensures
            lease == self@.lease(workflow_id@, position_checksum),
    {
        proof {
            use_type_invariant(self);
        }
        let id = String::from_str(workflow_id);
        read_lease(&self.leases, &id, position_checksum)
    }

    /// Asks at `now` for the exclusive right to execute a step.
    ///
    /// A committed step is answered with its value. While a lease on the
    /// step is live the answer is the time that it still runs. Otherwise the
    /// holder of the recorded epoch acquires a lease that starts at `now`.
    pub fn try_lease(&mut self, data: LeaseCheckpointInput, now: i64) -> (leased: Result<
        LeaseCheckpointOutput,
        WorkflowError,
    >)
        ensures
            final(self)@ == old(self)@.try_lease(
                data.workflow_id@,
                data.fencing_token,
                data.position_checksum,
                data.lease_timeout,
                data.idempotency_checksum,
                now,
            ),
            final(self)@.well_formed(),
            match old(self)@.try_lease_result(
                data.workflow_id@,
                data.fencing_token,
                data.position_checksum,
                data.lease_timeout,
                data.idempotency_checksum,
                now,
            ) {
                Ok(outcome) => leased matches Ok(output) && output.outcome() == outcome,
                Err(e) => leased matches Err(failure) && failure == e,
            },
    {
        proof {
            use_type_invariant(&*self);
        }
        let committed = read_checkpoint(
            &self.checkpoints,
            &data.workflow_id,
            data.position_checksum,
        );
        if let Some(value) = replay_checkpoint(committed, data.idempotency_checksum)? {
            return Ok(
                LeaseCheckpointOutput {
                    response: Some(LeaseCheckpointReturnType::CheckpointValue(value)),
                },
            );
        }
        let current = read_lease(&self.leases, &data.workflow_id, data.position_checksum);
        let stored = read_token(&self.tokens, &data.workflow_id);
        match decide_lease(current, stored, data.fencing_token, data.lease_timeout, now)? {
            LeaseDecision::Busy(remaining) => Ok(
                LeaseCheckpointOutput {
                    response: Some(LeaseCheckpointReturnType::RemainingLeaseTimeout(remaining)),
                },
            ),
            LeaseDecision::Acquire(lease) => {
                let mut leases: Vec<LeasedCheckpoint> = no_leases();
                std::mem::swap(&mut leases, &mut self.leases);
                write_lease(&mut leases, data.workflow_id, data.position_checksum, lease);
                self.leases = leases;
                assert(self@ =~= old(self)@.try_lease(
                    data.workflow_id@,
                    data.fencing_token,
                    data.position_checksum,
                    data.lease_timeout,
                    data.idempotency_checksum,
                    now,
                ));
                Ok(LeaseCheckpointOutput { response: None })
            },
        }
    }

    /// Gives up the lease of a step, whether or not there is one.
    pub fn release(&mut self, workflow_id: &str, position_checksum: i64)
        ensures
            final(self)@ == old(self)@.release(workflow_id@, position_checksum),
            final(self)@.well_formed(),
    {
        proof {
            use_type_invariant(&*self);
        }
        let id = String::from_str(workflow_id);
        let mut leases: Vec<LeasedCheckpoint> = no_leases();
        std::mem::swap(&mut leases, &mut self.leases);
        let _ = take_lease(&mut leases, &id, position_checksum);
        self.leases = leases;
        assert(self@ =~= old(self)@.release(workflow_id@, position_checksum));
    }

    // ---- the cleanup task ----

    /// Retires, on the leader, every workflow that has completed and whose
    /// expiry lies before `now`, together with its epoch, its checkpoints
    /// and its leases. Does nothing on any other replica.
    pub fn cleanup(&mut self, is_leader: bool, now: i64)
        ensures
            final(self)@ == old(self)@.cleanup(is_leader, now),
            final(self)@.well_formed(),
    {
        proof {
            use_type_invariant(&*self);
        }
        if !is_leader {
            return ;
        }
        let mut tokens: Vec<WorkflowFencingToken> = no_tokens();
        std::mem::swap(&mut tokens, &mut self.tokens);
        let tokens = retain_tokens(tokens, &self.workflows, now);
        let mut checkpoints: Vec<Checkpoint> = no_checkpoints();
        std::mem::swap(&mut checkpoints, &mut self.checkpoints);
        let checkpoints = retain_checkpoints(checkpoints, &self.workflows, now);
        let mut leases: Vec<LeasedCheckpoint> = no_leases();
        std::mem::swap(&mut leases, &mut self.leases);
        let leases = retain_leases(leases, &self.workflows, now);
        let mut workflows: Vec<Workflow> = no_workflows();
        std::mem::swap(&mut workflows, &mut self.workflows);
        let workflows = retain_workflows(workflows, now);
        self.tokens = tokens;
        self.checkpoints = checkpoints;
        self.leases = leases;
        self.workflows = workflows;
        assert(self@ =~= old(self)@.cleanup(is_leader, now));
    }
}

} // verus!
