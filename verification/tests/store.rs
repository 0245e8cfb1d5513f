use workflow_coordinator::checkpoint_service::{
    CheckpointInput, CheckpointOutput, LeaseCheckpointInput, LeaseCheckpointOutput,
    LeaseCheckpointReturnType,
};
use workflow_coordinator::error::WorkflowError;
use workflow_coordinator::schema::{
    Checkpoint, CheckpointValue, LeasedCheckpointValue, Workflow, WorkflowStatus,
};
use workflow_coordinator::store::MemoryStore;
use workflow_coordinator::workflow_service::{
    CreateWorkflowInput, CreateWorkflowOutput, FinishWorkflowInput, FinishWorkflowOutput,
};

fn start_request(id: &str, is_nested: bool, prefetch: bool) -> CreateWorkflowInput {
    CreateWorkflowInput {
        workflow_id: String::from(id),
        is_nested,
        prefetch_checkpoints: prefetch,
    }
}

fn commit_request(id: &str, token: i64, position: i64, idem: i64, value: &[u8]) -> CheckpointInput {
    CheckpointInput {
        workflow_id: String::from(id),
        fencing_token: token,
        position_checksum: position,
        value: value.to_vec(),
        idempotency_checksum: idem,
    }
}

fn lease_request(id: &str, token: i64, position: i64, timeout: i64, idem: i64) -> LeaseCheckpointInput {
    LeaseCheckpointInput {
        workflow_id: String::from(id),
        fencing_token: token,
        position_checksum: position,
        lease_timeout: timeout,
        idempotency_checksum: idem,
    }
}

fn finish_request(id: &str, token: i64, expire_after: i64) -> FinishWorkflowInput {
    FinishWorkflowInput { workflow_id: String::from(id), fencing_token: token, expire_after }
}

fn acquired() -> Result<LeaseCheckpointOutput, WorkflowError> {
    Ok(LeaseCheckpointOutput { response: None })
}

fn busy(remaining: i64) -> Result<LeaseCheckpointOutput, WorkflowError> {
    Ok(LeaseCheckpointOutput {
        response: Some(LeaseCheckpointReturnType::RemainingLeaseTimeout(remaining)),
    })
}

fn computed(value: &[u8]) -> Result<LeaseCheckpointOutput, WorkflowError> {
    Ok(LeaseCheckpointOutput {
        response: Some(LeaseCheckpointReturnType::CheckpointValue(value.to_vec())),
    })
}

fn started(store: &mut MemoryStore, id: &str) -> i64 {
    store.start(start_request(id, false, false), 0).unwrap().fencing_token
}

// ---- epochs ----

#[test]
fn a_new_store_is_empty() {
    let store = MemoryStore::new();
    assert_eq!(store.lookup("wf"), None);
    assert_eq!(store.status("wf"), None);
    assert_eq!(store.get("wf", 1), None);
    assert_eq!(store.lease("wf", 1), None);
    assert_eq!(store.list("wf"), Vec::<CheckpointValue>::new());
    assert_eq!(store.count("wf"), 0);
}

#[test]
fn sequential_starts_count_up_from_one() {
    let mut store = MemoryStore::new();
    for expected in 1..=25i64 {
        let output = store.start(start_request("wf", false, false), expected * 10).unwrap();
        assert_eq!(output.fencing_token, expected);
        assert_eq!(store.lookup("wf"), Some(expected));
    }
}

#[test]
fn epochs_of_different_workflows_are_independent() {
    let mut store = MemoryStore::new();
    assert_eq!(started(&mut store, "a"), 1);
    assert_eq!(started(&mut store, "a"), 2);
    assert_eq!(started(&mut store, "b"), 1);
    assert_eq!(started(&mut store, "a"), 3);
    assert_eq!(started(&mut store, "b"), 2);
    assert_eq!(store.lookup("a"), Some(3));
    assert_eq!(store.lookup("b"), Some(2));
    assert_eq!(store.lookup("c"), None);
}

#[test]
fn grant_ownership_mints_and_inherits() {
    let mut store = MemoryStore::new();
    assert_eq!(store.grant_ownership("wf", true), Err(WorkflowError::NestedFencingConflict));
    assert_eq!(store.lookup("wf"), None);
    assert_eq!(store.grant_ownership("wf", false), Ok(1));
    assert_eq!(store.grant_ownership("wf", true), Ok(1));
    assert_eq!(store.grant_ownership("wf", false), Ok(2));
    assert_eq!(store.grant_ownership("wf", true), Ok(2));
    assert_eq!(store.lookup("wf"), Some(2));
}

#[test]
fn a_nested_start_inherits_the_token() {
    let mut store = MemoryStore::new();
    assert_eq!(started(&mut store, "wf"), 1);
    assert_eq!(started(&mut store, "wf"), 2);
    for _ in 0..5 {
        let output = store.start(start_request("wf", true, false), 7).unwrap();
        assert_eq!(output.fencing_token, 2);
        assert_eq!(store.lookup("wf"), Some(2));
    }
    assert_eq!(started(&mut store, "wf"), 3);
}

#[test]
fn a_nested_start_without_a_token_conflicts() {
    let mut store = MemoryStore::new();
    assert_eq!(
        store.start(start_request("wf", true, false), 5),
        Err(WorkflowError::NestedFencingConflict)
    );
    assert_eq!(store.lookup("wf"), None);
}

#[test]
fn a_start_creates_the_workflow_once() {
    let mut store = MemoryStore::new();
    store.start(start_request("wf", false, false), 100).unwrap();
    let expected = Workflow {
        id: String::from("wf"),
        status: WorkflowStatus::Running,
        expire_at: None,
        completed_at: None,
        created_at: 100,
    };
    assert_eq!(store.status("wf"), Some(expected.clone()));
    store.start(start_request("wf", false, false), 200).unwrap();
    assert_eq!(store.status("wf"), Some(expected));
}

#[test]
fn a_start_prefetches_on_request() {
    let mut store = MemoryStore::new();
    let token = started(&mut store, "wf");
    for position in [5i64, -3, 9, 0] {
        let value = [position as u8];
        store.commit(commit_request("wf", token, position, position * 2, &value), 10).unwrap();
    }
    store.commit(commit_request("other", 1, 1, 1, &[1]), 10).unwrap_err();
    assert_eq!(
        store.start(start_request("wf", false, false), 20),
        Ok(CreateWorkflowOutput { fencing_token: 2, checkpoints: None })
    );
    let output = store.start(start_request("wf", false, true), 30).unwrap();
    assert_eq!(output.fencing_token, 3);
    let listing = output.checkpoints.unwrap();
    let positions: Vec<i64> = listing.iter().map(|c| c.position_checksum).collect();
    assert_eq!(positions, vec![-3, 0, 5, 9]);
    assert_eq!(listing[0].idempotency_checksum, -6);
    assert_eq!(listing[0].value, vec![(-3i64) as u8]);
    assert_eq!(listing[3].value, vec![9u8]);
}

// ---- the ledger ----

#[test]
fn a_commit_needs_an_epoch() {
    let mut store = MemoryStore::new();
    assert_eq!(
        store.commit(commit_request("wf", 1, 1, 7, b"v"), 10),
        Err(WorkflowError::FencingTokenNotFound)
    );
    assert_eq!(store.get("wf", 1), None);
}

#[test]
fn a_commit_is_idempotent() {
    let mut store = MemoryStore::new();
    let token = started(&mut store, "wf");
    assert_eq!(
        store.commit(commit_request("wf", token, 4, 7, b"value"), 10),
        Ok(CheckpointOutput { abort: false })
    );
    assert_eq!(
        store.commit(commit_request("wf", token, 4, 7, b"value"), 20),
        Ok(CheckpointOutput { abort: false })
    );
    assert_eq!(store.count("wf"), 1);
    assert_eq!(
        store.get("wf", 4),
        Some(Checkpoint {
            workflow_id: String::from("wf"),
            position_checksum: 4,
            idempotency_checksum: 7,
            value: b"value".to_vec(),
            created_at: 10,
        })
    );
}

#[test]
fn a_repeated_commit_keeps_the_first_value() {
    let mut store = MemoryStore::new();
    let token = started(&mut store, "wf");
    store.commit(commit_request("wf", token, 4, 7, b"first"), 10).unwrap();
    store.commit(commit_request("wf", token, 4, 7, b"second"), 20).unwrap();
    assert_eq!(store.get("wf", 4).unwrap().value, b"first".to_vec());
    assert_eq!(store.count("wf"), 1);
}

#[test]
fn a_diverging_commit_is_detected() {
    let mut store = MemoryStore::new();
    let token = started(&mut store, "wf");
    store.commit(commit_request("wf", token, 4, 7, b"val1"), 10).unwrap();
    assert_eq!(
        store.commit(commit_request("wf", token, 4, 8, b"val2"), 20),
        Err(WorkflowError::NonDeterministicCheckpoint {
            position_checksum: 4,
            stored: 7,
            provided: 8
        })
    );
    assert_eq!(
        store.get("wf", 4),
        Some(Checkpoint {
            workflow_id: String::from("wf"),
            position_checksum: 4,
            idempotency_checksum: 7,
            value: b"val1".to_vec(),
            created_at: 10,
        })
    );
    assert_eq!(store.count("wf"), 1);
}

#[test]
fn a_commit_consumes_the_lease() {
    let mut store = MemoryStore::new();
    let token = started(&mut store, "wf");
    assert_eq!(store.try_lease(lease_request("wf", token, 4, 1000, 7), 100), acquired());
    assert!(store.lease("wf", 4).is_some());
    store.commit(commit_request("wf", token, 4, 7, b"v"), 200).unwrap();
    assert_eq!(store.lease("wf", 4), None);
}

#[test]
fn a_failed_commit_consumes_the_lease_too() {
    let mut store = MemoryStore::new();
    let token = started(&mut store, "wf");
    store.try_lease(lease_request("wf", token, 4, 1000, 7), 100).unwrap();
    started(&mut store, "wf");
    assert_eq!(
        store.commit(commit_request("wf", token, 4, 7, b"v"), 200),
        Err(WorkflowError::FencingTokenExpired { stored: 2, provided: 1 })
    );
    assert_eq!(store.lease("wf", 4), None);
    assert_eq!(store.get("wf", 4), None);
}

#[test]
fn a_stale_commit_under_a_live_lease_is_rejected() {
    let mut store = MemoryStore::new();
    let old = started(&mut store, "wf");
    store.try_lease(lease_request("wf", old, 4, 1000, 7), 100).unwrap();
    let new = started(&mut store, "wf");
    assert_eq!((old, new), (1, 2));
    assert_eq!(
        store.commit(commit_request("wf", old, 4, 7, b"v"), 1100),
        Err(WorkflowError::FencingTokenExpired { stored: 2, provided: 1 })
    );
}

#[test]
fn a_stale_commit_after_expiry_is_kept_and_aborts() {
    let mut store = MemoryStore::new();
    let old = started(&mut store, "wf");
    store.try_lease(lease_request("wf", old, 4, 1000, 7), 100).unwrap();
    started(&mut store, "wf");
    assert_eq!(
        store.commit(commit_request("wf", old, 4, 7, b"late"), 1101),
        Ok(CheckpointOutput { abort: true })
    );
    assert_eq!(store.get("wf", 4).unwrap().value, b"late".to_vec());
}

#[test]
fn a_stale_commit_without_a_lease_is_kept_and_aborts() {
    let mut store = MemoryStore::new();
    let old = started(&mut store, "wf");
    started(&mut store, "wf");
    assert_eq!(
        store.commit(commit_request("wf", old, 4, 7, b"late"), 50),
        Ok(CheckpointOutput { abort: true })
    );
    assert_eq!(store.count("wf"), 1);
}

#[test]
fn a_commit_with_a_newer_token_is_accepted() {
    let mut store = MemoryStore::new();
    let token = started(&mut store, "wf");
    store.try_lease(lease_request("wf", token, 4, 1000, 7), 100).unwrap();
    assert_eq!(
        store.commit(commit_request("wf", token + 5, 4, 7, b"v"), 200),
        Ok(CheckpointOutput { abort: false })
    );
}

#[test]
fn checkpoints_are_listed_by_position() {
    let mut store = MemoryStore::new();
    let a = started(&mut store, "a");
    let b = started(&mut store, "b");
    let positions = [40i64, -2, 17, i64::MAX, 0, i64::MIN, 3];
    for (n, &position) in positions.iter().enumerate() {
        store.commit(commit_request("a", a, position, n as i64, &[n as u8]), 10).unwrap();
    }
    store.commit(commit_request("b", b, 17, 99, b"b"), 10).unwrap();
    let listing = store.list("a");
    let listed: Vec<i64> = listing.iter().map(|c| c.position_checksum).collect();
    assert_eq!(listed, vec![i64::MIN, -2, 0, 3, 17, 40, i64::MAX]);
    let checksums: Vec<i64> = listing.iter().map(|c| c.idempotency_checksum).collect();
    assert_eq!(checksums, vec![5, 1, 4, 6, 2, 0, 3]);
    assert_eq!(listing[4].value, vec![2u8]);
    assert_eq!(store.count("a"), 7);
    assert_eq!(store.count("b"), 1);
    assert_eq!(store.count("c"), 0);
    assert_eq!(
        store.list("b"),
        vec![CheckpointValue { position_checksum: 17, idempotency_checksum: 99, value: b"b".to_vec() }]
    );
}

// ---- leases ----

#[test]
fn a_lease_needs_an_epoch() {
    let mut store = MemoryStore::new();
    assert_eq!(
        store.try_lease(lease_request("wf", 1, 4, 1000, 7), 100),
        Err(WorkflowError::FencingTokenNotFound)
    );
    assert_eq!(store.lease("wf", 4), None);
}

#[test]
fn a_lease_is_exclusive_while_live() {
    let mut store = MemoryStore::new();
    let token = started(&mut store, "wf");
    assert_eq!(store.try_lease(lease_request("wf", token, 4, 1000, 7), 5000), acquired());
    assert_eq!(
        store.lease("wf", 4),
        Some(LeasedCheckpointValue { lease_timeout: 1000, created_at: 5000 })
    );
    assert_eq!(store.try_lease(lease_request("wf", token, 4, 1000, 7), 5000), busy(1000));
    assert_eq!(store.try_lease(lease_request("wf", token, 4, 1000, 7), 5400), busy(600));
    assert_eq!(store.try_lease(lease_request("wf", token, 4, 9999, 7), 5999), busy(1));
    assert_eq!(store.try_lease(lease_request("wf", token, 4, 1000, 7), 6000), busy(0));
    assert_eq!(
        store.lease("wf", 4),
        Some(LeasedCheckpointValue { lease_timeout: 1000, created_at: 5000 })
    );
}

#[test]
fn a_live_lease_is_busy_for_any_caller() {
    let mut store = MemoryStore::new();
    let token = started(&mut store, "wf");
    store.try_lease(lease_request("wf", token, 4, 1000, 7), 5000).unwrap();
    let newer = started(&mut store, "wf");
    assert_eq!(store.try_lease(lease_request("wf", newer, 4, 50, 7), 5400), busy(600));
    assert_eq!(store.try_lease(lease_request("wf", token, 4, 50, 8), 5400), busy(600));
    assert_eq!(store.try_lease(lease_request("wf", 77, 4, 50, 7), 5400), busy(600));
}

#[test]
fn a_lease_is_reclaimed_after_expiry() {
    let mut store = MemoryStore::new();
    let token = started(&mut store, "wf");
    store.try_lease(lease_request("wf", token, 4, 1000, 7), 5000).unwrap();
    assert_eq!(store.try_lease(lease_request("wf", token, 4, 250, 7), 6001), acquired());
    assert_eq!(
        store.lease("wf", 4),
        Some(LeasedCheckpointValue { lease_timeout: 250, created_at: 6001 })
    );
    assert_eq!(store.try_lease(lease_request("wf", token, 4, 250, 7), 6002), busy(249));
}

#[test]
fn a_stale_caller_cannot_reclaim() {
    let mut store = MemoryStore::new();
    let old = started(&mut store, "wf");
    store.try_lease(lease_request("wf", old, 4, 1000, 7), 5000).unwrap();
    started(&mut store, "wf");
    assert_eq!(
        store.try_lease(lease_request("wf", old, 4, 1000, 7), 6001),
        Err(WorkflowError::FencingTokenExpired { stored: 2, provided: 1 })
    );
    assert_eq!(
        store.lease("wf", 4),
        Some(LeasedCheckpointValue { lease_timeout: 1000, created_at: 5000 })
    );
}

#[test]
fn a_token_ahead_of_the_store_is_unexpected() {
    let mut store = MemoryStore::new();
    let token = started(&mut store, "wf");
    assert_eq!(
        store.try_lease(lease_request("wf", token + 1, 4, 1000, 7), 5000),
        Err(WorkflowError::UnexpectedState { stored: 1, provided: 2 })
    );
    assert_eq!(store.lease("wf", 4), None);
}

#[test]
fn a_committed_step_is_answered_with_its_value() {
    let mut store = MemoryStore::new();
    let token = started(&mut store, "wf");
    store.commit(commit_request("wf", token, 4, 7, b"done"), 10).unwrap();
    assert_eq!(store.try_lease(lease_request("wf", token, 4, 1000, 7), 20), computed(b"done"));
    assert_eq!(store.try_lease(lease_request("wf", 0, 4, 1000, 7), 20), computed(b"done"));
    assert_eq!(store.lease("wf", 4), None);
}

#[test]
fn a_committed_step_with_other_inputs_is_non_deterministic() {
    let mut store = MemoryStore::new();
    let token = started(&mut store, "wf");
    store.commit(commit_request("wf", token, 4, 7, b"done"), 10).unwrap();
    assert_eq!(
        store.try_lease(lease_request("wf", token, 4, 1000, 8), 20),
        Err(WorkflowError::NonDeterministicCheckpoint {
            position_checksum: 4,
            stored: 7,
            provided: 8
        })
    );
}

#[test]
fn leases_of_different_steps_are_independent() {
    let mut store = MemoryStore::new();
    let token = started(&mut store, "wf");
    let other = started(&mut store, "other");
    assert_eq!(store.try_lease(lease_request("wf", token, 4, 1000, 7), 100), acquired());
    assert_eq!(store.try_lease(lease_request("wf", token, 5, 1000, 7), 100), acquired());
    assert_eq!(store.try_lease(lease_request("other", other, 4, 1000, 7), 100), acquired());
    assert_eq!(store.try_lease(lease_request("wf", token, 4, 1000, 7), 100), busy(1000));
}

#[test]
fn a_release_frees_the_step() {
    let mut store = MemoryStore::new();
    let token = started(&mut store, "wf");
    store.try_lease(lease_request("wf", token, 4, 1000, 7), 100).unwrap();
    store.release("wf", 5);
    store.release("other", 4);
    assert!(store.lease("wf", 4).is_some());
    store.release("wf", 4);
    assert_eq!(store.lease("wf", 4), None);
    store.release("wf", 4);
    assert_eq!(store.try_lease(lease_request("wf", token, 4, 1000, 7), 150), acquired());
}

#[test]
fn racing_callers_get_one_lease() {
    let mut store = MemoryStore::new();
    let token = started(&mut store, "wf");
    let mut granted = 0;
    let mut waiting = 0;
    for caller in 0..50i64 {
        match store.try_lease(lease_request("wf", token, 4, 1000, 7), 100 + caller) {
            Ok(LeaseCheckpointOutput { response: None }) => granted += 1,
            Ok(LeaseCheckpointOutput {
                response: Some(LeaseCheckpointReturnType::RemainingLeaseTimeout(remaining)),
            }) => {
                assert_eq!(remaining, 1000 - caller);
                waiting += 1;
            }
            other => panic!("unexpected answer {:?}", other),
        }
    }
    assert_eq!((granted, waiting), (1, 49));
}

// ---- the lifecycle ----

#[test]
fn finishing_completes_the_workflow() {
    let mut store = MemoryStore::new();
    store.start(start_request("wf", false, false), 1_000).unwrap();
    assert_eq!(store.finish(finish_request("wf", 1, 3_600_000), 5_000), Ok(FinishWorkflowOutput {}));
    assert_eq!(
        store.status("wf"),
        Some(Workflow {
            id: String::from("wf"),
            status: WorkflowStatus::Completed,
            expire_at: Some(3_605_000),
            completed_at: Some(5_000),
            created_at: 1_000,
        })
    );
}

#[test]
fn finishing_twice_changes_nothing() {
    let mut store = MemoryStore::new();
    store.start(start_request("wf", false, false), 1_000).unwrap();
    store.finish(finish_request("wf", 1, 3_600_000), 5_000).unwrap();
    let completed = store.status("wf");
    assert_eq!(store.finish(finish_request("wf", 1, 10), 9_000), Ok(FinishWorkflowOutput {}));
    assert_eq!(store.finish(finish_request("wf", 4, 3_600_000), 9_500), Ok(FinishWorkflowOutput {}));
    assert_eq!(store.status("wf"), completed);
}

#[test]
fn a_stale_finish_leaves_the_workflow_running() {
    let mut store = MemoryStore::new();
    let old = started(&mut store, "wf");
    started(&mut store, "wf");
    assert_eq!(
        store.finish(finish_request("wf", old, 3_600_000), 5_000),
        Err(WorkflowError::FencingTokenExpired { stored: 2, provided: 1 })
    );
    assert_eq!(store.status("wf").unwrap().status, WorkflowStatus::Running);
}

#[test]
fn finishing_with_a_newer_token_is_accepted() {
    let mut store = MemoryStore::new();
    let token = started(&mut store, "wf");
    assert_eq!(store.finish(finish_request("wf", token + 3, 100), 5_000), Ok(FinishWorkflowOutput {}));
    assert_eq!(store.status("wf").unwrap().expire_at, Some(5_100));
}

#[test]
fn finishing_an_unknown_workflow_is_not_found() {
    let mut store = MemoryStore::new();
    assert_eq!(
        store.finish(finish_request("wf", 1, 3_600_000), 5_000),
        Err(WorkflowError::WorkflowNotFound)
    );
    store.grant_ownership("wf", false).unwrap();
    assert_eq!(
        store.finish(finish_request("wf", 1, 3_600_000), 5_000),
        Err(WorkflowError::WorkflowNotFound)
    );
    assert_eq!(store.status("wf"), None);
}

#[test]
fn a_completed_workflow_can_be_started_again_without_reopening() {
    let mut store = MemoryStore::new();
    started(&mut store, "wf");
    store.finish(finish_request("wf", 1, 100), 5_000).unwrap();
    assert_eq!(started(&mut store, "wf"), 2);
    assert_eq!(store.status("wf").unwrap().status, WorkflowStatus::Completed);
}

#[test]
fn a_stale_finish_is_refused_whatever_the_expiry() {
    let mut store = MemoryStore::new();
    let old = started(&mut store, "wf");
    started(&mut store, "wf");
    let before = store.status("wf");
    assert_eq!(
        store.finish(finish_request("wf", old, i64::MAX), i64::MAX),
        Err(WorkflowError::FencingTokenExpired { stored: 2, provided: 1 })
    );
    assert_eq!(
        store.finish(finish_request("wf", old, i64::MIN), i64::MIN),
        Err(WorkflowError::FencingTokenExpired { stored: 2, provided: 1 })
    );
    assert_eq!(store.status("wf"), before);
}

#[test]
fn a_missing_workflow_is_not_found_whatever_the_expiry() {
    let mut store = MemoryStore::new();
    assert_eq!(
        store.finish(finish_request("wf", 1, i64::MAX), i64::MAX),
        Err(WorkflowError::WorkflowNotFound)
    );
    store.grant_ownership("wf", false).unwrap();
    assert_eq!(
        store.finish(finish_request("wf", 1, i64::MAX), i64::MAX),
        Err(WorkflowError::WorkflowNotFound)
    );
    assert_eq!(store.status("wf"), None);
    assert_eq!(store.lookup("wf"), Some(1));
}

#[test]
fn a_repeated_finish_succeeds_whatever_the_expiry() {
    let mut store = MemoryStore::new();
    store.start(start_request("wf", false, false), 1_000).unwrap();
    store.finish(finish_request("wf", 1, 3_600_000), 5_000).unwrap();
    let completed = store.status("wf");
    assert_eq!(
        store.finish(finish_request("wf", 1, i64::MAX), i64::MAX),
        Ok(FinishWorkflowOutput {})
    );
    assert_eq!(
        store.finish(finish_request("wf", 2, i64::MIN), i64::MIN),
        Ok(FinishWorkflowOutput {})
    );
    assert_eq!(store.status("wf"), completed);
    assert_eq!(completed.unwrap().expire_at, Some(3_605_000));
}

// ---- the cleanup ----

fn populated() -> MemoryStore {
    let mut store = MemoryStore::new();
    for id in ["done", "fresh", "running"] {
        let token = store.start(start_request(id, false, false), 10).unwrap().fencing_token;
        store.commit(commit_request(id, token, 1, 11, b"one"), 20).unwrap();
        store.commit(commit_request(id, token, 2, 22, b"two"), 20).unwrap();
        store.try_lease(lease_request(id, token, 3, 1_000_000, 33), 30).unwrap();
    }
    store.finish(finish_request("done", 1, 100), 1_000).unwrap();
    store.finish(finish_request("fresh", 1, 100_000), 1_000).unwrap();
    store
}

#[test]
fn cleanup_retires_expired_workflows_with_all_their_rows() {
    let mut store = populated();
    store.cleanup(true, 1_101);
    assert_eq!(store.status("done"), None);
    assert_eq!(store.lookup("done"), None);
    assert_eq!(store.count("done"), 0);
    assert_eq!(store.get("done", 1), None);
    assert_eq!(store.get("done", 2), None);
    assert_eq!(store.lease("done", 3), None);
}

#[test]
fn cleanup_keeps_what_has_not_expired() {
    let mut store = populated();
    store.cleanup(true, 1_101);
    for id in ["fresh", "running"] {
        assert!(store.status(id).is_some());
        assert_eq!(store.lookup(id), Some(1));
        assert_eq!(store.count(id), 2);
        assert_eq!(store.get(id, 2).unwrap().value, b"two".to_vec());
        assert_eq!(
            store.lease(id, 3),
            Some(LeasedCheckpointValue { lease_timeout: 1_000_000, created_at: 30 })
        );
    }
}

#[test]
fn cleanup_waits_for_the_expiry_to_pass() {
    let mut store = populated();
    store.cleanup(true, 1_100);
    assert!(store.status("done").is_some());
    assert_eq!(store.lookup("done"), Some(1));
    assert_eq!(store.count("done"), 2);
    store.cleanup(true, 1_101);
    assert_eq!(store.status("done"), None);
}

#[test]
fn cleanup_never_retires_a_running_workflow() {
    let mut store = populated();
    store.cleanup(true, i64::MAX);
    assert_eq!(store.status("done"), None);
    assert_eq!(store.status("fresh"), None);
    assert_eq!(store.status("running").unwrap().status, WorkflowStatus::Running);
    assert_eq!(store.lookup("running"), Some(1));
    assert_eq!(store.count("running"), 2);
    assert!(store.lease("running", 3).is_some());
}

#[test]
fn cleanup_does_nothing_off_the_leader() {
    let mut store = populated();
    store.cleanup(false, i64::MAX);
    for id in ["done", "fresh", "running"] {
        assert!(store.status(id).is_some());
        assert_eq!(store.lookup(id), Some(1));
        assert_eq!(store.count(id), 2);
        assert!(store.lease(id, 3).is_some());
    }
}

#[test]
fn a_retired_workflow_starts_over() {
    let mut store = populated();
    store.cleanup(true, 2_000);
    assert_eq!(
        store.commit(commit_request("done", 1, 1, 11, b"one"), 2_100),
        Err(WorkflowError::FencingTokenNotFound)
    );
    assert_eq!(
        store.finish(finish_request("done", 1, 10), 2_100),
        Err(WorkflowError::WorkflowNotFound)
    );
    assert_eq!(store.start(start_request("done", false, true), 2_200).unwrap(), CreateWorkflowOutput {
        fencing_token: 1,
        checkpoints: Some(vec![]),
    });
    assert_eq!(store.status("done").unwrap().created_at, 2_200);
}

#[test]
fn the_store_stays_well_formed() {
    let mut store = populated();
    for id in ["done", "fresh", "running"] {
        let workflow = store.status(id).unwrap();
        let completed = workflow.status == WorkflowStatus::Completed;
        assert_eq!(workflow.expire_at.is_some(), completed);
        assert_eq!(workflow.completed_at.is_some(), completed);
        assert!(store.lookup(id).unwrap() >= 1);
    }
    store.cleanup(true, 5_000);
    for id in ["fresh", "running"] {
        let workflow = store.status(id).unwrap();
        let completed = workflow.status == WorkflowStatus::Completed;
        assert_eq!(workflow.expire_at.is_some(), completed);
        assert_eq!(workflow.completed_at.is_some(), completed);
        assert!(store.lookup(id).unwrap() >= 1);
    }
}
