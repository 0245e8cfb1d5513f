//! The four tables as vectors of rows: the keys and values of each, and the
//! search for a key.

use vstd::prelude::*;
use crate::ledger::{is_listing, views};
use crate::lifecycle::{fresh_record, step_survives, survives, workflow_is_expired};
use crate::schema::{
    Checkpoint, CheckpointRecord, CheckpointValue, CheckpointView, LeasedCheckpoint,
    LeasedCheckpointValue, Workflow, WorkflowFencingToken, WorkflowRecord, WorkflowStatus,
    optional_row_view, optional_view,
};
use crate::table::{
    as_map, distinct, filtered_from, lemma_as_map_absent, lemma_as_map_at, lemma_as_map_push,
    lemma_as_map_remove, lemma_as_map_update, lemma_filter_done, lemma_filter_keep,
    lemma_filter_skip, lemma_filter_start, restricted,
};

verus! {

pub open spec fn workflow_keys(rows: Seq<Workflow>) -> Seq<Seq<char>> {
    Seq::new(rows.len(), |i: int| rows[i].id@)
}

pub open spec fn workflow_values(rows: Seq<Workflow>) -> Seq<WorkflowRecord> {
    Seq::new(rows.len(), |i: int| rows[i].record())
}

pub open spec fn token_keys(rows: Seq<WorkflowFencingToken>) -> Seq<Seq<char>> {
    Seq::new(rows.len(), |i: int| rows[i].workflow_id@)
}

pub open spec fn token_values(rows: Seq<WorkflowFencingToken>) -> Seq<i64> {
    Seq::new(rows.len(), |i: int| rows[i].fencing_token)
}

pub open spec fn checkpoint_keys(rows: Seq<Checkpoint>) -> Seq<(Seq<char>, i64)> {
    Seq::new(rows.len(), |i: int| (rows[i].workflow_id@, rows[i].position_checksum))
}

pub open spec fn checkpoint_values(rows: Seq<Checkpoint>) -> Seq<CheckpointRecord> {
    Seq::new(rows.len(), |i: int| rows[i].record())
}

pub open spec fn lease_keys(rows: Seq<LeasedCheckpoint>) -> Seq<(Seq<char>, i64)> {
    Seq::new(rows.len(), |i: int| (rows[i].workflow_id@, rows[i].position_checksum))
}

pub open spec fn lease_values(rows: Seq<LeasedCheckpoint>) -> Seq<LeasedCheckpointValue> {
    Seq::new(rows.len(), |i: int| rows[i].lease())
}

/// Finds the row of a workflow.
pub fn find_workflow(rows: &Vec<Workflow>, id: &String) -> (found: Option<usize>)
    ensures
        match found {
            Some(i) => i < rows.len() && workflow_keys(rows@)[i as int] == id@,
            None => forall|i: int| 0 <= i < rows.len() ==> workflow_keys(rows@)[i] != id@,
        },
{
    let mut i: usize = 0;
    while i < rows.len()
        invariant
            i <= rows.len(),
            forall|j: int| 0 <= j < i ==> workflow_keys(rows@)[j] != id@,
        decreases rows.len() - i,
    {
        if rows[i].id == *id {
            return Some(i);
        }
        i += 1;
    }
    None
}

/// Finds the epoch row of a workflow.
pub fn find_token(rows: &Vec<WorkflowFencingToken>, id: &String) -> (found: Option<usize>)
    ensures
        match found {
            Some(i) => i < rows.len() && token_keys(rows@)[i as int] == id@,
            None => forall|i: int| 0 <= i < rows.len() ==> token_keys(rows@)[i] != id@,
        },
{
    let mut i: usize = 0;
    while i < rows.len()
        invariant
            i <= rows.len(),
            forall|j: int| 0 <= j < i ==> token_keys(rows@)[j] != id@,
        decreases rows.len() - i,
    {
        if rows[i].workflow_id == *id {
            return Some(i);
        }
        i += 1;
    }
    None
}

/// Finds the committed row of a step.
pub fn find_checkpoint(rows: &Vec<Checkpoint>, id: &String, position: i64) -> (found: Option<usize>)
    ensures
        match found {
            Some(i) => i < rows.len() && checkpoint_keys(rows@)[i as int] == (id@, position),
            None => forall|i: int|
                0 <= i < rows.len() ==> checkpoint_keys(rows@)[i] != (id@, position),
        },
{
    let mut i: usize = 0;
    while i < rows.len()
        invariant
            i <= rows.len(),
            forall|j: int| 0 <= j < i ==> checkpoint_keys(rows@)[j] != (id@, position),
        decreases rows.len() - i,
    {
        if rows[i].position_checksum == position && rows[i].workflow_id == *id {
            return Some(i);
        }
        i += 1;
    }
    None
}

/// Finds the lease row of a step.
pub fn find_lease(rows: &Vec<LeasedCheckpoint>, id: &String, position: i64) -> (found: Option<usize>)
    ensures
        match found {
            Some(i) => i < rows.len() && lease_keys(rows@)[i as int] == (id@, position),
            None => forall|i: int| 0 <= i < rows.len() ==> lease_keys(rows@)[i] != (id@, position),
        },
{
    let mut i: usize = 0;
    while i < rows.len()
        invariant
            i <= rows.len(),
            forall|j: int| 0 <= j < i ==> lease_keys(rows@)[j] != (id@, position),
        decreases rows.len() - i,
    {
        if rows[i].position_checksum == position && rows[i].workflow_id == *id {
            return Some(i);
        }
        i += 1;
    }
    None
}

/// The workflow table that the rows stand for.
pub open spec fn workflow_table(rows: Seq<Workflow>) -> Map<Seq<char>, WorkflowRecord> {
    as_map(workflow_keys(rows), workflow_values(rows))
}

/// The epoch table that the rows stand for.
pub open spec fn token_table(rows: Seq<WorkflowFencingToken>) -> Map<Seq<char>, i64> {
    as_map(token_keys(rows), token_values(rows))
}

/// The checkpoint table that the rows stand for.
pub open spec fn checkpoint_table(rows: Seq<Checkpoint>) -> Map<(Seq<char>, i64), CheckpointRecord> {
    as_map(checkpoint_keys(rows), checkpoint_values(rows))
}

/// The lease table that the rows stand for.
pub open spec fn lease_table(rows: Seq<LeasedCheckpoint>) -> Map<
    (Seq<char>, i64),
    LeasedCheckpointValue,
> {
    as_map(lease_keys(rows), lease_values(rows))
}

/// The entry of a key, if the map has one.
pub open spec fn entry<K, V>(entries: Map<K, V>, key: K) -> Option<V> {
    if entries.contains_key(key) {
        Some(entries[key])
    } else {
        None
    }
}

// ---- what holds of every table ----

/// No workflow has two rows, and the completion fields of each are set
/// exactly when it has completed.
pub open spec fn valid_workflows(rows: Seq<Workflow>) -> bool {
    &&& distinct(workflow_keys(rows))
    &&& forall|id: Seq<char>| #[trigger]
        workflow_table(rows).contains_key(id) ==> workflow_table(rows)[id].well_formed()
}

/// No workflow has two epochs, and epochs start at 1.
pub open spec fn valid_tokens(rows: Seq<WorkflowFencingToken>) -> bool {
    &&& distinct(token_keys(rows))
    &&& forall|id: Seq<char>| #[trigger]
        token_table(rows).contains_key(id) ==> token_table(rows)[id] >= 1
}

/// No step has two committed results.
pub open spec fn valid_checkpoints(rows: Seq<Checkpoint>) -> bool {
    distinct(checkpoint_keys(rows))
}

/// No step has two leases.
pub open spec fn valid_leases(rows: Seq<LeasedCheckpoint>) -> bool {
    distinct(lease_keys(rows))
}

// ---- empty tables ----

/// A workflow table without rows.
pub fn no_workflows() -> (rows: Vec<Workflow>)
    ensures
        valid_workflows(rows@),
        workflow_table(rows@) == Map::<Seq<char>, WorkflowRecord>::empty(),
{
    let rows: Vec<Workflow> = Vec::new();
    assert(workflow_table(rows@) =~= Map::<Seq<char>, WorkflowRecord>::empty());
    rows
}

/// An epoch table without rows.
pub fn no_tokens() -> (rows: Vec<WorkflowFencingToken>)
    ensures
        valid_tokens(rows@),
        token_table(rows@) == Map::<Seq<char>, i64>::empty(),
{
    let rows: Vec<WorkflowFencingToken> = Vec::new();
    assert(token_table(rows@) =~= Map::<Seq<char>, i64>::empty());
    rows
}

/// A checkpoint table without rows.
pub fn no_checkpoints() -> (rows: Vec<Checkpoint>)
    ensures
        valid_checkpoints(rows@),
        checkpoint_table(rows@) == Map::<(Seq<char>, i64), CheckpointRecord>::empty(),
{
    let rows: Vec<Checkpoint> = Vec::new();
    assert(checkpoint_table(rows@) =~= Map::<(Seq<char>, i64), CheckpointRecord>::empty());
    rows
}

/// A lease table without rows.
pub fn no_leases() -> (rows: Vec<LeasedCheckpoint>)
    ensures
        valid_leases(rows@),
        lease_table(rows@) == Map::<(Seq<char>, i64), LeasedCheckpointValue>::empty(),
{
    let rows: Vec<LeasedCheckpoint> = Vec::new();
    assert(lease_table(rows@) =~= Map::<(Seq<char>, i64), LeasedCheckpointValue>::empty());
    rows
}

// ---- epochs ----

/// Reads the recorded epoch of a workflow.
pub fn read_token(rows: &Vec<WorkflowFencingToken>, id: &String) -> (token: Option<i64>)
    requires
        distinct(token_keys(rows@)),
    ensures
        token == entry(token_table(rows@), id@),
{
    match find_token(rows, id) {
        Some(i) => {
            proof {
                lemma_as_map_at(token_keys(rows@), token_values(rows@), i as int);
            }
            Some(rows[i].fencing_token)
        },
        None => {
            proof {
                lemma_as_map_absent(token_keys(rows@), token_values(rows@), id@);
            }
            None
        },
    }
}

/// Records the epoch of a workflow, over the one recorded before if any.
pub fn write_token(rows: &mut Vec<WorkflowFencingToken>, id: String, token: i64)
    requires
        distinct(token_keys(old(rows)@)),
    ensures
        distinct(token_keys(final(rows)@)),
        token_table(final(rows)@) == token_table(old(rows)@).insert(id@, token),
{
    let ghost keys = token_keys(rows@);
    let ghost values = token_values(rows@);
    match find_token(rows, &id) {
        Some(i) => {
            proof {
                lemma_as_map_update(keys, values, i as int, token);
            }
            rows[i].fencing_token = token;
            assert(token_keys(rows@) =~= keys);
            assert(token_values(rows@) =~= values.update(i as int, token));
        },
        None => {
            proof {
                lemma_as_map_push(keys, values, id@, token);
            }
            rows.push(WorkflowFencingToken { workflow_id: id, fencing_token: token });
            assert(token_keys(rows@) =~= keys.push(id@));
            assert(token_values(rows@) =~= values.push(token));
        },
    }
}

// ---- workflows ----

/// Reads the row of a workflow.
pub fn read_workflow(rows: &Vec<Workflow>, id: &String) -> (workflow: Option<Workflow>)
    requires
        distinct(workflow_keys(rows@)),
    ensures
        match workflow {
            Some(w) => w.id@ == id@ && entry(workflow_table(rows@), id@) == Some(w.record()),
            None => entry(workflow_table(rows@), id@) is None,
        },
{
    match find_workflow(rows, id) {
        Some(i) => {
            proof {
                lemma_as_map_at(workflow_keys(rows@), workflow_values(rows@), i as int);
            }
            Some(
                Workflow {
                    id: rows[i].id.clone(),
                    status: rows[i].status,
                    expire_at: rows[i].expire_at,
                    completed_at: rows[i].completed_at,
                    created_at: rows[i].created_at,
                },
            )
        },
        None => {
            proof {
                lemma_as_map_absent(workflow_keys(rows@), workflow_values(rows@), id@);
            }
            None
        },
    }
}

/// Inserts a running workflow created at `now`, unless the workflow has a
/// row already.
pub fn insert_workflow_if_absent(rows: &mut Vec<Workflow>, id: String, now: i64)
    requires
        distinct(workflow_keys(old(rows)@)),
    ensures
        distinct(workflow_keys(final(rows)@)),
        workflow_table(final(rows)@) == if workflow_table(old(rows)@).contains_key(id@) {
            workflow_table(old(rows)@)
        } else {
            workflow_table(old(rows)@).insert(id@, fresh_record(now))
        },
{
    let ghost keys = workflow_keys(rows@);
    let ghost values = workflow_values(rows@);
    match find_workflow(rows, &id) {
        Some(i) => {
            proof {
                lemma_as_map_at(keys, values, i as int);
            }
        },
        None => {
            proof {
                lemma_as_map_absent(keys, values, id@);
                lemma_as_map_push(keys, values, id@, fresh_record(now));
            }
            rows.push(
                Workflow {
                    id,
                    status: WorkflowStatus::Running,
                    expire_at: None,
                    completed_at: None,
                    created_at: now,
                },
            );
            assert(workflow_keys(rows@) =~= keys.push(id@));
            assert(workflow_values(rows@) =~= values.push(fresh_record(now)));
        },
    }
}

/// Marks a workflow completed at `completed_at`, to expire at `expire_at`.
/// A workflow without a row is left without one.
pub fn complete_workflow(rows: &mut Vec<Workflow>, id: &String, completed_at: i64, expire_at: i64)
    requires
        distinct(workflow_keys(old(rows)@)),
    ensures
        distinct(workflow_keys(final(rows)@)),
        workflow_table(final(rows)@) == if workflow_table(old(rows)@).contains_key(id@) {
            workflow_table(old(rows)@).insert(
                id@,
                WorkflowRecord {
                    status: WorkflowStatus::Completed,
                    expire_at: Some(expire_at),
                    completed_at: Some(completed_at),
                    created_at: workflow_table(old(rows)@)[id@].created_at,
                },
            )
        } else {
            workflow_table(old(rows)@)
        },
{
    let ghost keys = workflow_keys(rows@);
    let ghost values = workflow_values(rows@);
    match find_workflow(rows, id) {
        Some(i) => {
            let ghost record = WorkflowRecord {
                status: WorkflowStatus::Completed,
                expire_at: Some(expire_at),
                completed_at: Some(completed_at),
                created_at: rows[i as int].created_at,
            };
            proof {
                lemma_as_map_at(keys, values, i as int);
                lemma_as_map_update(keys, values, i as int, record);
            }
            rows[i].status = WorkflowStatus::Completed;
            rows[i].expire_at = Some(expire_at);
            rows[i].completed_at = Some(completed_at);
            assert(workflow_keys(rows@) =~= keys);
            assert(workflow_values(rows@) =~= values.update(i as int, record));
        },
        None => {
            proof {
                lemma_as_map_absent(keys, values, id@);
            }
        },
    }
}

// ---- leases ----

/// Reads the lease row of a step.
pub fn read_lease(rows: &Vec<LeasedCheckpoint>, id: &String, position: i64) -> (lease: Option<
    LeasedCheckpointValue,
>)
    requires
        distinct(lease_keys(rows@)),
    ensures
        lease == entry(lease_table(rows@), (id@, position)),
{
    match find_lease(rows, id, position) {
        Some(i) => {
            proof {
                lemma_as_map_at(lease_keys(rows@), lease_values(rows@), i as int);
            }
            Some(
                LeasedCheckpointValue {
                    lease_timeout: rows[i].lease_timeout,
                    created_at: rows[i].created_at,
                },
            )
        },
        None => {
            proof {
                lemma_as_map_absent(lease_keys(rows@), lease_values(rows@), (id@, position));
            }
            None
        },
    }
}

/// Stores the lease of a step, over the one stored before if any.
pub fn write_lease(
    rows: &mut Vec<LeasedCheckpoint>,
    id: String,
    position: i64,
    lease: LeasedCheckpointValue,
)
    requires
        distinct(lease_keys(old(rows)@)),
    ensures
        distinct(lease_keys(final(rows)@)),
        lease_table(final(rows)@) == lease_table(old(rows)@).insert((id@, position), lease),
{
    let ghost keys = lease_keys(rows@);
    let ghost values = lease_values(rows@);
    match find_lease(rows, &id, position) {
        Some(i) => {
            proof {
                lemma_as_map_update(keys, values, i as int, lease);
            }
            rows[i].lease_timeout = lease.lease_timeout;
            rows[i].created_at = lease.created_at;
            assert(lease_keys(rows@) =~= keys);
            assert(lease_values(rows@) =~= values.update(i as int, lease));
        },
        None => {
            proof {
                lemma_as_map_push(keys, values, (id@, position), lease);
            }
            rows.push(
                LeasedCheckpoint {
                    workflow_id: id,
                    position_checksum: position,
                    lease_timeout: lease.lease_timeout,
                    created_at: lease.created_at,
                },
            );
            assert(lease_keys(rows@) =~= keys.push((id@, position)));
            assert(lease_values(rows@) =~= values.push(lease));
        },
    }
}

/// Reads and deletes the lease row of a step in one step.
pub fn take_lease(rows: &mut Vec<LeasedCheckpoint>, id: &String, position: i64) -> (lease: Option<
    LeasedCheckpointValue,
>)
    requires
        distinct(lease_keys(old(rows)@)),
    ensures
        distinct(lease_keys(final(rows)@)),
        lease == entry(lease_table(old(rows)@), (id@, position)),
        lease_table(final(rows)@) == lease_table(old(rows)@).remove((id@, position)),
{
    let ghost keys = lease_keys(rows@);
    let ghost values = lease_values(rows@);
    match find_lease(rows, id, position) {
        Some(i) => {
            proof {
                lemma_as_map_at(keys, values, i as int);
                lemma_as_map_remove(keys, values, i as int);
            }
            let row = rows.remove(i);
            assert(lease_keys(rows@) =~= keys.remove(i as int));
            assert(lease_values(rows@) =~= values.remove(i as int));
            Some(LeasedCheckpointValue { lease_timeout: row.lease_timeout, created_at: row.created_at })
        },
        None => {
            proof {
                lemma_as_map_absent(keys, values, (id@, position));
                assert(lease_table(rows@) =~= lease_table(rows@).remove((id@, position)));
            }
            None
        },
    }
}

// ---- checkpoints ----

/// Reads the committed result of a step.
pub fn read_checkpoint(rows: &Vec<Checkpoint>, id: &String, position: i64) -> (checkpoint: Option<
    CheckpointValue,
>)
    requires
        distinct(checkpoint_keys(rows@)),
    ensures
        optional_view(checkpoint) == match entry(checkpoint_table(rows@), (id@, position)) {
            Some(record) => Some(record.at(position)),
            None => None,
        },
{
    match find_checkpoint(rows, id, position) {
        Some(i) => {
            proof {
                lemma_as_map_at(checkpoint_keys(rows@), checkpoint_values(rows@), i as int);
            }
            Some(
                CheckpointValue {
                    position_checksum: rows[i].position_checksum,
                    idempotency_checksum: rows[i].idempotency_checksum,
                    value: rows[i].value.clone(),
                },
            )
        },
        None => {
            proof {
                lemma_as_map_absent(
                    checkpoint_keys(rows@),
                    checkpoint_values(rows@),
                    (id@, position),
                );
            }
            None
        },
    }
}

/// Reads the whole row of a committed step.
pub fn read_checkpoint_row(rows: &Vec<Checkpoint>, id: &String, position: i64) -> (checkpoint:
    Option<Checkpoint>)
    requires
        distinct(checkpoint_keys(rows@)),
    ensures
        optional_row_view(checkpoint) == match entry(checkpoint_table(rows@), (id@, position)) {
            Some(record) => Some(
                CheckpointView { workflow_id: id@, position_checksum: position, record },
            ),
            None => None,
        },
{
    match find_checkpoint(rows, id, position) {
        Some(i) => {
            proof {
                lemma_as_map_at(checkpoint_keys(rows@), checkpoint_values(rows@), i as int);
            }
            Some(
                Checkpoint {
                    workflow_id: rows[i].workflow_id.clone(),
                    position_checksum: rows[i].position_checksum,
                    idempotency_checksum: rows[i].idempotency_checksum,
                    value: rows[i].value.clone(),
                    created_at: rows[i].created_at,
                },
            )
        },
        None => {
            proof {
                lemma_as_map_absent(
                    checkpoint_keys(rows@),
                    checkpoint_values(rows@),
                    (id@, position),
                );
            }
            None
        },
    }
}

/// Reads the idempotency checksum under which a step was committed.
pub fn read_idempotency_checksum(rows: &Vec<Checkpoint>, id: &String, position: i64) -> (recorded:
    Option<i64>)
    requires
        distinct(checkpoint_keys(rows@)),
    ensures
        recorded == match entry(checkpoint_table(rows@), (id@, position)) {
            Some(record) => Some(record.idempotency_checksum),
            None => None,
        },
{
    match find_checkpoint(rows, id, position) {
        Some(i) => {
            proof {
                lemma_as_map_at(checkpoint_keys(rows@), checkpoint_values(rows@), i as int);
            }
            Some(rows[i].idempotency_checksum)
        },
        None => {
            proof {
                lemma_as_map_absent(
                    checkpoint_keys(rows@),
                    checkpoint_values(rows@),
                    (id@, position),
                );
            }
            None
        },
    }
}

/// Writes the result of a step that has none yet.
pub fn insert_checkpoint(
    rows: &mut Vec<Checkpoint>,
    id: String,
    position: i64,
    idempotency_checksum: i64,
    value: Vec<u8>,
    now: i64,
)
    requires
        distinct(checkpoint_keys(old(rows)@)),
        !checkpoint_table(old(rows)@).contains_key((id@, position)),
    ensures
        distinct(checkpoint_keys(final(rows)@)),
        checkpoint_table(final(rows)@) == checkpoint_table(old(rows)@).insert(
            (id@, position),
            CheckpointRecord { idempotency_checksum, value: value@, created_at: now },
        ),
{
    let ghost keys = checkpoint_keys(rows@);
    let ghost values = checkpoint_values(rows@);
    let ghost record = CheckpointRecord { idempotency_checksum, value: value@, created_at: now };
    proof {
        lemma_as_map_push(keys, values, (id@, position), record);
    }
    rows.push(
        Checkpoint {
            workflow_id: id,
            position_checksum: position,
            idempotency_checksum,
            value,
            created_at: now,
        },
    );
    assert(checkpoint_keys(rows@) =~= keys.push((id@, position)));
    assert(checkpoint_values(rows@) =~= values.push(record));
}

/// Whether the row at `j` is a step of the workflow `id` that `item` reports.
pub open spec fn listed_from(rows: Seq<Checkpoint>, j: int, id: Seq<char>, item: CheckpointValue) -> bool {
    &&& rows[j].workflow_id@ == id
    &&& rows[j].position_checksum == item.position_checksum
    &&& rows[j].idempotency_checksum == item.idempotency_checksum
    &&& rows[j].value@ == item.value@
}

/// Whether `item` reports a step of the workflow `id` from the first `upto`
/// rows.
pub open spec fn is_listed(rows: Seq<Checkpoint>, upto: int, id: Seq<char>, item: CheckpointValue) -> bool {
    exists|j: int| 0 <= j < upto && #[trigger] listed_from(rows, j, id, item)
}

/// Lists the committed steps of a workflow by ascending position.
pub fn list_checkpoints(rows: &Vec<Checkpoint>, id: &String) -> (listing: Vec<CheckpointValue>)
    requires
        distinct(checkpoint_keys(rows@)),
    ensures
        is_listing(checkpoint_table(rows@), id@, views(listing@)),
{
    let ghost keys = checkpoint_keys(rows@);
    let ghost values = checkpoint_values(rows@);
    let mut listing: Vec<CheckpointValue> = Vec::new();
    let mut i: usize = 0;
    while i < rows.len()
        invariant
            i <= rows.len(),
            distinct(keys),
            keys == checkpoint_keys(rows@),
            forall|a: int, b: int|
                0 <= a < b < listing@.len() ==> listing@[a].position_checksum
                    < listing@[b].position_checksum,
            forall|a: int|
                0 <= a < listing@.len() ==> #[trigger] is_listed(rows@, i as int, id@, listing@[a]),
            forall|j: int|
                0 <= j < i && (#[trigger] rows@[j]).workflow_id@ == id@ ==> exists|a: int|
                    0 <= a < listing@.len() && (#[trigger] listing@[a]).position_checksum
                        == rows@[j].position_checksum,
        decreases rows.len() - i,
    {
        if rows[i].workflow_id == *id {
            let position: i64 = rows[i].position_checksum;
            let mut at: usize = 0;
            while at < listing.len() && listing[at].position_checksum < position
                invariant
                    at <= listing@.len(),
                    forall|a: int| 0 <= a < at ==> listing@[a].position_checksum < position,
                decreases listing@.len() - at,
            {
                at += 1;
            }
            let item = CheckpointValue {
                position_checksum: position,
                idempotency_checksum: rows[i].idempotency_checksum,
                value: rows[i].value.clone(),
            };
            let ghost before = listing@;
            proof {
                if at < before.len() {
                    assert(is_listed(rows@, i as int, id@, before[at as int]));
                    let j = choose|j: int|
                        0 <= j < i && #[trigger] listed_from(rows@, j, id@, before[at as int]);
                    assert(keys[j] != keys[i as int]);
                    assert(before[at as int].position_checksum != position);
                }
            }
            listing.insert(at, item);
            proof {
                assert(listed_from(rows@, i as int, id@, item));
                assert forall|a: int| 0 <= a < listing@.len() implies #[trigger] is_listed(
                    rows@,
                    i + 1,
                    id@,
                    listing@[a],
                ) by {
                    if a < at {
                        assert(listing@[a] == before[a]);
                        assert(is_listed(rows@, i as int, id@, before[a]));
                        let j = choose|j: int|
                            0 <= j < i && #[trigger] listed_from(rows@, j, id@, before[a]);
                        assert(listed_from(rows@, j, id@, listing@[a]));
                    } else if a == at {
                        assert(listed_from(rows@, i as int, id@, listing@[a]));
                    } else {
                        assert(listing@[a] == before[a - 1]);
                        assert(is_listed(rows@, i as int, id@, before[a - 1]));
                        let j = choose|j: int|
                            0 <= j < i && #[trigger] listed_from(rows@, j, id@, before[a - 1]);
                        assert(listed_from(rows@, j, id@, listing@[a]));
                    }
                }
                assert forall|j: int|
                    0 <= j < i + 1 && (#[trigger] rows@[j]).workflow_id@ == id@ implies exists|
                    a: int,
                |
                    0 <= a < listing@.len() && (#[trigger] listing@[a]).position_checksum
                        == rows@[j].position_checksum by {
                    if j < i {
                        let a0 = choose|a: int|
                            0 <= a < before.len() && (#[trigger] before[a]).position_checksum
                                == rows@[j].position_checksum;
                        let a1 = if a0 < at { a0 } else { a0 + 1 };
                        assert(listing@[a1] == before[a0]);
                    } else {
                        assert(listing@[at as int].position_checksum == rows@[j].position_checksum);
                    }
                }
                assert forall|a: int, b: int| 0 <= a < b < listing@.len() implies listing@[a].position_checksum
                    < listing@[b].position_checksum by {
                    let a0 = if a < at { a } else { a - 1 };
                    let b0 = if b < at { b } else { b - 1 };
                    if a != at {
                        assert(listing@[a] == before[a0]);
                    }
                    if b != at {
                        assert(listing@[b] == before[b0]);
                    }
                }
            }
        } else {
            proof {
                assert forall|a: int| 0 <= a < listing@.len() implies #[trigger] is_listed(
                    rows@,
                    i + 1,
                    id@,
                    listing@[a],
                ) by {
                    assert(is_listed(rows@, i as int, id@, listing@[a]));
                    let j = choose|j: int|
                        0 <= j < i && #[trigger] listed_from(rows@, j, id@, listing@[a]);
                    assert(listed_from(rows@, j, id@, listing@[a]));
                }
            }
        }
        i += 1;
    }
    proof {
        let table = checkpoint_table(rows@);
        let listed = views(listing@);
        assert forall|a: int| 0 <= a < listed.len() implies {
            &&& table.contains_key((id@, #[trigger] listed[a].position_checksum))
            &&& listed[a].idempotency_checksum == table[(
                id@,
                listed[a].position_checksum,
            )].idempotency_checksum
            &&& listed[a].value == table[(id@, listed[a].position_checksum)].value
        } by {
            assert(is_listed(rows@, rows@.len() as int, id@, listing@[a]));
            let j = choose|j: int|
                0 <= j < rows@.len() && #[trigger] listed_from(rows@, j, id@, listing@[a]);
            lemma_as_map_at(keys, values, j);
        }
        assert forall|position: i64| #[trigger]
            table.contains_key((id@, position)) implies exists|a: int|
            0 <= a < listed.len() && #[trigger] listed[a].position_checksum == position by {
            let j = choose|j: int| 0 <= j < keys.len() && keys[j] == (id@, position);
            assert(rows@[j].workflow_id@ == id@);
            let a = choose|a: int|
                0 <= a < listing@.len() && (#[trigger] listing@[a]).position_checksum
                    == rows@[j].position_checksum;
            assert(listed[a].position_checksum == position);
        }
    }
    listing
}

// ---- retiring ----

/// Decides whether a cleanup at `now` retires the workflow `id`.
pub fn is_retired(workflows: &Vec<Workflow>, id: &String, now: i64) -> (retired: bool)
    requires
        distinct(workflow_keys(workflows@)),
    ensures
        retired == !survives(workflow_table(workflows@), now)(id@),
{
    match find_workflow(workflows, id) {
        Some(i) => {
            proof {
                lemma_as_map_at(workflow_keys(workflows@), workflow_values(workflows@), i as int);
            }
            workflow_is_expired(&workflows[i], now)
        },
        None => {
            proof {
                lemma_as_map_absent(workflow_keys(workflows@), workflow_values(workflows@), id@);
            }
            false
        },
    }
}

/// Drops the workflows that a cleanup at `now` retires.
pub fn retain_workflows(rows: Vec<Workflow>, now: i64) -> (kept: Vec<Workflow>)
    requires
        distinct(workflow_keys(rows@)),
    ensures
        distinct(workflow_keys(kept@)),
        workflow_table(kept@) == restricted(
            workflow_table(rows@),
            survives(workflow_table(rows@), now),
        ),
{
    let ghost all = rows@;
    let ghost keys = workflow_keys(all);
    let ghost values = workflow_values(all);
    let ghost keep = survives(workflow_table(all), now);
    let mut rows = rows;
    let mut kept: Vec<Workflow> = Vec::new();
    proof {
        lemma_filter_start(keys, values, keep);
        assert(workflow_keys(kept@) =~= Seq::<Seq<char>>::empty());
        assert(workflow_values(kept@) =~= Seq::<WorkflowRecord>::empty());
    }
    while rows.len() > 0
        invariant
            distinct(keys),
            keys == workflow_keys(all),
            values == workflow_values(all),
            keep == survives(workflow_table(all), now),
            rows@.len() <= all.len(),
            rows@ == all.subrange(0, rows@.len() as int),
            filtered_from(
                keys,
                values,
                keep,
                rows@.len() as int,
                workflow_keys(kept@),
                workflow_values(kept@),
            ),
        decreases rows.len(),
    {
        let ghost from = rows@.len() as int;
        let ghost kept_keys = workflow_keys(kept@);
        let ghost kept_values = workflow_values(kept@);
        let row = rows.pop().unwrap();
        proof {
            assert(row == all[from - 1]);
            assert(rows@ =~= all.subrange(0, from - 1));
            lemma_as_map_at(keys, values, from - 1);
        }
        if workflow_is_expired(&row, now) {
            proof {
                lemma_filter_skip(keys, values, keep, from, kept_keys, kept_values);
            }
        } else {
            proof {
                lemma_filter_keep(keys, values, keep, from, kept_keys, kept_values);
            }
            kept.push(row);
            assert(workflow_keys(kept@) =~= kept_keys.push(keys[from - 1]));
            assert(workflow_values(kept@) =~= kept_values.push(values[from - 1]));
        }
    }
    proof {
        lemma_filter_done(keys, values, keep, workflow_keys(kept@), workflow_values(kept@));
    }
    kept
}

/// Drops the epochs of the workflows that a cleanup at `now` retires.
pub fn retain_tokens(rows: Vec<WorkflowFencingToken>, workflows: &Vec<Workflow>, now: i64) -> (kept:
    Vec<WorkflowFencingToken>)
    requires
        distinct(token_keys(rows@)),
        distinct(workflow_keys(workflows@)),
    ensures
        distinct(token_keys(kept@)),
        token_table(kept@) == restricted(
            token_table(rows@),
            survives(workflow_table(workflows@), now),
        ),
{
    let ghost all = rows@;
    let ghost keys = token_keys(all);
    let ghost values = token_values(all);
    let ghost keep = survives(workflow_table(workflows@), now);
    let mut rows = rows;
    let mut kept: Vec<WorkflowFencingToken> = Vec::new();
    proof {
        lemma_filter_start(keys, values, keep);
        assert(token_keys(kept@) =~= Seq::<Seq<char>>::empty());
        assert(token_values(kept@) =~= Seq::<i64>::empty());
    }
    while rows.len() > 0
        invariant
            distinct(keys),
            distinct(workflow_keys(workflows@)),
            keys == token_keys(all),
            values == token_values(all),
            keep == survives(workflow_table(workflows@), now),
            rows@.len() <= all.len(),
            rows@ == all.subrange(0, rows@.len() as int),
            filtered_from(keys, values, keep, rows@.len() as int, token_keys(kept@), token_values(kept@)),
        decreases rows.len(),
    {
        let ghost from = rows@.len() as int;
        let ghost kept_keys = token_keys(kept@);
        let ghost kept_values = token_values(kept@);
        let row = rows.pop().unwrap();
        proof {
            assert(row == all[from - 1]);
            assert(rows@ =~= all.subrange(0, from - 1));
        }
        if is_retired(workflows, &row.workflow_id, now) {
            proof {
                lemma_filter_skip(keys, values, keep, from, kept_keys, kept_values);
            }
        } else {
            proof {
                lemma_filter_keep(keys, values, keep, from, kept_keys, kept_values);
            }
            kept.push(row);
            assert(token_keys(kept@) =~= kept_keys.push(keys[from - 1]));
            assert(token_values(kept@) =~= kept_values.push(values[from - 1]));
        }
    }
    proof {
        lemma_filter_done(keys, values, keep, token_keys(kept@), token_values(kept@));
    }
    kept
}

/// Drops the checkpoints of the workflows that a cleanup at `now` retires.
pub fn retain_checkpoints(rows: Vec<Checkpoint>, workflows: &Vec<Workflow>, now: i64) -> (kept: Vec<
    Checkpoint,
>)
    requires
        distinct(checkpoint_keys(rows@)),
        distinct(workflow_keys(workflows@)),
    ensures
        distinct(checkpoint_keys(kept@)),
        checkpoint_table(kept@) == restricted(
            checkpoint_table(rows@),
            step_survives(workflow_table(workflows@), now),
        ),
{
    let ghost all = rows@;
    let ghost keys = checkpoint_keys(all);
    let ghost values = checkpoint_values(all);
    let ghost keep = step_survives(workflow_table(workflows@), now);
    let mut rows = rows;
    let mut kept: Vec<Checkpoint> = Vec::new();
    proof {
        lemma_filter_start(keys, values, keep);
        assert(checkpoint_keys(kept@) =~= Seq::<(Seq<char>, i64)>::empty());
        assert(checkpoint_values(kept@) =~= Seq::<CheckpointRecord>::empty());
    }
    while rows.len() > 0
        invariant
            distinct(keys),
            distinct(workflow_keys(workflows@)),
            keys == checkpoint_keys(all),
            values == checkpoint_values(all),
            keep == step_survives(workflow_table(workflows@), now),
            rows@.len() <= all.len(),
            rows@ == all.subrange(0, rows@.len() as int),
            filtered_from(
                keys,
                values,
                keep,
                rows@.len() as int,
                checkpoint_keys(kept@),
                checkpoint_values(kept@),
            ),
        decreases rows.len(),
    {
        let ghost from = rows@.len() as int;
        let ghost kept_keys = checkpoint_keys(kept@);
        let ghost kept_values = checkpoint_values(kept@);
        let row = rows.pop().unwrap();
        proof {
            assert(row == all[from - 1]);
            assert(rows@ =~= all.subrange(0, from - 1));
        }
        if is_retired(workflows, &row.workflow_id, now) {
            proof {
                lemma_filter_skip(keys, values, keep, from, kept_keys, kept_values);
            }
        } else {
            proof {
                lemma_filter_keep(keys, values, keep, from, kept_keys, kept_values);
            }
            kept.push(row);
            assert(checkpoint_keys(kept@) =~= kept_keys.push(keys[from - 1]));
            assert(checkpoint_values(kept@) =~= kept_values.push(values[from - 1]));
        }
    }
    proof {
        lemma_filter_done(keys, values, keep, checkpoint_keys(kept@), checkpoint_values(kept@));
    }
    kept
}

/// Drops the leases of the workflows that a cleanup at `now` retires.
pub fn retain_leases(rows: Vec<LeasedCheckpoint>, workflows: &Vec<Workflow>, now: i64) -> (kept: Vec<
    LeasedCheckpoint,
>)
    requires
        distinct(lease_keys(rows@)),
        distinct(workflow_keys(workflows@)),
    ensures
        distinct(lease_keys(kept@)),
        lease_table(kept@) == restricted(
            lease_table(rows@),
            step_survives(workflow_table(workflows@), now),
        ),
{
    let ghost all = rows@;
    let ghost keys = lease_keys(all);
    let ghost values = lease_values(all);
    let ghost keep = step_survives(workflow_table(workflows@), now);
    let mut rows = rows;
    let mut kept: Vec<LeasedCheckpoint> = Vec::new();
    proof {
        lemma_filter_start(keys, values, keep);
        assert(lease_keys(kept@) =~= Seq::<(Seq<char>, i64)>::empty());
        assert(lease_values(kept@) =~= Seq::<LeasedCheckpointValue>::empty());
    }
    while rows.len() > 0
        invariant
            distinct(keys),
            distinct(workflow_keys(workflows@)),
            keys == lease_keys(all),
            values == lease_values(all),
            keep == step_survives(workflow_table(workflows@), now),
            rows@.len() <= all.len(),
            rows@ == all.subrange(0, rows@.len() as int),
            filtered_from(keys, values, keep, rows@.len() as int, lease_keys(kept@), lease_values(kept@)),
        decreases rows.len(),
    {
        let ghost from = rows@.len() as int;
        let ghost kept_keys = lease_keys(kept@);
        let ghost kept_values = lease_values(kept@);
        let row = rows.pop().unwrap();
        proof {
            assert(row == all[from - 1]);
            assert(rows@ =~= all.subrange(0, from - 1));
        }
        if is_retired(workflows, &row.workflow_id, now) {
            proof {
                lemma_filter_skip(keys, values, keep, from, kept_keys, kept_values);
            }
        } else {
            proof {
                lemma_filter_keep(keys, values, keep, from, kept_keys, kept_values);
            }
            kept.push(row);
            assert(lease_keys(kept@) =~= kept_keys.push(keys[from - 1]));
            assert(lease_values(kept@) =~= kept_values.push(values[from - 1]));
        }
    }
    proof {
        lemma_filter_done(keys, values, keep, lease_keys(kept@), lease_values(kept@));
    }
    kept
}

} // verus!
