//! The delete workflow: a state machine that sequences the removal of a
//! stream's schema versions, cached entries, and compaction records across
//! independently failing subsystems, short-circuiting on the first failure.
//!
//! The driver performs each returned action against the external subsystems
//! and feeds the outcome back as the next event. No completed step is rolled
//! back: every underlying operation is idempotent, so re-running the whole
//! workflow from the start is always safe.

use vstd::prelude::*;
use crate::types::{DeleteStage, StreamError};

verus! {

/// The workflow's states. `Start` precedes the version check; each following
/// state records the last completed step; `Done`, `NotFound` and `Failed` are
/// terminal. `NotFound` means there was nothing to delete, which is distinct
/// from a mid-sequence failure.
#[derive(Debug, Clone, PartialEq, Eq)]
pub enum DeleteState {
    Start,
    SchemaChecked,
    CompactionMarked,
    SchemaDeleted,
    CacheCleared,
    OffsetDeleted,
    Done,
    NotFound,
    Failed { stage: DeleteStage, cause: String },
}

/// What the driver must do next. All but `FetchVersions`, `Report` and `Stop`
/// mutate externally owned records.
#[derive(Debug, Clone, Copy, PartialEq, Eq, Structural)]
pub enum DeleteAction {
    FetchVersions,
    MarkCompactionPending,
    DeleteSchemaVersions,
    ClearCaches,
    DeleteCompactionOffset,
    Report,
    Stop,
}

/// The outcome the driver observed for the last action.
#[derive(Debug, Clone, PartialEq, Eq)]
pub enum DeleteEvent {
    VersionsFetched { any: bool },
    Succeeded,
    Failed { cause: String },
}

/// The action changes externally owned records.
pub open spec fn mutating(a: DeleteAction) -> bool {
    a is MarkCompactionPending || a is DeleteSchemaVersions || a is ClearCaches
        || a is DeleteCompactionOffset
}

/// The state accepts no further events.
pub open spec fn terminal(s: DeleteState) -> bool {
    s is Done || s is NotFound || s is Failed
}

/// The transition function. An event that does not answer the state's pending
/// action (a driver protocol error) leaves the state unchanged and stops.
pub open spec fn spec_delete_step(s: DeleteState, e: DeleteEvent) -> (DeleteState, DeleteAction) {
    match (s, e) {
        (DeleteState::Start, DeleteEvent::VersionsFetched { any }) => if any {
            (DeleteState::SchemaChecked, DeleteAction::MarkCompactionPending)
        } else {
            (DeleteState::NotFound, DeleteAction::Stop)
        },
        (DeleteState::SchemaChecked, DeleteEvent::Succeeded) => (
            DeleteState::CompactionMarked,
            DeleteAction::DeleteSchemaVersions,
        ),
        (DeleteState::SchemaChecked, DeleteEvent::Failed { cause }) => (
            DeleteState::Failed { stage: DeleteStage::CompactionMark, cause },
            DeleteAction::Stop,
        ),
        (DeleteState::CompactionMarked, DeleteEvent::Succeeded) => (
            DeleteState::SchemaDeleted,
            DeleteAction::ClearCaches,
        ),
        (DeleteState::CompactionMarked, DeleteEvent::Failed { cause }) => (
            DeleteState::Failed { stage: DeleteStage::SchemaDelete, cause },
            DeleteAction::Stop,
        ),
        (DeleteState::SchemaDeleted, DeleteEvent::Succeeded) => (
            DeleteState::CacheCleared,
            DeleteAction::DeleteCompactionOffset,
        ),
        (DeleteState::SchemaDeleted, DeleteEvent::Failed { cause }) => (
            DeleteState::Failed { stage: DeleteStage::CacheClear, cause },
            DeleteAction::Stop,
        ),
        (DeleteState::CacheCleared, DeleteEvent::Succeeded) => (
            DeleteState::OffsetDeleted,
            DeleteAction::Report,
        ),
        (DeleteState::CacheCleared, DeleteEvent::Failed { cause }) => (
            DeleteState::Failed { stage: DeleteStage::OffsetDelete, cause },
            DeleteAction::Stop,
        ),
        (DeleteState::OffsetDeleted, _) => (DeleteState::Done, DeleteAction::Stop),
        (s2, _) => (s2, DeleteAction::Stop),
    }
}

/// Where the workflow begins: nothing checked yet, and the driver is asked to
/// fetch the stream's schema versions.
pub fn delete_start() -> (r: (DeleteState, DeleteAction))
    ensures
        r == (DeleteState::Start, DeleteAction::FetchVersions),
{
    (DeleteState::Start, DeleteAction::FetchVersions)
}

/// Advances the delete workflow by one observed outcome, returning the next
/// state and the next action the driver must perform.
pub fn delete_stream(state: DeleteState, event: DeleteEvent) -> (r: (DeleteState, DeleteAction))
    ensures
        r == spec_delete_step(state, event),
{
    match (state, event) {
        (DeleteState::Start, DeleteEvent::VersionsFetched { any }) => if any {
            (DeleteState::SchemaChecked, DeleteAction::MarkCompactionPending)
        } else {
            (DeleteState::NotFound, DeleteAction::Stop)
        },
        (DeleteState::SchemaChecked, DeleteEvent::Succeeded) => (
            DeleteState::CompactionMarked,
            DeleteAction::DeleteSchemaVersions,
        ),
        (DeleteState::SchemaChecked, DeleteEvent::Failed { cause }) => (
            DeleteState::Failed { stage: DeleteStage::CompactionMark, cause },
            DeleteAction::Stop,
        ),
        (DeleteState::CompactionMarked, DeleteEvent::Succeeded) => (
            DeleteState::SchemaDeleted,
            DeleteAction::ClearCaches,
        ),
        (DeleteState::CompactionMarked, DeleteEvent::Failed { cause }) => (
            DeleteState::Failed { stage: DeleteStage::SchemaDelete, cause },
            DeleteAction::Stop,
        ),
        (DeleteState::SchemaDeleted, DeleteEvent::Succeeded) => (
            DeleteState::CacheCleared,
            DeleteAction::DeleteCompactionOffset,
        ),
        (DeleteState::SchemaDeleted, DeleteEvent::Failed { cause }) => (
            DeleteState::Failed { stage: DeleteStage::CacheClear, cause },
            DeleteAction::Stop,
        ),
        (DeleteState::CacheCleared, DeleteEvent::Succeeded) => (
            DeleteState::OffsetDeleted,
            DeleteAction::Report,
        ),
        (DeleteState::CacheCleared, DeleteEvent::Failed { cause }) => (
            DeleteState::Failed { stage: DeleteStage::OffsetDelete, cause },
            DeleteAction::Stop,
        ),
        (DeleteState::OffsetDeleted, _) => (DeleteState::Done, DeleteAction::Stop),
        (s2, _) => (s2, DeleteAction::Stop),
    }
}

/// The caller-facing outcome a state denotes: success once everything is gone,
/// `NotFound` when there was nothing to delete, the failed stage and its cause
/// on a mid-sequence failure, and nothing while the workflow is still running.
pub open spec fn spec_delete_outcome(s: DeleteState) -> Option<Result<(), StreamError>> {
    match s {
        DeleteState::OffsetDeleted => Some(Ok(())),
        DeleteState::Done => Some(Ok(())),
        DeleteState::NotFound => Some(Err(StreamError::NotFound)),
        DeleteState::Failed { stage, cause } => Some(
            Err(StreamError::SubsystemFailure { stage, cause }),
        ),
        _ => None,
    }
}

/// The caller-facing outcome of the workflow so far.
pub fn delete_outcome(state: &DeleteState) -> (r: Option<Result<(), StreamError>>)
    ensures
        r == spec_delete_outcome(*state),
{
    match state {
        DeleteState::OffsetDeleted => Some(Ok(())),
        DeleteState::Done => Some(Ok(())),
        DeleteState::NotFound => Some(Err(StreamError::NotFound)),
        DeleteState::Failed { stage, cause } => Some(
            Err(StreamError::SubsystemFailure { stage: *stage, cause: cause.clone() }),
        ),
        _ => None,
    }
}

/// The actions a run of the workflow issues, one per observed event.
pub open spec fn spec_run_actions(s: DeleteState, events: Seq<DeleteEvent>) -> Seq<DeleteAction>
    decreases events.len(),
{
    if events.len() == 0 {
        Seq::empty()
    } else {
        seq![spec_delete_step(s, events[0]).1] + spec_run_actions(
            spec_delete_step(s, events[0]).0,
            events.drop_first(),
        )
    }
}

/// The state a run of the workflow ends in.
pub open spec fn spec_run_state(s: DeleteState, events: Seq<DeleteEvent>) -> DeleteState
    decreases events.len(),
{
    if events.len() == 0 {
        s
    } else {
        spec_run_state(spec_delete_step(s, events[0]).0, events.drop_first())
    }
}

/// A run issues exactly one action per event.
pub proof fn lemma_run_actions_len(s: DeleteState, events: Seq<DeleteEvent>)
    ensures
        spec_run_actions(s, events).len() == events.len(),
    decreases events.len(),
{
    if events.len() > 0 {
        lemma_run_actions_len(spec_delete_step(s, events[0]).0, events.drop_first());
    }
}

/// A terminal state stays where it is and only ever answers `Stop`.
pub proof fn lemma_terminal_run(s: DeleteState, events: Seq<DeleteEvent>)
    requires
        terminal(s),
    ensures
        spec_run_state(s, events) == s,
        forall|k: int|
            0 <= k < events.len() ==> (#[trigger] spec_run_actions(s, events)[k])
                == DeleteAction::Stop,
    decreases events.len(),
{
    lemma_run_actions_len(s, events);
    if events.len() > 0 {
        assert(spec_delete_step(s, events[0]) == (s, DeleteAction::Stop));
        lemma_terminal_run(s, events.drop_first());
        lemma_run_actions_len(s, events.drop_first());
        let acts = spec_run_actions(s, events);
        let rest = spec_run_actions(s, events.drop_first());
        assert(acts == seq![DeleteAction::Stop] + rest);
        assert forall|k: int| 0 <= k < events.len() implies (#[trigger] spec_run_actions(
            s,
            events,
        )[k]) == DeleteAction::Stop by {
            if k == 0 {
                assert(acts[0] == DeleteAction::Stop);
            } else {
                assert(acts[k] == rest[k - 1]);
                assert(rest[k - 1] == DeleteAction::Stop);
            }
        }
    }
}

/// Deleting a stream with no existing schema versions ends in `NotFound` and
/// never issues an externally mutating action, whatever events follow.
pub proof fn lemma_delete_not_found_no_mutation(events: Seq<DeleteEvent>)
    requires
        events.len() > 0,
        events[0] == (DeleteEvent::VersionsFetched { any: false }),
    ensures
        spec_run_state(DeleteState::Start, events) == DeleteState::NotFound,
        forall|k: int|
            0 <= k < events.len() ==> !mutating(
                #[trigger] spec_run_actions(DeleteState::Start, events)[k],
            ),
{
    let rest = events.drop_first();
    assert(spec_delete_step(DeleteState::Start, events[0]) == (
        DeleteState::NotFound,
        DeleteAction::Stop,
    ));
    lemma_terminal_run(DeleteState::NotFound, rest);
    lemma_run_actions_len(DeleteState::Start, events);
    lemma_run_actions_len(DeleteState::NotFound, rest);
    let acts = spec_run_actions(DeleteState::Start, events);
    let rest_acts = spec_run_actions(DeleteState::NotFound, rest);
    assert(acts == seq![DeleteAction::Stop] + rest_acts);
    assert forall|k: int| 0 <= k < events.len() implies !mutating(
        #[trigger] spec_run_actions(DeleteState::Start, events)[k],
    ) by {
        if k == 0 {
            assert(acts[0] == DeleteAction::Stop);
        } else {
            assert(acts[k] == rest_acts[k - 1]);
            assert(rest_acts[k - 1] == DeleteAction::Stop);
        }
    }
}

/// A workflow whose compaction-mark step fails ends `Failed` at that stage, and
/// never issues an action against the schema store, the caches, or the
/// compaction offset: everything but the pending-deletion mark is untouched.
pub proof fn lemma_delete_failed_mark_untouched(events: Seq<DeleteEvent>)
    requires
        events.len() >= 2,
        events[0] == (DeleteEvent::VersionsFetched { any: true }),
        events[1] is Failed,
    ensures
        spec_run_state(DeleteState::Start, events) == (DeleteState::Failed {
            stage: DeleteStage::CompactionMark,
            cause: events[1]->Failed_cause,
        }),
        forall|k: int|
            0 <= k < events.len() ==> {
                let a = #[trigger] spec_run_actions(DeleteState::Start, events)[k];
                a != DeleteAction::DeleteSchemaVersions && a != DeleteAction::ClearCaches && a
                    != DeleteAction::DeleteCompactionOffset
            },
{
    let rest1 = events.drop_first();
    let rest2 = rest1.drop_first();
    assert(rest1[0] == events[1]);
    assert(spec_delete_step(DeleteState::Start, events[0]) == (
        DeleteState::SchemaChecked,
        DeleteAction::MarkCompactionPending,
    ));
    let cause = events[1]->Failed_cause;
    let failed = DeleteState::Failed { stage: DeleteStage::CompactionMark, cause };
    assert(spec_delete_step(DeleteState::SchemaChecked, events[1]) == (
        failed,
        DeleteAction::Stop,
    ));
    lemma_terminal_run(failed, rest2);
    lemma_run_actions_len(DeleteState::Start, events);
    lemma_run_actions_len(DeleteState::SchemaChecked, rest1);
    lemma_run_actions_len(failed, rest2);
    let acts = spec_run_actions(DeleteState::Start, events);
    let acts1 = spec_run_actions(DeleteState::SchemaChecked, rest1);
    let acts2 = spec_run_actions(failed, rest2);
    assert(acts == seq![DeleteAction::MarkCompactionPending] + acts1);
    assert(acts1 == seq![DeleteAction::Stop] + acts2);
    assert(spec_run_state(DeleteState::Start, events) == spec_run_state(
        DeleteState::SchemaChecked,
        rest1,
    ));
    assert(spec_run_state(DeleteState::SchemaChecked, rest1) == spec_run_state(failed, rest2));
    assert forall|k: int| 0 <= k < events.len() implies {
        let a = #[trigger] spec_run_actions(DeleteState::Start, events)[k];
        a != DeleteAction::DeleteSchemaVersions && a != DeleteAction::ClearCaches && a
            != DeleteAction::DeleteCompactionOffset
    } by {
        if k == 0 {
            assert(acts[0] == DeleteAction::MarkCompactionPending);
        } else if k == 1 {
            assert(acts[1] == acts1[0]);
            assert(acts1[0] == DeleteAction::Stop);
        } else {
            assert(acts[k] == acts1[k - 1]);
            assert(acts1[k - 1] == acts2[k - 2]);
            assert(acts2[k - 2] == DeleteAction::Stop);
        }
    }
}

} // verus!
