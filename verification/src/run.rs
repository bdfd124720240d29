use vstd::prelude::*;

use crate::error::ExportError;
use crate::extract::{sorted_by_id, VisitRecord};
use crate::state::State;

verus! {

/// Where one profile stands within a run.
#[derive(Clone, Copy, PartialEq, Eq, Structural, Debug)]
pub enum Phase {
    /// Nothing has happened yet.
    Idle,
    /// The snapshot copy of the source database is in place.
    BackedUp,
    /// The new records have been extracted.
    Extracted,
    /// A non-empty batch has been written to the export file.
    Written,
    /// The advanced state has been persisted; terminal success.
    StateAdvanced,
    /// The run was aborted; terminal failure.
    Failed,
}

/// One profile's passage through a run:
/// `Idle -> BackedUp -> Extracted -> Written -> StateAdvanced`, or
/// `-> Failed` at any step. The durable state moves only at the final,
/// successful persist; any failure leaves it exactly as the run found it.
pub struct ProfileRun {
    pub phase: Phase,
    /// The cursor state as it stands on disk (after `StateAdvanced`: as it
    /// now stands there).
    pub state: State,
    /// Wall-clock time at the start of the run, milliseconds since epoch.
    pub now: u64,
    /// How many entries the extraction step yielded.
    pub batch_len: usize,
    /// What aborted the run, once `phase` is `Failed`.
    pub error: Option<ExportError>,
    /// The state the run began with.
    pub start: Ghost<State>,
}

impl ProfileRun {
    /// Invariant of every reachable run value.
    pub open spec fn wf(self) -> bool {
        &&& self.state.last_history_id
            >= self.start@.last_history_id
        // The durable state moves only at the terminal, successful persist.
        &&& (self.phase != Phase::StateAdvanced ==> self.state == self.start@)
        &&& (self.phase == Phase::StateAdvanced ==> self.state == if self.batch_len > 0 {
            self.start@.spec_advanced_written(self.batch_len as nat, self.now)
        } else {
            self.start@.spec_advanced_empty(self.now)
        })
        &&& (self.phase == Phase::Failed <==> self.error is Some)
        &&& (self.phase == Phase::Extracted || self.phase == Phase::Written || self.phase
            == Phase::StateAdvanced ==> self.start@.last_history_id + self.batch_len <= u64::MAX)
    }

    /// Begins a run over the state loaded for the profile, at wall-clock
    /// time `now`.
    pub fn begin(state: State, now: u64) -> (r: ProfileRun)
        ensures
            r.wf(),
            r.phase == Phase::Idle,
            r.state == state,
            r.start@ == state,
            r.now == now,
    {
        ProfileRun {
            phase: Phase::Idle,
            state,
            now,
            batch_len: 0,
            error: None,
            start: Ghost(state),
        }
    }

    /// The cursor that extraction must start from.
    pub fn cursor(&self) -> (r: u64)
        ensures
            r == self.state.last_history_id,
    {
        self.state.last_history_id
    }

    /// Records the outcome of the snapshot-backup step. A failure marks the
    /// profile `Failed` with `SourceUnavailable` and leaves the state alone.
    pub fn on_backup(&mut self, ok: bool)
        requires
            old(self).wf(),
            old(self).phase == Phase::Idle,
        ensures
            final(self).wf(),
            final(self).state == old(self).state,
            final(self).start == old(self).start,
            final(self).now == old(self).now,
            ok ==> final(self).phase == Phase::BackedUp && final(self).error is None,
            !ok ==> final(self).phase == Phase::Failed && final(self).error == Some(
                ExportError::SourceUnavailable,
            ),
    {
        if ok {
            self.phase = Phase::BackedUp;
        } else {
            self.phase = Phase::Failed;
            self.error = Some(ExportError::SourceUnavailable);
        }
    }

    /// Records that the extraction step failed: the snapshot could not be
    /// queried. The state is left alone.
    pub fn on_extract_failed(&mut self)
        requires
            old(self).wf(),
            old(self).phase == Phase::BackedUp,
        ensures
            final(self).wf(),
            final(self).state == old(self).state,
            final(self).start == old(self).start,
            final(self).now == old(self).now,
            final(self).phase == Phase::Failed,
            final(self).error == Some(ExportError::DatabaseQueryError),
    {
        self.phase = Phase::Failed;
        self.error = Some(ExportError::DatabaseQueryError);
    }

    /// Records that extraction yielded `k` entries. The state is untouched;
    /// only a later successful write may move it.
    pub fn on_extracted(&mut self, k: usize)
        requires
            old(self).wf(),
            old(self).phase == Phase::BackedUp,
            old(self).state.last_history_id + k <= u64::MAX,
        ensures
            final(self).wf(),
            final(self).state == old(self).state,
            final(self).start == old(self).start,
            final(self).now == old(self).now,
            final(self).phase == Phase::Extracted,
            final(self).batch_len == k,
            final(self).error is None,
    {
        self.phase = Phase::Extracted;
        self.batch_len = k;
    }

    /// Whether an export file is owed: only a non-empty batch produces one.
    pub fn needs_export(&self) -> (r: bool)
        requires
            self.phase == Phase::Extracted,
        ensures
            r == (self.batch_len > 0),
    {
        self.batch_len > 0
    }

    /// Records the outcome of writing the export file for a non-empty batch.
    /// On failure the cursor state is exactly what the run began with, so the
    /// next run re-extracts the same records.
    pub fn on_written(&mut self, ok: bool)
        requires
            old(self).wf(),
            old(self).phase == Phase::Extracted,
            old(self).batch_len > 0,
        ensures
            final(self).wf(),
            final(self).state == old(self).state,
            final(self).start == old(self).start,
            final(self).now == old(self).now,
            final(self).batch_len == old(self).batch_len,
            ok ==> final(self).phase == Phase::Written && final(self).error is None,
            !ok ==> final(self).phase == Phase::Failed && final(self).error == Some(
                ExportError::WriteError,
            ),
    {
        if ok {
            self.phase = Phase::Written;
        } else {
            self.phase = Phase::Failed;
            self.error = Some(ExportError::WriteError);
        }
    }

    /// The state that must now be persisted: advanced by the batch that was
    /// written, or, for an empty batch, moved only in `last_run`.
    pub fn pending_state(&self) -> (r: State)
        requires
            self.wf(),
            self.phase == Phase::Written || (self.phase == Phase::Extracted && self.batch_len
                == 0),
        ensures
            self.batch_len > 0 ==> r == self.state.spec_advanced_written(
                self.batch_len as nat,
                self.now,
            ),
            self.batch_len == 0 ==> r == self.state.spec_advanced_empty(self.now),
    {
        if self.batch_len > 0 {
            self.state.advanced_written(self.batch_len, self.now)
        } else {
            self.state.advanced_empty(self.now)
        }
    }

    /// Records the outcome of persisting `pending_state()`. Success is the
    /// terminal `StateAdvanced`: the cursor has moved by exactly the batch
    /// length, and `last_sync` only for a non-empty batch. Failure leaves the
    /// durable state exactly what the run began with.
    pub fn on_state_saved(&mut self, ok: bool)
        requires
            old(self).wf(),
            old(self).phase == Phase::Written || (old(self).phase == Phase::Extracted && old(
                self,
            ).batch_len == 0),
        ensures
            final(self).wf(),
            final(self).start == old(self).start,
            final(self).now == old(self).now,
            final(self).batch_len == old(self).batch_len,
            !ok ==> final(self).phase == Phase::Failed && final(self).state == old(self).state
                && final(self).error == Some(ExportError::WriteError),
            ok ==> final(self).phase == Phase::StateAdvanced && final(self).error is None,
            ok && old(self).batch_len > 0 ==> final(self).state == old(
                self,
            ).state.spec_advanced_written(old(self).batch_len as nat, old(self).now),
            ok && old(self).batch_len == 0 ==> final(self).state == old(
                self,
            ).state.spec_advanced_empty(old(self).now),
    {
        if ok {
            let next = self.pending_state();
            self.state = next;
            self.phase = Phase::StateAdvanced;
        } else {
            self.phase = Phase::Failed;
            self.error = Some(ExportError::WriteError);
        }
    }
}

/// Cursor monotonicity: in every reachable run value, and so after every
/// run, the cursor is at least what the run began with.
pub proof fn lemma_cursor_monotonic(r: ProfileRun)
    requires
        r.wf(),
    ensures
        r.state.last_history_id >= r.start@.last_history_id,
{
}

/// Write-failure rollback: a failed run leaves every field of the state,
/// in particular `last_history_id` and `last_sync`, exactly as it began.
pub proof fn lemma_failure_rollback(r: ProfileRun)
    requires
        r.wf(),
        r.phase == Phase::Failed,
    ensures
        r.state == r.start@,
        r.state.last_history_id == r.start@.last_history_id,
        r.state.last_sync == r.start@.last_sync,
{
}

/// Exactly-once advancement: a terminal successful run over a non-empty
/// batch has moved the cursor by exactly the batch length, and nothing else
/// has ever moved it.
pub proof fn lemma_exactly_once(r: ProfileRun)
    requires
        r.wf(),
        r.phase == Phase::StateAdvanced,
        r.batch_len > 0,
    ensures
        r.state.last_history_id == r.start@.last_history_id + r.batch_len,
        r.state.last_sync == r.now,
{
}

/// Empty-batch idempotence: any number of runs that extract nothing move
/// only `last_run`; two in a row never touch `last_sync` or the cursor.
pub proof fn lemma_empty_batch_idempotent(s: State, now1: u64, now2: u64)
    ensures
        s.spec_advanced_empty(now1).spec_advanced_empty(now2) == (State {
            last_run: now2,
            ..s
        }),
        s.spec_advanced_empty(now1).spec_advanced_empty(now2).last_sync == s.last_sync,
        s.spec_advanced_empty(now1).spec_advanced_empty(now2).last_history_id
            == s.last_history_id,
{
}

/// The cursor boundary of an ascending batch: `k` distinct identifiers, all
/// above the old cursor and sorted ascending, end at or above the advanced
/// cursor; when they are exactly the next `k` identifiers, the last record
/// consumed is exactly the new cursor.
pub proof fn lemma_cursor_boundary(vs: Seq<VisitRecord>, since: u64)
    requires
        vs.len() > 0,
        sorted_by_id(vs),
        forall|i: int| 0 <= i < vs.len() ==> #[trigger] vs[i].id > since,
        forall|p: int, q: int| 0 <= p < q < vs.len() ==> vs[p].id != vs[q].id,
    ensures
        vs.last().id >= since + vs.len(),
        (forall|i: int| 0 <= i < vs.len() ==> #[trigger] vs[i].id == since + 1 + i)
            ==> vs.last().id == since + vs.len(),
    decreases vs.len(),
{
    if vs.len() > 1 {
        let head = vs.drop_last();
        assert(forall|p: int, q: int|
            0 <= p < q < head.len() ==> #[trigger] head[p].id <= #[trigger] head[q].id);
        lemma_cursor_boundary(head, since);
        assert(head.last() == vs[vs.len() - 2]);
        assert(vs.last().id > vs[vs.len() - 2].id);
    }
}

} // verus!
