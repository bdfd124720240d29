use vstd::prelude::*;

verus! {

/// Durable per-profile cursor record.
///
/// `last_history_id` is the highest visit identifier already exported; it is
/// monotonically non-decreasing across runs and advances only after a
/// successful write of the corresponding batch.
#[derive(Clone, Copy, PartialEq, Eq, Structural, Debug)]
pub struct State {
    /// Timestamp of the most recent invocation, milliseconds since epoch.
    pub last_run: u64,
    /// Timestamp of the most recent non-empty export, milliseconds since epoch.
    pub last_sync: u64,
    /// Highest visit identifier already exported.
    pub last_history_id: u64,
}

impl State {
    /// The state after a run that extracted nothing.
    pub open spec fn spec_advanced_empty(self, now: u64) -> State {
        State { last_run: now, ..self }
    }

    /// The state after a run whose batch of `k` entries was written.
    pub open spec fn spec_advanced_written(self, k: nat, now: u64) -> State
        recommends
            self.last_history_id + k <= u64::MAX,
    {
        State {
            last_run: now,
            last_sync: now,
            last_history_id: (self.last_history_id + k) as u64,
        }
    }

    /// Defaults used when no state file exists yet.
    pub fn initial() -> (s: State)
        ensures
            s == (State { last_run: 0, last_sync: 0, last_history_id: 0 }),
    {
        State { last_run: 0, last_sync: 0, last_history_id: 0 }
    }

    /// State after a run that extracted nothing: only `last_run` moves.
    pub fn advanced_empty(self, now: u64) -> (s: State)
        ensures
            s == self.spec_advanced_empty(now),
            s.last_run == now,
            s.last_sync == self.last_sync,
            s.last_history_id == self.last_history_id,
    {
        State { last_run: now, ..self }
    }

    /// State after a run whose batch of `k` entries was written: the cursor
    /// advances by exactly `k`, and both timestamps move to `now`.
    pub fn advanced_written(self, k: usize, now: u64) -> (s: State)
        requires
            self.last_history_id + k <= u64::MAX,
        ensures
            s == self.spec_advanced_written(k as nat, now),
            s.last_run == now,
            s.last_sync == now,
            s.last_history_id == self.last_history_id + k,
    {
        State {
            last_run: now,
            last_sync: now,
            last_history_id: self.last_history_id + (k as u64),
        }
    }
}

} // verus!
