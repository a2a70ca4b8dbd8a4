//! Shared application state: the current snapshot and the refresh settings.

use crate::diff::{
    changes_exist, diff_snapshots, is_diff, lemma_has_changes_iff, snapshot_view, snapshot_wf,
    Snapshot,
};
use crate::process::{ProcessUpdateEvent, ProcessView};
use std::collections::HashMap;
use vstd::prelude::*;

verus! {

broadcast use vstd::std_specs::hash::group_hash_axioms;

/// Shortest refresh interval that is stored, in milliseconds.
pub const MIN_REFRESH_INTERVAL_MS: u64 = 200;

/// Longest refresh interval that is stored, in milliseconds.
pub const MAX_REFRESH_INTERVAL_MS: u64 = 10000;

/// Refresh interval of a fresh state, in milliseconds.
pub const DEFAULT_REFRESH_INTERVAL_MS: u64 = 1000;

/// `ms` brought into the accepted range of refresh intervals.
pub open spec fn clamp_interval(ms: u64) -> u64 {
    if ms < MIN_REFRESH_INTERVAL_MS {
        MIN_REFRESH_INTERVAL_MS
    } else if ms > MAX_REFRESH_INTERVAL_MS {
        MAX_REFRESH_INTERVAL_MS
    } else {
        ms
    }
}

/// State shared by the refresh loop and the request handlers; hosts keep it
/// behind one lock.
pub struct AppState {
    /// Latest process snapshot (pid to record).
    pub snapshot: Snapshot,
    /// Refresh interval in milliseconds.
    pub refresh_interval_ms: u64,
    /// Whether automatic refresh is paused.
    pub paused: bool,
    /// User name of the current session, resolved at startup.
    pub current_user: String,
}

impl AppState {
    /// Records are keyed by their pid and the interval lies in its range.
    pub open spec fn wf(&self) -> bool {
        &&& snapshot_wf(snapshot_view(self.snapshot))
        &&& MIN_REFRESH_INTERVAL_MS <= self.refresh_interval_ms <= MAX_REFRESH_INTERVAL_MS
    }

    /// Empty snapshot, default interval, not paused.
    pub fn new(current_user: String) -> (r: Self)
        ensures
            r.wf(),
            snapshot_view(r.snapshot) == Map::<u32, ProcessView>::empty(),
            r.refresh_interval_ms == DEFAULT_REFRESH_INTERVAL_MS,
            !r.paused,
            r.current_user == current_user,
    {
        let snapshot: Snapshot = HashMap::new();
        proof {
            assert(snapshot_view(snapshot) =~= Map::empty());
        }
        AppState { snapshot, refresh_interval_ms: DEFAULT_REFRESH_INTERVAL_MS, paused: false, current_user }
    }

    /// Installs a snapshot without computing a change set (the first
    /// collection, which has nothing to compare against).
    pub fn replace_snapshot(&mut self, snapshot: Snapshot)
        requires
            old(self).wf(),
            snapshot_wf(snapshot_view(snapshot)),
        ensures
            final(self).wf(),
            final(self).snapshot == snapshot,
            final(self).refresh_interval_ms == old(self).refresh_interval_ms,
            final(self).paused == old(self).paused,
            final(self).current_user == old(self).current_user,
    {
        self.snapshot = snapshot;
    }

    /// One refresh tick after a collection: computes the change set from the
    /// stored snapshot to `new_snapshot`, stores `new_snapshot`, and returns
    /// the change set when it is not empty.
    pub fn apply_tick(&mut self, new_snapshot: Snapshot, timestamp_ms: u64) -> (r: Option<ProcessUpdateEvent>)
        requires
            old(self).wf(),
            snapshot_wf(snapshot_view(new_snapshot)),
        ensures
            final(self).wf(),
            final(self).snapshot == new_snapshot,
            final(self).refresh_interval_ms == old(self).refresh_interval_ms,
            final(self).paused == old(self).paused,
            final(self).current_user == old(self).current_user,
            r is Some <==> changes_exist(snapshot_view(old(self).snapshot), snapshot_view(new_snapshot)),
            r matches Some(ev) ==> is_diff(snapshot_view(old(self).snapshot), snapshot_view(new_snapshot), ev@)
                && ev.timestamp_ms == timestamp_ms,
    {
        let event = diff_snapshots(&self.snapshot, &new_snapshot, timestamp_ms);
        self.snapshot = new_snapshot;
        proof {
            lemma_has_changes_iff(snapshot_view(old(self).snapshot), snapshot_view(new_snapshot), event@);
        }
        if event.added.len() > 0 || event.updated.len() > 0 || event.removed.len() > 0 {
            Some(event)
        } else {
            None
        }
    }
}

} // verus!
