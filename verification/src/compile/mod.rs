//! Incremental compilation: the watermark of what has been compiled for an
//! account and coin, and the step from newly arrived fills to derived rows.

pub mod incremental;

use crate::domain::primitives::Address;
use crate::domain::primitives::Coin;
use crate::domain::primitives::TimeMs;
use crate::engine::position_tracker::TrackerSnapshot;
use vstd::prelude::*;

pub use incremental::Compiler;

verus! {

/// How far compilation has come for one account and coin.
#[derive(Debug, PartialEq, Eq)]
pub struct CompileState {
    /// The account.
    pub user: Address,
    /// The coin.
    pub coin: Coin,
    /// Time of the last fill compiled.
    pub last_compiled_ms: Option<TimeMs>,
    /// Key of the last fill compiled: the watermark.
    pub last_fill_key: Option<String>,
    /// Counts the compilations recorded; it never decreases.
    pub compile_version: u64,
    /// Where the tracker stopped, so that the next run need not replay.
    pub tracker_snapshot: Option<TrackerSnapshot>,
}

impl CompileState {
    /// The state before anything was compiled.
    pub fn new(user: Address, coin: Coin) -> (r: CompileState)
        ensures
            r.user == user,
            r.coin == coin,
            r.last_compiled_ms is None,
            r.last_fill_key is None,
            r.compile_version == 0,
            r.tracker_snapshot is None,
    {
        CompileState {
            user,
            coin,
            last_compiled_ms: None,
            last_fill_key: None,
            compile_version: 0,
            tracker_snapshot: None,
        }
    }

    /// A state with the watermark given.
    pub fn with_watermark(
        user: Address,
        coin: Coin,
        last_compiled_ms: Option<TimeMs>,
        last_fill_key: Option<String>,
    ) -> (r: CompileState)
        ensures
            r.user == user,
            r.coin == coin,
            r.last_compiled_ms == last_compiled_ms,
            r.last_fill_key == last_fill_key,
            r.compile_version == 0,
            r.tracker_snapshot is None,
    {
        CompileState {
            user,
            coin,
            last_compiled_ms,
            last_fill_key,
            compile_version: 0,
            tracker_snapshot: None,
        }
    }

    /// True if nothing has been compiled yet.
    pub fn is_first_compilation(&self) -> (r: bool)
        ensures
            r == (self.last_fill_key is None),
    {
        self.last_fill_key.is_none()
    }

    /// Moves the watermark and counts the compilation. The version goes up by one
    /// and stays at its largest value once it is reached.
    pub fn update_watermark(&mut self, last_compiled_ms: TimeMs, last_fill_key: String)
        ensures
            final(self).last_compiled_ms == Some(last_compiled_ms),
            final(self).last_fill_key == Some(last_fill_key),
            final(self).user == old(self).user,
            final(self).coin == old(self).coin,
            final(self).tracker_snapshot == old(self).tracker_snapshot,
            final(self).compile_version == (if old(self).compile_version < u64::MAX {
                (old(self).compile_version + 1) as u64
            } else {
                u64::MAX
            }),
            final(self).compile_version >= old(self).compile_version,
    {
        self.last_compiled_ms = Some(last_compiled_ms);
        self.last_fill_key = Some(last_fill_key);
        if self.compile_version < u64::MAX {
            self.compile_version = self.compile_version + 1;
        }
    }

    /// Records where the tracker stopped.
    pub fn set_tracker_snapshot(&mut self, snapshot: TrackerSnapshot)
        ensures
            final(self).tracker_snapshot == Some(snapshot),
            final(self).user == old(self).user,
            final(self).coin == old(self).coin,
            final(self).last_compiled_ms == old(self).last_compiled_ms,
            final(self).last_fill_key == old(self).last_fill_key,
            final(self).compile_version == old(self).compile_version,
    {
        self.tracker_snapshot = Some(snapshot);
    }
}

impl Clone for CompileState {
    fn clone(&self) -> (r: CompileState)
        ensures
            r == *self,
    {
        CompileState {
            user: self.user.clone(),
            coin: self.coin.clone(),
            last_compiled_ms: self.last_compiled_ms,
            last_fill_key: match &self.last_fill_key {
                Some(k) => Some(k.clone()),
                None => None,
            },
            compile_version: self.compile_version,
            tracker_snapshot: match &self.tracker_snapshot {
                Some(s) => Some(s.clone()),
                None => None,
            },
        }
    }
}

} // verus!
