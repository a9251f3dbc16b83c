//! The retention sweeper's decisions.
//!
//! The sweeper is one long-lived background loop — sleeping, sweeping,
//! sleeping — on a fixed period. The loop itself (timers, directory listing,
//! deletion) is I/O and lives with the front end; what is decided per
//! directory entry, and whether the sweeper runs at all, is here.

use vstd::prelude::*;

verus! {

/// Whether the retention sweeper is started at all: a time-to-live of zero
/// days means files are kept forever and no sweeper ever runs.
pub fn sweeper_enabled(ttl_days: u32) -> (r: bool)
    ensures
        r == (ttl_days != 0),
{
    ttl_days != 0
}

/// What to do with one directory entry during a sweep pass.
#[derive(Clone, Copy, Debug, PartialEq, Eq, Structural)]
pub enum SweepAction {
    /// Delete the file: it is a regular file older than the time-to-live.
    Remove,
    /// Leave the entry alone (also the answer to any per-entry fault:
    /// unreadable metadata is reported and skipped, never fatal).
    Keep,
    /// Abandon the whole pass: the platform cannot report creation times,
    /// so ages cannot be judged this cycle.
    AbortPass,
}

/// The per-entry decision: given whether the entry's metadata could be read,
/// whether it is a regular file, its creation time (when the platform
/// reports one), the current time and the time-to-live in days.
pub open spec fn sweep_action_spec(
    meta_readable: bool,
    is_file: bool,
    created: Option<u64>,
    now: u64,
    ttl_days: u32,
) -> SweepAction {
    if ttl_days == 0 {
        SweepAction::Keep
    } else if !meta_readable {
        SweepAction::Keep
    } else if !is_file {
        SweepAction::Keep
    } else if created is None {
        SweepAction::AbortPass
    } else if created->0 as int + (ttl_days as int) * 86400 <= now as int {
        SweepAction::Remove
    } else {
        SweepAction::Keep
    }
}

/// Decide one directory entry of a sweep pass. Removal is ordered exactly
/// for a readable regular file whose age at `now` is at least `ttl_days`
/// days; a missing creation-time API abandons the pass; every other case —
/// retention disabled, unreadable metadata, not a regular file, young file —
/// keeps the entry.
pub fn sweep_action(
    meta_readable: bool,
    is_file: bool,
    created: Option<u64>,
    now: u64,
    ttl_days: u32,
) -> (r: SweepAction)
    ensures
        r == sweep_action_spec(meta_readable, is_file, created, now, ttl_days),
{
    if ttl_days == 0 {
        return SweepAction::Keep;
    }
    if !meta_readable {
        return SweepAction::Keep;
    }
    if !is_file {
        return SweepAction::Keep;
    }
    match created {
        None => SweepAction::AbortPass,
        Some(c) => {
            let ttl_secs: u64 = (ttl_days as u64) * 86400;
            if now >= c && now - c >= ttl_secs {
                SweepAction::Remove
            } else {
                SweepAction::Keep
            }
        },
    }
}

} // verus!
