//! The filesystem watcher's debounce: coalescing bursts of change events
//! into a single rescan after a quiet period.
//!
//! The watch thread owns the clock and the event channel; it reports event
//! arrivals and poll times here as plain milliseconds, and this machine
//! decides when a rescan fires.

use vstd::prelude::*;

verus! {

/// The quiet period after the last event before a rescan may fire, in
/// milliseconds.
pub const DEBOUNCE_MS: u64 = 2000;

/// How far past the quiet period a rescan is still considered due: events
/// older than this have already fired one.
pub const DEBOUNCE_WINDOW_MS: u64 = 600;

/// Debounce state: the time of the last filesystem event.
#[derive(Debug, Clone, Copy, PartialEq, Eq, Structural)]
pub struct ScanDebounce {
    pub last_event_ms: u64,
}

impl ScanDebounce {
    /// Fresh state at time `now_ms`, treating startup as an event.
    pub fn start(now_ms: u64) -> (r: ScanDebounce)
        ensures
            r.last_event_ms == now_ms,
    {
        ScanDebounce { last_event_ms: now_ms }
    }

    /// A filesystem event arrived: the quiet period restarts.
    pub fn note_event(&mut self, now_ms: u64)
        ensures
            final(self).last_event_ms == now_ms,
    {
        self.last_event_ms = now_ms;
    }

    /// Milliseconds since the last event, saturating at zero for a clock
    /// that reports an earlier time.
    pub open spec fn spec_elapsed(self, now_ms: u64) -> u64 {
        if now_ms >= self.last_event_ms {
            (now_ms - self.last_event_ms) as u64
        } else {
            0
        }
    }

    /// The poll timer fired. `had_pending` says whether more events were
    /// drained from the channel meanwhile; `scanning` whether a rescan is
    /// already running. Returns whether a rescan fires now.
    ///
    /// A rescan fires only after the full quiet period, only while no scan
    /// runs, only when the channel stayed quiet, and only while the last
    /// event is still recent enough not to have fired one already; drained
    /// events restart the quiet period instead.
    pub fn on_poll(&mut self, now_ms: u64, had_pending: bool, scanning: bool) -> (fire: bool)
        ensures
            fire == spec_poll_fires(*old(self), now_ms, had_pending, scanning),
            ({
                let elapsed = old(self).spec_elapsed(now_ms);
                if elapsed >= DEBOUNCE_MS && !scanning && had_pending {
                    final(self).last_event_ms == now_ms
                } else {
                    *final(self) == *old(self)
                }
            }),
    {
        let elapsed = if now_ms >= self.last_event_ms {
            now_ms - self.last_event_ms
        } else {
            0
        };
        if elapsed >= DEBOUNCE_MS && !scanning {
            if had_pending {
                self.last_event_ms = now_ms;
                false
            } else {
                elapsed < DEBOUNCE_MS + DEBOUNCE_WINDOW_MS
            }
        } else {
            false
        }
    }
}

/// Within the quiet period nothing ever fires, whatever the channel or the
/// scanner are doing.
pub proof fn lemma_quiet_period_holds(d: ScanDebounce, now_ms: u64)
    requires
        d.spec_elapsed(now_ms) < DEBOUNCE_MS,
    ensures
        forall|had_pending: bool, scanning: bool|
            !spec_poll_fires(d, now_ms, had_pending, scanning),
{
}

/// Whether `on_poll` fires a rescan from state `d` at time `now_ms`.
pub open spec fn spec_poll_fires(
    d: ScanDebounce,
    now_ms: u64,
    had_pending: bool,
    scanning: bool,
) -> bool {
    let elapsed = d.spec_elapsed(now_ms);
    &&& elapsed >= DEBOUNCE_MS
    &&& !scanning
    &&& !had_pending
    &&& elapsed < DEBOUNCE_MS + DEBOUNCE_WINDOW_MS
}

} // verus!
