//! The press classifier: per-control state that turns a pointer-down/up pair
//! into a signed delta. A release before the threshold emits magnitude 1, a
//! release at or past it emits magnitude 5; a pointer-leave or pointer-cancel
//! discards the pending press and emits nothing. Exactly one delta fires per
//! down/up pair.

use vstd::prelude::*;

verus! {

/// A press held at least this many milliseconds is a long press.
pub const LONG_PRESS_THRESHOLD_MS: u64 = 520;

/// Per-control press state: the timestamp of the pointer-down while the
/// pointer is held on the control, absent otherwise. Each control owns its
/// own session; there is no shared global timer.
pub struct PressSession {
    pub start: Option<u64>,
}

/// Milliseconds between down and up; a clock that stepped backwards counts
/// as no elapsed time.
pub open spec fn spec_elapsed(start: int, now: int) -> int {
    if now >= start {
        now - start
    } else {
        0
    }
}

/// The magnitude a press of the given duration emits: 5 at or past the
/// threshold, 1 below it.
pub open spec fn spec_magnitude(elapsed: int) -> int {
    if elapsed >= LONG_PRESS_THRESHOLD_MS {
        5
    } else {
        1
    }
}

/// The signed delta a release emits: the magnitude, negated on a minus
/// control.
pub open spec fn spec_emitted(start: int, now: int, positive: bool) -> int {
    if positive {
        spec_magnitude(spec_elapsed(start, now))
    } else {
        -spec_magnitude(spec_elapsed(start, now))
    }
}

impl PressSession {
    /// A control starts idle.
    pub fn new() -> (r: Self)
        ensures
            r.start is None,
    {
        PressSession { start: None }
    }

    /// Pointer-down: the session records the timestamp.
    pub fn pointer_down(&mut self, now: u64)
        ensures
            final(self).start == Some(now),
    {
        self.start = Some(now);
    }

    /// Pointer-up: while pressing, emits exactly one signed delta classified
    /// by the elapsed time and returns to idle; when idle, emits nothing.
    pub fn pointer_up(&mut self, now: u64, positive: bool) -> (r: Option<i32>)
        ensures
            final(self).start is None,
            match old(self).start {
                Some(start) => r == Some(
                    spec_emitted(start as int, now as int, positive) as i32,
                ),
                None => r is None,
            },
    {
        let res = match self.start {
            Some(start) => {
                let elapsed = if now >= start {
                    now - start
                } else {
                    0
                };
                let magnitude: i32 = if elapsed >= LONG_PRESS_THRESHOLD_MS {
                    5
                } else {
                    1
                };
                if positive {
                    Some(magnitude)
                } else {
                    Some(-magnitude)
                }
            },
            None => None,
        };
        self.start = None;
        res
    }

    /// Pointer-leave or pointer-cancel: the pending press is discarded and
    /// nothing is emitted, whatever time has elapsed.
    pub fn pointer_leave_or_cancel(&mut self)
        ensures
            final(self).start is None,
    {
        self.start = None;
    }
}

} // verus!
