//! The pacing of the host's event loop.

use vstd::prelude::*;

verus! {

/// The longest time between two frames, in milliseconds: the loop runs no
/// faster than 60 frames a second.
pub const FRAME_MILLIS: u64 = 16;

/// When the host's event loop last yielded, and whether the interface asked
/// for another update.
pub struct EventLoop {
    pub ui_needs_update: bool,
    /// When the loop last yielded events, in milliseconds.
    pub last_update: u64,
}

/// The time a frame lasts, in milliseconds: sixteen of them, or less if the
/// next update is due earlier.
pub open spec fn frame_duration(max_delay: Option<u64>) -> int {
    match max_delay {
        Some(delay) => if delay < FRAME_MILLIS {
            delay as int
        } else {
            FRAME_MILLIS as int
        },
        None => FRAME_MILLIS as int,
    }
}

/// How long the loop has to wait at `now` before it yields, where it last
/// yielded at `last_update`.
pub open spec fn wait_time(last_update: u64, max_delay: Option<u64>, now: u64) -> int {
    let since = if now >= last_update {
        now - last_update
    } else {
        0
    };
    if since < frame_duration(max_delay) {
        frame_duration(max_delay) - since
    } else {
        0
    }
}

impl EventLoop {
    /// A loop that last yielded at `now`, a time in milliseconds, and whose
    /// interface needs an update.
    pub fn new(now: u64) -> (r: EventLoop)
        ensures
            r.ui_needs_update,
            r.last_update == now,
    {
        EventLoop { last_update: now, ui_needs_update: true }
    }

    /// How many milliseconds the loop has to sleep at `now` before it
    /// collects the next events. `max_delay` is the time until the pipeline
    /// wants its next update, if it wants one.
    pub fn frame_wait(&self, max_delay: Option<u64>, now: u64) -> (r: u64)
        ensures
            r == wait_time(self.last_update, max_delay, now),
    {
        let frame_duration = match max_delay {
            None => FRAME_MILLIS,
            Some(delay) => if delay < FRAME_MILLIS {
                delay
            } else {
                FRAME_MILLIS
            },
        };
        let since_last_update = if now >= self.last_update {
            now - self.last_update
        } else {
            0
        };
        if since_last_update < frame_duration {
            frame_duration - since_last_update
        } else {
            0
        }
    }

    /// Records that the loop has yielded its events at `now`.
    pub fn next(&mut self, now: u64)
        ensures
            !final(self).ui_needs_update,
            final(self).last_update == now,
    {
        self.ui_needs_update = false;
        self.last_update = now;
    }

    /// Notifies the event loop that the interface requires another update
    /// whether or not there are any pending events.
    pub fn needs_update(&mut self)
        ensures
            final(self).ui_needs_update,
            final(self).last_update == old(self).last_update,
    {
        self.ui_needs_update = true;
    }
}

} // verus!
