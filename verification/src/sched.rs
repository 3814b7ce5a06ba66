//! Drive scheduling: decides, from elapsed time or discrete triggers, whether a
//! drive cycle is due. Timer-driven mode consumes one interval per query even
//! while paused, so no burst of queued arcs fires when drawing resumes;
//! click-driven mode fires exactly once per trigger.

use vstd::prelude::*;

verus! {

/// The drive-scheduling state. `auto` selects timer-driven mode; otherwise each
/// cycle must be requested explicitly.
pub struct Scheduler {
    /// Timer-driven when true, click-driven when false; fixed for the
    /// scheduler's lifetime.
    pub auto: bool,
    /// The timer period, in milliseconds.
    pub dt: u64,
    /// The elapsed time at which the next interval ends.
    pub next_update: u64,
    /// Whether the user is currently not drawing (timer-driven mode only).
    pub paused: bool,
    /// Whether one cycle was requested (click-driven mode only).
    pub draw_req: bool,
}

impl Scheduler {
    /// Whether a query at elapsed time `since` fires a drive cycle.
    pub open spec fn fires(self, since: int) -> bool {
        if self.auto {
            since >= self.next_update && !self.paused
        } else {
            self.draw_req
        }
    }

    /// A fresh scheduler: first interval ends at `dt`, paused, nothing
    /// requested.
    pub fn new(auto: bool, dt: u64) -> (s: Scheduler)
        ensures
            s.auto == auto,
            s.dt == dt,
            s.next_update == dt,
            s.paused,
            !s.draw_req,
    {
        Scheduler { auto, dt, next_update: dt, paused: true, draw_req: false }
    }

    /// The user began drawing: unpause the timer.
    pub fn begin_draw(&mut self)
        ensures
            *final(self) == (Scheduler { paused: false, ..*old(self) }),
    {
        self.paused = false;
    }

    /// The user stopped drawing: pause the timer.
    pub fn end_draw(&mut self)
        ensures
            *final(self) == (Scheduler { paused: true, ..*old(self) }),
    {
        self.paused = true;
    }

    /// One drive cycle was requested (click-driven mode).
    pub fn request_arc(&mut self)
        ensures
            *final(self) == (Scheduler { draw_req: true, ..*old(self) }),
    {
        self.draw_req = true;
    }

    /// Queries the scheduler at elapsed time `since_start`. In timer-driven mode
    /// an elapsed interval is consumed whether or not the cycle fires; in
    /// click-driven mode a pending request is consumed.
    pub fn should_fire(&mut self, since_start: u64) -> (fire: bool)
        requires
            old(self).auto && since_start >= old(self).next_update ==> old(self).next_update
                + old(self).dt <= u64::MAX,
        ensures
            fire == old(self).fires(since_start as int),
            final(self).auto == old(self).auto,
            final(self).dt == old(self).dt,
            final(self).paused == old(self).paused,
            old(self).auto ==> final(self).draw_req == old(self).draw_req,
            old(self).auto && since_start < old(self).next_update ==> final(self).next_update
                == old(self).next_update,
            old(self).auto && since_start >= old(self).next_update ==> final(self).next_update
                == old(self).next_update + old(self).dt,
            !old(self).auto ==> final(self).next_update == old(self).next_update
                && !final(self).draw_req,
    {
        if self.auto {
            if since_start < self.next_update {
                return false;
            }
            self.next_update = self.next_update + self.dt;
            !self.paused
        } else {
            let req = self.draw_req;
            self.draw_req = false;
            req
        }
    }
}

} // verus!
