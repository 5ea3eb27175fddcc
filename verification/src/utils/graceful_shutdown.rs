//! Graceful shutdown: stop taking new connections, then wait for the open
//! ones to finish, up to a drain timeout.
use vstd::prelude::*;

verus! {

/// What to do while draining connections.
#[derive(Debug, Clone, Copy, PartialEq, Eq, Structural)]
pub enum DrainStep {
    /// No connection is open any more.
    Drained,
    /// Connections are still open but the drain timeout has passed.
    TimedOut,
    /// Connections are still open; wait and look again.
    Wait,
}

pub struct GracefulShutdown {
    is_shutting_down: bool,
    active_connections: usize,
    drain_timeout_secs: u64,
}

impl GracefulShutdown {
    pub closed spec fn shutting_down(&self) -> bool {
        self.is_shutting_down
    }

    pub closed spec fn active(&self) -> usize {
        self.active_connections
    }

    pub closed spec fn drain_timeout(&self) -> u64 {
        self.drain_timeout_secs
    }

    /// Running, with no connection open.
    pub fn new(drain_timeout_secs: u64) -> (s: Self)
        ensures
            !s.shutting_down(),
            s.active() == 0,
            s.drain_timeout() == drain_timeout_secs,
    {
        GracefulShutdown { is_shutting_down: false, active_connections: 0, drain_timeout_secs }
    }

    pub fn is_shutting_down(&self) -> (r: bool)
        ensures
            r == self.shutting_down(),
    {
        self.is_shutting_down
    }

    /// Begins the shutdown. Returns `true` only for the call that began it:
    /// that caller announces the shutdown to the listeners; later calls change
    /// nothing.
    pub fn start_shutdown(&mut self) -> (began: bool)
        ensures
            began == !old(self).shutting_down(),
            final(self).shutting_down(),
            final(self).active() == old(self).active(),
            final(self).drain_timeout() == old(self).drain_timeout(),
    {
        if self.is_shutting_down {
            return false;
        }
        self.is_shutting_down = true;
        true
    }

    /// One more open connection (the count wraps around at its maximum).
    pub fn connection_started(&mut self)
        ensures
            final(self).active() == old(self).active().wrapping_add(1),
            final(self).shutting_down() == old(self).shutting_down(),
            final(self).drain_timeout() == old(self).drain_timeout(),
    {
        self.active_connections = self.active_connections.wrapping_add(1);
    }

    /// One connection fewer; the count never goes below zero.
    pub fn connection_ended(&mut self)
        ensures
            final(self).active() == if old(self).active() > 0 {
                (old(self).active() - 1) as usize
            } else {
                0
            },
            final(self).shutting_down() == old(self).shutting_down(),
            final(self).drain_timeout() == old(self).drain_timeout(),
    {
        if let Some(n) = self.active_connections.checked_sub(1) {
            self.active_connections = n;
        }
    }

    pub fn active_connections(&self) -> (r: usize)
        ensures
            r == self.active(),
    {
        self.active_connections
    }

    /// The next step of the wait for open connections, `elapsed_ms` after it
    /// began: done when none is open, given up once more than the drain
    /// timeout has passed, and otherwise wait.
    pub fn drain_step(&self, elapsed_ms: u64) -> (r: DrainStep)
        ensures
            self.active() == 0 ==> r == DrainStep::Drained,
            self.active() > 0 && elapsed_ms > self.drain_timeout() * 1000 ==> r == DrainStep::TimedOut,
            self.active() > 0 && elapsed_ms <= self.drain_timeout() * 1000 ==> r == DrainStep::Wait,
    {
        if self.active_connections == 0 {
            return DrainStep::Drained;
        }
        let secs = elapsed_ms / 1000;
        if secs > self.drain_timeout_secs || (secs == self.drain_timeout_secs && elapsed_ms % 1000
            > 0) {
            DrainStep::TimedOut
        } else {
            DrainStep::Wait
        }
    }
}

/// A connection that starts and ends leaves the count as it was.
pub proof fn lemma_start_end_restores(count: usize)
    requires
        count < usize::MAX,
    ensures
        (if count.wrapping_add(1) > 0 {
            (count.wrapping_add(1) - 1) as usize
        } else {
            0usize
        }) == count,
{
}

} // verus!
