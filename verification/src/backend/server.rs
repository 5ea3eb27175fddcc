//! One backend server and the counters kept about it.
use crate::clock::now_millis;
use crate::text::{decimal, push_decimal, push_str};
use vstd::prelude::*;

verus! {

/// Where a backend stands with respect to receiving traffic.
#[derive(Debug, Clone, Copy, PartialEq, Eq, Structural)]
pub enum ServerStatus {
    Up,
    Down,
    Draining,
    Maintenance,
}

impl ServerStatus {
    /// The upper-case name shown in status listings (`UP`, `DOWN`, ...).
    pub fn label(&self) -> (r: &'static str)
        ensures
            r@ == status_label(*self),
    {
        match self {
            ServerStatus::Up => "UP",
            ServerStatus::Down => "DOWN",
            ServerStatus::Draining => "DRAINING",
            ServerStatus::Maintenance => "MAINTENANCE",
        }
    }
}

pub open spec fn status_label(s: ServerStatus) -> Seq<char> {
    match s {
        ServerStatus::Up => "UP"@,
        ServerStatus::Down => "DOWN"@,
        ServerStatus::Draining => "DRAINING"@,
        ServerStatus::Maintenance => "MAINTENANCE"@,
    }
}

/// `host:port`, the form in which a backend is named and addressed.
pub open spec fn host_port(host: Seq<char>, port: u16) -> Seq<char> {
    host + ":"@ + decimal(port as nat)
}

/// A backend server: where it is, how much traffic it should get, and what
/// has been observed of it.
pub struct Server {
    pub id: String,
    pub host: String,
    pub port: u16,
    pub weight: u32,
    status: ServerStatus,
    fail_count: u32,
    success_count: u64,
    total_requests: u64,
    active_connections: u32,
    /// Clock reading (milliseconds) of the last status change.
    last_check: Option<u64>,
    /// Duration of the last successful health check, in nanoseconds.
    last_response_time: Option<u128>,
}

/// Everything a `Server` holds, as plain values.
pub struct ServerView {
    pub id: Seq<char>,
    pub host: Seq<char>,
    pub port: u16,
    pub weight: u32,
    pub status: ServerStatus,
    pub fail_count: u32,
    pub success_count: u64,
    pub total_requests: u64,
    pub active_connections: u32,
    pub last_check: Option<u64>,
    pub last_response_time: Option<u128>,
}

impl View for Server {
    type V = ServerView;

    closed spec fn view(&self) -> ServerView {
        ServerView {
            id: self.id@,
            host: self.host@,
            port: self.port,
            weight: self.weight,
            status: self.status,
            fail_count: self.fail_count,
            success_count: self.success_count,
            total_requests: self.total_requests,
            active_connections: self.active_connections,
            last_check: self.last_check,
            last_response_time: self.last_response_time,
        }
    }
}

impl ServerView {
    pub open spec fn is_healthy(self) -> bool {
        self.status == ServerStatus::Up
    }

    pub open spec fn is_available(self) -> bool {
        self.status == ServerStatus::Up || self.status == ServerStatus::Draining
    }

    /// The same server with only its status and status-change time replaced.
    pub open spec fn with_status(self, status: ServerStatus, now: u64) -> ServerView {
        ServerView { status, last_check: Some(now), ..self }
    }

    /// `next` is this server with its status set to `status` at some clock
    /// reading.
    pub open spec fn status_set(self, next: ServerView, status: ServerStatus) -> bool {
        &&& next.last_check is Some
        &&& next == self.with_status(status, next.last_check->0)
    }
}

fn host_port_string(host: &str, port: u16) -> (s: String)
    ensures
        s@ == host_port(host@, port),
{
    let mut s = String::new();
    push_str(&mut s, host);
    push_str(&mut s, ":");
    push_decimal(&mut s, port as u64);
    assert(s@ =~= host_port(host@, port));
    s
}

impl Clone for Server {
    fn clone(&self) -> (r: Self)
        ensures
            r@ == self@,
    {
        Server {
            id: self.id.clone(),
            host: self.host.clone(),
            port: self.port,
            weight: self.weight,
            status: self.status,
            fail_count: self.fail_count,
            success_count: self.success_count,
            total_requests: self.total_requests,
            active_connections: self.active_connections,
            last_check: self.last_check,
            last_response_time: self.last_response_time,
        }
    }
}

impl Server {
    /// A new backend at `host:port`, up, with all counters at zero.
    pub fn new(host: String, port: u16, weight: u32) -> (s: Self)
        ensures
            s@.id == host_port(host@, port),
            s@.host == host@,
            s@.port == port,
            s@.weight == weight,
            s@.status == ServerStatus::Up,
            s@.fail_count == 0,
            s@.success_count == 0,
            s@.total_requests == 0,
            s@.active_connections == 0,
            s@.last_check is None,
            s@.last_response_time is None,
    {
        let id = host_port_string(host.as_str(), port);
        Server {
            id,
            host,
            port,
            weight,
            status: ServerStatus::Up,
            fail_count: 0,
            success_count: 0,
            total_requests: 0,
            active_connections: 0,
            last_check: None,
            last_response_time: None,
        }
    }

    pub fn weight(&self) -> (r: u32)
        ensures
            r == self@.weight,
    {
        self.weight
    }

    pub fn id(&self) -> (r: &String)
        ensures
            r@ == self@.id,
    {
        &self.id
    }

    pub fn host(&self) -> (r: &String)
        ensures
            r@ == self@.host,
    {
        &self.host
    }

    pub fn port(&self) -> (r: u16)
        ensures
            r == self@.port,
    {
        self.port
    }

    /// `host:port`.
    pub fn address(&self) -> (s: String)
        ensures
            s@ == host_port(self@.host, self@.port),
    {
        host_port_string(self.host.as_str(), self.port)
    }

    pub fn is_healthy(&self) -> (r: bool)
        ensures
            r == self@.is_healthy(),
    {
        self.status == ServerStatus::Up
    }

    pub fn is_available(&self) -> (r: bool)
        ensures
            r == self@.is_available(),
    {
        self.status == ServerStatus::Up || self.status == ServerStatus::Draining
    }

    pub fn status(&self) -> (r: ServerStatus)
        ensures
            r == self@.status,
    {
        self.status
    }

    /// Sets the status, recording the clock reading `now` as the time of the
    /// change.
    pub fn set_status_at(&mut self, status: ServerStatus, now: u64)
        ensures
            final(self)@ == old(self)@.with_status(status, now),
    {
        self.status = status;
        self.last_check = Some(now);
    }

    /// Sets the status, recording the current clock reading as the time of
    /// the change.
    pub fn set_status(&mut self, status: ServerStatus)
        ensures
            old(self)@.status_set(final(self)@, status),
    {
        let now = now_millis();
        self.set_status_at(status, now);
    }

    /// Up again: status `Up`, failures forgotten, one more success counted
    /// (the success counter wraps around at its maximum).
    pub fn mark_healthy(&mut self)
        ensures
            (ServerView {
                fail_count: 0,
                success_count: old(self)@.success_count.wrapping_add(1),
                ..old(self)@
            }).status_set(final(self)@, ServerStatus::Up),
    {
        self.set_status(ServerStatus::Up);
        self.fail_count = 0;
        self.success_count = self.success_count.wrapping_add(1);
    }

    pub fn mark_unhealthy(&mut self)
        ensures
            old(self)@.status_set(final(self)@, ServerStatus::Down),
    {
        self.set_status(ServerStatus::Down);
    }

    /// Counts one more failure and returns the new count.
    pub fn increment_failures(&mut self) -> (r: u32)
        requires
            old(self)@.fail_count < u32::MAX,
        ensures
            r == old(self)@.fail_count + 1,
            final(self)@ == (ServerView { fail_count: r, ..old(self)@ }),
    {
        self.fail_count = self.fail_count + 1;
        self.fail_count
    }

    pub fn reset_failures(&mut self)
        ensures
            final(self)@ == (ServerView { fail_count: 0, ..old(self)@ }),
    {
        self.fail_count = 0;
    }

    pub fn failure_count(&self) -> (r: u32)
        ensures
            r == self@.fail_count,
    {
        self.fail_count
    }

    /// One more open connection and one more request served (both counters
    /// wrap around at their maximum).
    pub fn increment_connections(&mut self)
        ensures
            final(self)@ == (ServerView {
                active_connections: old(self)@.active_connections.wrapping_add(1),
                total_requests: old(self)@.total_requests.wrapping_add(1),
                ..old(self)@
            }),
    {
        self.active_connections = self.active_connections.wrapping_add(1);
        self.total_requests = self.total_requests.wrapping_add(1);
    }

    /// One connection fewer (the counter wraps around below zero).
    pub fn decrement_connections(&mut self)
        ensures
            final(self)@ == (ServerView {
                active_connections: old(self)@.active_connections.wrapping_sub(1),
                ..old(self)@
            }),
    {
        self.active_connections = self.active_connections.wrapping_sub(1);
    }

    pub fn connection_count(&self) -> (r: u32)
        ensures
            r == self@.active_connections,
    {
        self.active_connections
    }

    pub fn total_requests(&self) -> (r: u64)
        ensures
            r == self@.total_requests,
    {
        self.total_requests
    }

    pub fn success_count(&self) -> (r: u64)
        ensures
            r == self@.success_count,
    {
        self.success_count
    }

    /// Records the duration (in nanoseconds) of the last successful check.
    pub fn set_response_time(&mut self, nanos: u128)
        ensures
            final(self)@ == (ServerView { last_response_time: Some(nanos), ..old(self)@ }),
    {
        self.last_response_time = Some(nanos);
    }

    pub fn last_response_time(&self) -> (r: Option<u128>)
        ensures
            r == self@.last_response_time,
    {
        self.last_response_time
    }

    /// Clock reading (milliseconds) of the last status change, if any.
    pub fn last_check_time(&self) -> (r: Option<u64>)
        ensures
            r == self@.last_check,
    {
        self.last_check
    }
}

} // verus!
