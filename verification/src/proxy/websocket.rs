//! WebSocket upgrades: recognising an upgrade request, and the counters kept
//! while frames are relayed between client and backend.
use crate::text::{chars_of, contains_seq, eq_ignore_case, seq_contains, str_eq_ignore_case, to_lowercase, unicode_lowercase};
use crate::utils::request_id::{find_header, header_value};
use vstd::prelude::*;

verus! {

/// Relays one client's WebSocket to a backend URL.
pub struct WebSocketProxy {
    backend_url: String,
}

/// Connections open and frames relayed, over all relays of the process.
pub struct WebSocketCounters {
    connections: u64,
    messages: u64,
}

/// A reading of the counters.
pub struct WebSocketStats {
    pub active_connections: u64,
    pub total_messages: u64,
}

impl WebSocketCounters {
    pub closed spec fn connections(&self) -> u64 {
        self.connections
    }

    pub closed spec fn messages(&self) -> u64 {
        self.messages
    }

    pub fn new() -> (c: Self)
        ensures
            c.connections() == 0,
            c.messages() == 0,
    {
        WebSocketCounters { connections: 0, messages: 0 }
    }

    /// A relay started (the counter wraps around at its maximum).
    pub fn connection_opened(&mut self)
        ensures
            final(self).connections() == old(self).connections().wrapping_add(1),
            final(self).messages() == old(self).messages(),
    {
        self.connections = self.connections.wrapping_add(1);
    }

    /// A relay ended, or its backend could not be reached (the counter wraps
    /// around below zero).
    pub fn connection_closed(&mut self)
        ensures
            final(self).connections() == old(self).connections().wrapping_sub(1),
            final(self).messages() == old(self).messages(),
    {
        self.connections = self.connections.wrapping_sub(1);
    }

    /// One frame relayed, in either direction (the counter wraps around).
    pub fn message_relayed(&mut self)
        ensures
            final(self).connections() == old(self).connections(),
            final(self).messages() == old(self).messages().wrapping_add(1),
    {
        self.messages = self.messages.wrapping_add(1);
    }
}

impl WebSocketProxy {
    pub closed spec fn url(&self) -> Seq<char> {
        self.backend_url@
    }

    pub fn new(backend_url: String) -> (p: Self)
        ensures
            p.url() == backend_url@,
    {
        WebSocketProxy { backend_url }
    }

    /// The backend URL that the relay connects to.
    pub fn backend_url(&self) -> (r: &str)
        ensures
            r@ == self.url(),
    {
        self.backend_url.as_str()
    }

    /// Relays open now.
    pub fn active_connections(counters: &WebSocketCounters) -> (r: u64)
        ensures
            r == counters.connections(),
    {
        counters.connections
    }

    /// Frames relayed so far.
    pub fn total_messages(counters: &WebSocketCounters) -> (r: u64)
        ensures
            r == counters.messages(),
    {
        counters.messages
    }
}

impl WebSocketStats {
    /// The counters as they stand.
    pub fn current(counters: &WebSocketCounters) -> (s: Self)
        ensures
            s.active_connections == counters.connections(),
            s.total_messages == counters.messages(),
    {
        WebSocketStats { active_connections: counters.connections, total_messages: counters.messages }
    }
}

/// The `Upgrade` header is present, readable, and says "websocket" (ASCII
/// case ignored).
pub open spec fn upgrade_is_websocket(headers: Seq<(String, Option<String>)>) -> bool {
    header_value(headers, "upgrade"@) matches Some(Some(v)) && eq_ignore_case(v@, "websocket"@)
}

/// The `Connection` header is present, readable, and its lower-cased text
/// contains "upgrade".
pub open spec fn connection_mentions_upgrade(headers: Seq<(String, Option<String>)>) -> bool {
    header_value(headers, "connection"@) matches Some(Some(v)) && contains_seq(unicode_lowercase(v@), "upgrade"@)
}

/// Whether the request asks to upgrade to WebSocket. Headers come as (name,
/// value) pairs, the value `None` when it is not readable text.
pub fn is_websocket_upgrade(headers: &Vec<(String, Option<String>)>) -> (r: bool)
    ensures
        r == upgrade_is_websocket(headers@),
{
    match find_header(headers, "upgrade") {
        Some(Some(v)) => str_eq_ignore_case(v.as_str(), "websocket"),
        _ => false,
    }
}

/// Whether the request is a complete WebSocket handshake: an `Upgrade:
/// websocket` header, a `Connection` header mentioning "upgrade", and a
/// `Sec-WebSocket-Key` header.
pub fn is_websocket_request(headers: &Vec<(String, Option<String>)>) -> (r: bool)
    ensures
        r == (upgrade_is_websocket(headers@) && connection_mentions_upgrade(headers@) && header_value(
            headers@,
            "sec-websocket-key"@,
        ) is Some),
{
    let has_upgrade = is_websocket_upgrade(headers);
    let has_connection = match find_header(headers, "connection") {
        Some(Some(v)) => {
            let lowered = to_lowercase(v.as_str());
            let text = chars_of(lowered.as_str());
            let needle = chars_of("upgrade");
            seq_contains(&text, &needle)
        },
        _ => false,
    };
    let has_ws_key = find_header(headers, "sec-websocket-key").is_some();
    has_upgrade && has_connection && has_ws_key
}

} // verus!
