//! Backends named on the command line as `host:port`.
use super::server::Server;
use crate::text::{chars_of, parse_u64, parse_u64_chars, split, split_chars, string_of};
use vstd::prelude::*;

verus! {

/// Why a `host:port` text was refused.
#[derive(Debug, Clone, PartialEq, Eq)]
pub enum BackendSpecError {
    /// Not exactly one ':' in the text.
    InvalidFormat(String),
    /// The part after ':' is not a port number.
    InvalidPort(String),
}

impl BackendSpecError {
    /// `Invalid backend format: {text}. Expected host:port`, or
    /// `Invalid port in backend: {text}`.
    pub fn message(&self) -> (s: String)
        ensures
            s@ == match *self {
                BackendSpecError::InvalidFormat(t) => "Invalid backend format: "@ + t@ + ". Expected host:port"@,
                BackendSpecError::InvalidPort(t) => "Invalid port in backend: "@ + t@,
            },
    {
        let mut s = String::new();
        match self {
            BackendSpecError::InvalidFormat(t) => {
                s.append("Invalid backend format: ");
                s.append(t.as_str());
                s.append(". Expected host:port");
            },
            BackendSpecError::InvalidPort(t) => {
                s.append("Invalid port in backend: ");
                s.append(t.as_str());
            },
        }
        s
    }
}

/// What `str::parse::<u16>` returns.
pub open spec fn parse_port(s: Seq<char>) -> Option<u16> {
    match parse_u64(s) {
        Some(n) => if n <= u16::MAX {
            Some(n as u16)
        } else {
            None
        },
        None => None,
    }
}

/// The host and port a `host:port` text names: refused unless it splits on
/// ':' into exactly two pieces and the second is a port number.
pub open spec fn backend_spec(text: Seq<char>) -> Result<(Seq<char>, u16), BackendSpecErrorKind> {
    let pieces = split(text, ':');
    if pieces.len() != 2 {
        Err(BackendSpecErrorKind::Format)
    } else {
        match parse_port(pieces[1]) {
            Some(p) => Ok((pieces[0], p)),
            None => Err(BackendSpecErrorKind::Port),
        }
    }
}

/// Which refusal `backend_spec` gives.
pub enum BackendSpecErrorKind {
    Format,
    Port,
}

/// A server from a `host:port` command-line text, with the given weight.
pub fn parse_backend(backend: &str, default_weight: u32) -> (r: Result<Server, BackendSpecError>)
    ensures
        match backend_spec(backend@) {
            Ok((host, port)) => r is Ok && r->Ok_0@.host == host && r->Ok_0@.port == port && r->Ok_0@.weight
                == default_weight && r->Ok_0@.id == super::server::host_port(host, port)
                && r->Ok_0@.status == super::server::ServerStatus::Up && r->Ok_0@.fail_count == 0
                && r->Ok_0@.active_connections == 0,
            Err(BackendSpecErrorKind::Format) => r matches Err(BackendSpecError::InvalidFormat(t)) && t@ == backend@,
            Err(BackendSpecErrorKind::Port) => r matches Err(BackendSpecError::InvalidPort(t)) && t@ == backend@,
        },
{
    let cs = chars_of(backend);
    let parts = split_chars(&cs, ':');
    if parts.len() != 2 {
        return Err(BackendSpecError::InvalidFormat(backend.to_string()));
    }
    match parse_u64_chars(&parts[1]) {
        Some(n) => {
            if n <= 65535 {
                let host = string_of(&parts[0]);
                Ok(Server::new(host, n as u16, default_weight))
            } else {
                Err(BackendSpecError::InvalidPort(backend.to_string()))
            }
        },
        None => Err(BackendSpecError::InvalidPort(backend.to_string())),
    }
}

} // verus!
