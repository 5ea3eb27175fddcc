//! Access log lines.
use crate::text::{decimal, push_decimal, push_str};
use vstd::prelude::*;

verus! {

/// How an access log line is written.
#[derive(Clone, Copy, PartialEq, Eq, Structural)]
pub enum LogFormat {
    /// The Apache/NGINX "combined" line.
    Combined,
    /// One JSON object per line.
    Json,
}

/// An optional text field of a log line: the text, or "-" when absent.
pub open spec fn or_dash(v: Option<Seq<char>>) -> Seq<char> {
    match v {
        Some(t) => t,
        None => "-"@,
    }
}

/// The combined log line of one request:
/// `ip - - [time] "METHOD uri PROTOCOL" status bytes "referer" "agent" Nms`,
/// with "-" for a missing referer or user agent.
pub open spec fn combined_text(
    client_ip: Seq<char>,
    timestamp: Seq<char>,
    method: Seq<char>,
    uri: Seq<char>,
    protocol: Seq<char>,
    status: u16,
    bytes_sent: u64,
    referer: Option<Seq<char>>,
    user_agent: Option<Seq<char>>,
    duration_ms: u64,
) -> Seq<char> {
    client_ip + " - - ["@ + timestamp + "] \""@ + method + " "@ + uri + " "@ + protocol + "\" "@ + decimal(status as nat) + " "@
        + decimal(bytes_sent as nat) + " \""@ + or_dash(referer) + "\" \""@ + or_dash(user_agent) + "\" "@ + decimal(
        duration_ms as nat,
    ) + "ms"@
}

/// Writes the combined log line of one request. The time comes already
/// formatted (`%d/%b/%Y:%H:%M:%S %z`), the duration in whole milliseconds.
pub fn combined_line(
    client_ip: &str,
    timestamp: &str,
    method: &str,
    uri: &str,
    protocol: &str,
    status: u16,
    bytes_sent: u64,
    referer: Option<&str>,
    user_agent: Option<&str>,
    duration_ms: u64,
) -> (r: String)
    ensures
        r@ == combined_text(
            client_ip@,
            timestamp@,
            method@,
            uri@,
            protocol@,
            status,
            bytes_sent,
            match referer {
                Some(t) => Some(t@),
                None => None,
            },
            match user_agent {
                Some(t) => Some(t@),
                None => None,
            },
            duration_ms,
        ),
{
    let mut s = String::new();
    push_str(&mut s, client_ip);
    push_str(&mut s, " - - [");
    push_str(&mut s, timestamp);
    push_str(&mut s, "] \"");
    push_str(&mut s, method);
    push_str(&mut s, " ");
    push_str(&mut s, uri);
    push_str(&mut s, " ");
    push_str(&mut s, protocol);
    push_str(&mut s, "\" ");
    push_decimal(&mut s, status as u64);
    push_str(&mut s, " ");
    push_decimal(&mut s, bytes_sent);
    push_str(&mut s, " \"");
    match referer {
        Some(t) => push_str(&mut s, t),
        None => push_str(&mut s, "-"),
    }
    push_str(&mut s, "\" \"");
    match user_agent {
        Some(t) => push_str(&mut s, t),
        None => push_str(&mut s, "-"),
    }
    push_str(&mut s, "\" ");
    push_decimal(&mut s, duration_ms);
    push_str(&mut s, "ms");
    assert(s@ =~= combined_text(
        client_ip@,
        timestamp@,
        method@,
        uri@,
        protocol@,
        status,
        bytes_sent,
        match referer {
            Some(t) => Some(t@),
            None => None,
        },
        match user_agent {
            Some(t) => Some(t@),
            None => None,
        },
        duration_ms,
    ));
    s
}

} // verus!
