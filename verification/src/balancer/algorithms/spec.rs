//! The plain-value picture of a list of servers that the selectors' contracts
//! speak of.
use crate::backend::server::{Server, ServerView};
use vstd::prelude::*;

verus! {

/// The views of the servers, in order.
pub open spec fn views(servers: Seq<Server>) -> Seq<ServerView> {
    servers.map_values(|s: Server| s@)
}

} // verus!
