//! Least connections: the server with the fewest open connections.
use super::spec::views;
use crate::backend::server::{Server, ServerView};
use crate::error::LoadBalancerError;
use vstd::prelude::*;

verus! {

/// `a` is strictly preferred to `b`: fewer connections, or as many and a
/// higher weight.
pub open spec fn fewer_connections(a: ServerView, b: ServerView) -> bool {
    a.active_connections < b.active_connections || (a.active_connections
        == b.active_connections && a.weight > b.weight)
}

/// `i` is the first of the most preferred servers.
pub open spec fn is_least_connections_pick(s: Seq<ServerView>, i: int) -> bool {
    &&& 0 <= i < s.len()
    &&& forall|j: int| 0 <= j < i ==> fewer_connections(s[i], #[trigger] s[j])
    &&& forall|j: int| 0 <= j < s.len() ==> !fewer_connections(#[trigger] s[j], s[i])
}

/// What a least connections selection returns.
pub open spec fn least_connections_selected(servers: Seq<Server>, r: Result<Server, LoadBalancerError>) -> bool {
    &&& servers.len() == 0 <==> r is Err
    &&& r is Err ==> r->Err_0 is NoHealthyBackends
    &&& r is Ok ==> exists|i: int|
        is_least_connections_pick(views(servers), i) && r->Ok_0@ == #[trigger] servers[i]@
}

pub struct LeastConnectionsSelector;

impl LeastConnectionsSelector {
    pub fn new() -> Self {
        LeastConnectionsSelector
    }

    /// The first server with the fewest connections, ties going to the
    /// higher weight; an empty list is refused.
    pub fn select(&self, servers: &[Server]) -> (r: Result<Server, LoadBalancerError>)
        ensures
            least_connections_selected(servers@, r),
    {
        if servers.len() == 0 {
            return Err(LoadBalancerError::NoHealthyBackends);
        }
        let ghost s = views(servers@);
        let mut best: usize = 0;
        let mut j: usize = 1;
        while j < servers.len()
            invariant
                s == views(servers@),
                1 <= j <= servers@.len(),
                best < j,
                forall|k: int| 0 <= k < best ==> fewer_connections(s[best as int], #[trigger] s[k]),
                forall|k: int| 0 <= k < j ==> !fewer_connections(#[trigger] s[k], s[best as int]),
            decreases servers.len() - j,
        {
            let cj = servers[j].connection_count();
            let cb = servers[best].connection_count();
            if cj < cb || (cj == cb && servers[j].weight() > servers[best].weight()) {
                assert(fewer_connections(s[j as int], s[best as int]));
                best = j;
            }
            j = j + 1;
        }
        let r = servers[best].clone();
        assert(is_least_connections_pick(s, best as int));
        Ok(r)
    }
}

impl Clone for LeastConnectionsSelector {
    fn clone(&self) -> Self {
        LeastConnectionsSelector
    }
}

impl Default for LeastConnectionsSelector {
    fn default() -> Self {
        Self::new()
    }
}

} // verus!
