//! Power of two choices: draw two different servers and keep the less loaded.
use super::random::random_below;
use crate::backend::server::Server;
use crate::error::LoadBalancerError;
use vstd::prelude::*;

verus! {

pub struct PowerOfTwoSelector;

/// What a power of two choices selection returns.
pub open spec fn power_of_two_selected(servers: Seq<Server>, r: Result<Server, LoadBalancerError>) -> bool {
    &&& servers.len() == 0 <==> r is Err
    &&& r is Err ==> r->Err_0 is NoHealthyBackends
    &&& servers.len() == 1 ==> r is Ok && r->Ok_0@ == servers[0]@
    &&& servers.len() > 1 ==> r is Ok && exists|i1: int, i2: int|
        0 <= i1 < servers.len() && 0 <= i2 < servers.len() && i1 != i2 && r->Ok_0@
            == #[trigger] servers[less_loaded_index(
            #[trigger] servers[i1]@.active_connections,
            #[trigger] servers[i2]@.active_connections,
            i1,
            i2,
        )]@
}

/// The less loaded of two candidates: the first unless the second has
/// strictly fewer connections.
pub open spec fn less_loaded_index(c1: u32, c2: u32, i1: int, i2: int) -> int {
    if c1 <= c2 {
        i1
    } else {
        i2
    }
}

impl PowerOfTwoSelector {
    pub fn new() -> Self {
        PowerOfTwoSelector
    }

    /// Of the two drawn servers, the one with fewer connections (the first on
    /// a tie): the choice once the two random draws are made.
    pub fn pick_less_loaded(&self, servers: &[Server], idx1: usize, idx2: usize) -> (r: Server)
        requires
            idx1 < servers@.len(),
            idx2 < servers@.len(),
        ensures
            r@ == servers@[less_loaded_index(
                servers@[idx1 as int]@.active_connections,
                servers@[idx2 as int]@.active_connections,
                idx1 as int,
                idx2 as int,
            )]@,
    {
        if servers[idx1].connection_count() <= servers[idx2].connection_count() {
            servers[idx1].clone()
        } else {
            servers[idx2].clone()
        }
    }

    /// A single server is returned as it is; otherwise two different servers
    /// are drawn at random and the less loaded one is kept. An empty list is
    /// refused.
    pub fn select(&self, servers: &[Server]) -> (r: Result<Server, LoadBalancerError>)
        ensures
            power_of_two_selected(servers@, r),
    {
        if servers.len() == 0 {
            return Err(LoadBalancerError::NoHealthyBackends);
        }
        if servers.len() == 1 {
            return Ok(servers[0].clone());
        }
        let idx1 = random_below(servers.len());
        // A second index drawn uniformly among the others.
        let r = random_below(servers.len() - 1);
        let idx2 = if r >= idx1 {
            r + 1
        } else {
            r
        };
        let chosen = self.pick_less_loaded(servers, idx1, idx2);
        assert(idx1 != idx2);
        Ok(chosen)
    }
}

impl Clone for PowerOfTwoSelector {
    fn clone(&self) -> Self {
        PowerOfTwoSelector
    }
}

impl Default for PowerOfTwoSelector {
    fn default() -> Self {
        Self::new()
    }
}

} // verus!
