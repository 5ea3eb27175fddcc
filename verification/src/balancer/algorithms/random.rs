//! Random: a server drawn uniformly at random.
use crate::backend::server::Server;
use crate::error::LoadBalancerError;
use vstd::prelude::*;

verus! {

/// `fastrand::usize(..n)`: a random index below `n` from the thread-local
/// generator. The source draws from `low..=high` with `high = n - 1`, so the
/// result is below `n`; `n` must not be 0 (the range would be empty, which
/// panics). Which index comes out is left open.
#[verifier::external_body]
pub(crate) fn random_below(n: usize) -> (r: usize)
    requires
        n > 0,
    ensures
        r < n,
{
    fastrand::usize(..n)
}

/// What a random selection returns: one of the servers.
pub open spec fn randomly_selected(servers: Seq<Server>, r: Result<Server, LoadBalancerError>) -> bool {
    &&& servers.len() == 0 <==> r is Err
    &&& r is Err ==> r->Err_0 is NoHealthyBackends
    &&& r is Ok ==> exists|i: int| 0 <= i < servers.len() && r->Ok_0@ == #[trigger] servers[i]@
}

pub struct RandomSelector;

impl RandomSelector {
    pub fn new() -> Self {
        RandomSelector
    }

    /// The server at `index`: the choice once the random draw is made.
    pub fn select_at(&self, servers: &[Server], index: usize) -> (r: Server)
        requires
            index < servers@.len(),
        ensures
            r@ == servers@[index as int]@,
    {
        servers[index].clone()
    }

    /// One of the servers, drawn at random; an empty list is refused.
    pub fn select(&self, servers: &[Server]) -> (r: Result<Server, LoadBalancerError>)
        ensures
            randomly_selected(servers@, r),
    {
        if servers.len() == 0 {
            return Err(LoadBalancerError::NoHealthyBackends);
        }
        let index = random_below(servers.len());
        let r = self.select_at(servers, index);
        assert(r@ == servers@[index as int]@);
        Ok(r)
    }
}

impl Clone for RandomSelector {
    fn clone(&self) -> Self {
        RandomSelector
    }
}

impl Default for RandomSelector {
    fn default() -> Self {
        Self::new()
    }
}

} // verus!
