//! Round robin: each call takes the next server in turn.
use crate::backend::server::Server;
use crate::error::LoadBalancerError;
use vstd::prelude::*;

verus! {

/// What one round robin selection does, from counter `before` to `after`.
pub open spec fn round_robin_selected(
    servers: Seq<Server>,
    before: usize,
    after: usize,
    r: Result<Server, LoadBalancerError>,
) -> bool {
    &&& servers.len() == 0 ==> r is Err && r->Err_0 is NoHealthyBackends && after == before
    &&& servers.len() > 0 ==> r is Ok && r->Ok_0@ == servers[before as int % servers.len() as int]@
        && after == before.wrapping_add(1)
}

/// Hands out servers in turn, counting calls.
pub struct RoundRobinSelector {
    current_index: usize,
}

impl RoundRobinSelector {
    pub fn new() -> (s: Self)
        ensures
            s.counter() == 0,
    {
        RoundRobinSelector { current_index: 0 }
    }

    /// How many selections have been made (wrapping at the maximum).
    pub closed spec fn counter(&self) -> usize {
        self.current_index
    }

    /// The server at the call counter modulo the number of servers; the
    /// counter advances by one (wrapping around at its maximum). An empty list
    /// is refused and leaves the counter as it was.
    pub fn select(&mut self, servers: &[Server]) -> (r: Result<Server, LoadBalancerError>)
        ensures
            round_robin_selected(servers@, old(self).counter(), final(self).counter(), r),
    {
        if servers.len() == 0 {
            return Err(LoadBalancerError::NoHealthyBackends);
        }
        let index = self.current_index;
        self.current_index = self.current_index.wrapping_add(1);
        Ok(servers[index % servers.len()].clone())
    }
}

/// The server index that the `k`-th selection after counter value `start`
/// takes from a list of `n` servers.
pub open spec fn round_robin_slot(start: int, k: int, n: int) -> int {
    (start + k) % n
}

/// Some selection among `n` consecutive ones after counter `start` takes
/// server `t`.
pub open spec fn round_robin_reaches(start: int, n: int, t: int) -> bool {
    exists|k: int| 0 <= k < n && #[trigger] round_robin_slot(start, k, n) == t
}

/// Fairness of round robin: `n` consecutive selections over the same `n`
/// servers, starting from any counter value that does not wrap around on the
/// way, pick every server exactly once.
pub proof fn lemma_round_robin_visits_each_once(start: int, n: int)
    requires
        n > 0,
        start >= 0,
    ensures
        forall|t: int| 0 <= t < n ==> #[trigger] round_robin_reaches(start, n, t),
        forall|k1: int, k2: int|
            0 <= k1 < n && 0 <= k2 < n && #[trigger] round_robin_slot(start, k1, n)
                == #[trigger] round_robin_slot(start, k2, n) ==> k1 == k2,
{
    assert forall|t: int| 0 <= t < n implies #[trigger] round_robin_reaches(start, n, t) by {
        let k = (t - start % n + n) % n;
        assert(0 <= k < n) by (nonlinear_arith)
            requires
                n > 0,
                k == (t - start % n + n) % n,
        ;
        assert((start + k) % n == t) by (nonlinear_arith)
            requires
                n > 0,
                start >= 0,
                0 <= t < n,
                k == (t - start % n + n) % n,
        ;
        assert(round_robin_slot(start, k, n) == t);
    }
    assert forall|k1: int, k2: int|
        0 <= k1 < n && 0 <= k2 < n && #[trigger] round_robin_slot(start, k1, n)
            == #[trigger] round_robin_slot(start, k2, n) implies k1 == k2 by {
        assert(k1 == k2) by (nonlinear_arith)
            requires
                n > 0,
                0 <= k1 < n,
                0 <= k2 < n,
                (start + k1) % n == (start + k2) % n,
        ;
    }
}

impl Default for RoundRobinSelector {
    fn default() -> (r: Self)
        ensures
            r.counter() == 0,
    {
        Self::new()
    }
}

} // verus!
