//! Fastest response: the healthy server whose last check answered soonest.
use super::spec::views;
use crate::backend::server::{Server, ServerView};
use crate::error::LoadBalancerError;
use vstd::prelude::*;

verus! {

/// `a` is strictly preferred to `b`: a known response time beats an unknown
/// one, a shorter time beats a longer one, and between two unknown times the
/// server with fewer connections wins.
pub open spec fn responds_faster(a: ServerView, b: ServerView) -> bool {
    match (a.last_response_time, b.last_response_time) {
        (Some(ta), Some(tb)) => ta < tb,
        (Some(_), None) => true,
        (None, Some(_)) => false,
        (None, None) => a.active_connections < b.active_connections,
    }
}

/// `i` is the first of the most preferred healthy servers.
pub open spec fn is_fastest_pick(s: Seq<ServerView>, i: int) -> bool {
    &&& 0 <= i < s.len()
    &&& s[i].is_healthy()
    &&& forall|j: int| 0 <= j < i && s[j].is_healthy() ==> responds_faster(s[i], #[trigger] s[j])
    &&& forall|j: int| 0 <= j < s.len() && s[j].is_healthy() ==> !responds_faster(#[trigger] s[j], s[i])
}

/// What a fastest response selection returns.
pub open spec fn fastest_selected(servers: Seq<Server>, r: Result<Server, LoadBalancerError>) -> bool {
    &&& r is Err <==> (forall|j: int| 0 <= j < servers.len() ==> !(#[trigger] servers[j])@.is_healthy())
    &&& r is Err ==> r->Err_0 is NoHealthyBackends
    &&& r is Ok ==> exists|i: int| is_fastest_pick(views(servers), i) && r->Ok_0@ == #[trigger] servers[i]@
}

pub struct FastestResponseSelector;

fn faster(a: &Server, b: &Server) -> (r: bool)
    ensures
        r == responds_faster(a@, b@),
{
    match (a.last_response_time(), b.last_response_time()) {
        (Some(ta), Some(tb)) => ta < tb,
        (Some(_), None) => true,
        (None, Some(_)) => false,
        (None, None) => a.connection_count() < b.connection_count(),
    }
}

impl FastestResponseSelector {
    pub fn new() -> Self {
        FastestResponseSelector
    }

    /// Among the healthy servers, the first with the shortest known response
    /// time (servers without one ranked after, by fewest connections).
    /// Refused when no server is healthy.
    pub fn select(&self, servers: &[Server]) -> (r: Result<Server, LoadBalancerError>)
        ensures
            fastest_selected(servers@, r),
    {
        let ghost s = views(servers@);
        let mut best: Option<usize> = None;
        let mut j: usize = 0;
        while j < servers.len()
            invariant
                s == views(servers@),
                j <= servers@.len(),
                best is None ==> forall|k: int| 0 <= k < j ==> !(#[trigger] s[k]).is_healthy(),
                best is Some ==> {
                    let b = best->0 as int;
                    &&& b < j
                    &&& s[b].is_healthy()
                    &&& forall|k: int| 0 <= k < b && s[k].is_healthy() ==> responds_faster(s[b], #[trigger] s[k])
                    &&& forall|k: int| 0 <= k < j && s[k].is_healthy() ==> !responds_faster(#[trigger] s[k], s[b])
                },
            decreases servers.len() - j,
        {
            if servers[j].is_healthy() {
                match best {
                    None => {
                        best = Some(j);
                    },
                    Some(b) => {
                        if faster(&servers[j], &servers[b]) {
                            best = Some(j);
                        }
                    },
                }
            }
            j = j + 1;
        }
        match best {
            None => {
                assert forall|k: int| 0 <= k < servers@.len() implies !(#[trigger] servers@[k])@.is_healthy() by {
                    assert(s[k] == servers@[k]@);
                }
                Err(LoadBalancerError::NoHealthyBackends)
            },
            Some(b) => {
                assert(is_fastest_pick(s, b as int));
                assert(servers@[b as int]@.is_healthy());
                Ok(servers[b].clone())
            },
        }
    }
}

impl Clone for FastestResponseSelector {
    fn clone(&self) -> Self {
        FastestResponseSelector
    }
}

impl Default for FastestResponseSelector {
    fn default() -> Self {
        Self::new()
    }
}

} // verus!
