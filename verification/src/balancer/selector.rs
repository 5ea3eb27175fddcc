//! Choosing the selection algorithm by name, and dispatching to it.
use super::algorithms::fastest_response::{fastest_selected, FastestResponseSelector};
use super::algorithms::ip_hash::{hash_selected, xxh3_64_of, IpHashSelector};
use super::algorithms::least_connections::{least_connections_selected, LeastConnectionsSelector};
use super::algorithms::power_of_two::{power_of_two_selected, PowerOfTwoSelector};
use super::algorithms::random::{randomly_selected, RandomSelector};
use super::algorithms::round_robin::{round_robin_selected, RoundRobinSelector};
use super::algorithms::spec::views;
use super::algorithms::weighted::{weighted_selected, weights_in_range, WeightedRoundRobinSelector};
use crate::backend::server::Server;
use crate::error::LoadBalancerError;
use crate::text::{str_eq, to_lowercase, unicode_lowercase};
use vstd::prelude::*;
use vstd::string::StringSliceAdditionalSpecFns;

verus! {

#[derive(Debug, Clone, Copy, PartialEq, Eq, Structural)]
pub enum Algorithm {
    RoundRobin,
    LeastConnections,
    IpHash,
    Random,
    WeightedRoundRobin,
    PowerOfTwo,
    FastestResponse,
}

/// The algorithm that a lower-case name (or one of its short forms) stands for.
pub open spec fn algorithm_named(n: Seq<char>) -> Option<Algorithm> {
    if n == "round-robin"@ || n == "roundrobin"@ || n == "rr"@ {
        Some(Algorithm::RoundRobin)
    } else if n == "least-connections"@ || n == "leastconn"@ || n == "lc"@ {
        Some(Algorithm::LeastConnections)
    } else if n == "ip-hash"@ || n == "iphash"@ || n == "hash"@ {
        Some(Algorithm::IpHash)
    } else if n == "random"@ || n == "rand"@ {
        Some(Algorithm::Random)
    } else if n == "weighted"@ || n == "weighted-round-robin"@ || n == "wrr"@ {
        Some(Algorithm::WeightedRoundRobin)
    } else if n == "power-of-two"@ || n == "poweroftwo"@ || n == "pot"@ {
        Some(Algorithm::PowerOfTwo)
    } else if n == "fastest-response"@ || n == "fastest"@ || n == "fr"@ {
        Some(Algorithm::FastestResponse)
    } else {
        None
    }
}

/// The canonical name of an algorithm.
pub open spec fn algorithm_name(a: Algorithm) -> Seq<char> {
    match a {
        Algorithm::RoundRobin => "round-robin"@,
        Algorithm::LeastConnections => "least-connections"@,
        Algorithm::IpHash => "ip-hash"@,
        Algorithm::Random => "random"@,
        Algorithm::WeightedRoundRobin => "weighted"@,
        Algorithm::PowerOfTwo => "power-of-two"@,
        Algorithm::FastestResponse => "fastest-response"@,
    }
}

impl Algorithm {
    /// The algorithm that an already lower-cased name stands for.
    pub fn from_name(n: &str) -> (r: Option<Algorithm>)
        ensures
            r == algorithm_named(n@),
    {
        if str_eq(n, "round-robin") || str_eq(n, "roundrobin") || str_eq(n, "rr") {
            Some(Algorithm::RoundRobin)
        } else if str_eq(n, "least-connections") || str_eq(n, "leastconn") || str_eq(n, "lc") {
            Some(Algorithm::LeastConnections)
        } else if str_eq(n, "ip-hash") || str_eq(n, "iphash") || str_eq(n, "hash") {
            Some(Algorithm::IpHash)
        } else if str_eq(n, "random") || str_eq(n, "rand") {
            Some(Algorithm::Random)
        } else if str_eq(n, "weighted") || str_eq(n, "weighted-round-robin") || str_eq(n, "wrr") {
            Some(Algorithm::WeightedRoundRobin)
        } else if str_eq(n, "power-of-two") || str_eq(n, "poweroftwo") || str_eq(n, "pot") {
            Some(Algorithm::PowerOfTwo)
        } else if str_eq(n, "fastest-response") || str_eq(n, "fastest") || str_eq(n, "fr") {
            Some(Algorithm::FastestResponse)
        } else {
            None
        }
    }

    /// The algorithm a name stands for, case-insensitively.
    pub fn from_str(s: &str) -> (r: Option<Algorithm>)
        ensures
            r == algorithm_named(unicode_lowercase(s@)),
    {
        let lower = to_lowercase(s);
        Self::from_name(lower.as_str())
    }

    pub fn as_str(&self) -> (r: &'static str)
        ensures
            r@ == algorithm_name(*self),
    {
        match self {
            Algorithm::RoundRobin => "round-robin",
            Algorithm::LeastConnections => "least-connections",
            Algorithm::IpHash => "ip-hash",
            Algorithm::Random => "random",
            Algorithm::WeightedRoundRobin => "weighted",
            Algorithm::PowerOfTwo => "power-of-two",
            Algorithm::FastestResponse => "fastest-response",
        }
    }
}

/// Every algorithm is found again under its canonical name.
pub proof fn lemma_name_round_trip(a: Algorithm)
    ensures
        algorithm_named(algorithm_name(a)) == Some(a),
{
    reveal_strlit("round-robin");
    reveal_strlit("roundrobin");
    reveal_strlit("rr");
    reveal_strlit("least-connections");
    reveal_strlit("leastconn");
    reveal_strlit("lc");
    reveal_strlit("ip-hash");
    reveal_strlit("iphash");
    reveal_strlit("hash");
    reveal_strlit("random");
    reveal_strlit("rand");
    reveal_strlit("weighted");
    reveal_strlit("weighted-round-robin");
    reveal_strlit("wrr");
    reveal_strlit("power-of-two");
    reveal_strlit("poweroftwo");
    reveal_strlit("pot");
    reveal_strlit("fastest-response");
    reveal_strlit("fastest");
    reveal_strlit("fr");
    match a {
        Algorithm::RoundRobin => {},
        Algorithm::LeastConnections => {
            assert("least-connections"@.len() != "round-robin"@.len());
        },
        Algorithm::IpHash => {
            assert("ip-hash"@[0] != "round-robin"@[0]);
            assert("ip-hash"@[0] != "least-connections"@[0]);
        },
        Algorithm::Random => {
            assert("random"@[0] != "iphash"@[0]);
            assert("random"@[1] != "roundrobin"@[1]);
        },
        Algorithm::WeightedRoundRobin => {
            assert("weighted"@[0] != "leastconn"@[0]);
            assert("weighted"@[0] != "roundrobin"@[0]);
        },
        Algorithm::PowerOfTwo => {
            assert("power-of-two"@[0] != "round-robin"@[0]);
            assert("power-of-two"@[0] != "least-connections"@[0]);
            assert("power-of-two"@[0] != "weighted-round-robin"@[0]);
        },
        Algorithm::FastestResponse => {
            assert("fastest-response"@[0] != "least-connections"@[0]);
            assert("fastest-response"@[0] != "power-of-two"@[0]);
            assert("fastest-response"@[0] != "weighted-round-robin"@[0]);
        },
    }
}

/// One selector of the configured algorithm, with whatever state it keeps.
pub enum LoadBalancerSelector {
    RoundRobin(RoundRobinSelector),
    LeastConnections(LeastConnectionsSelector),
    IpHash(IpHashSelector),
    Random(RandomSelector),
    WeightedRoundRobin(WeightedRoundRobinSelector),
    PowerOfTwo(PowerOfTwoSelector),
    FastestResponse(FastestResponseSelector),
}

/// The address IP hashing uses when the client's is unknown.
pub open spec fn hashed_address(client_ip: Option<&str>) -> Seq<u8> {
    match client_ip {
        Some(ip) => ip.spec_bytes(),
        None => "0.0.0.0".spec_bytes(),
    }
}

impl LoadBalancerSelector {
    pub open spec fn algorithm(&self) -> Algorithm {
        match self {
            LoadBalancerSelector::RoundRobin(_) => Algorithm::RoundRobin,
            LoadBalancerSelector::LeastConnections(_) => Algorithm::LeastConnections,
            LoadBalancerSelector::IpHash(_) => Algorithm::IpHash,
            LoadBalancerSelector::Random(_) => Algorithm::Random,
            LoadBalancerSelector::WeightedRoundRobin(_) => Algorithm::WeightedRoundRobin,
            LoadBalancerSelector::PowerOfTwo(_) => Algorithm::PowerOfTwo,
            LoadBalancerSelector::FastestResponse(_) => Algorithm::FastestResponse,
        }
    }

    /// A fresh selector for the algorithm.
    pub fn new(algorithm: Algorithm) -> (s: Self)
        ensures
            s.algorithm() == algorithm,
            s matches LoadBalancerSelector::RoundRobin(rr) ==> rr.counter() == 0,
            s matches LoadBalancerSelector::WeightedRoundRobin(w) ==> w.position() == 0 && w.level()
                == 0,
    {
        match algorithm {
            Algorithm::RoundRobin => LoadBalancerSelector::RoundRobin(RoundRobinSelector::new()),
            Algorithm::LeastConnections => LoadBalancerSelector::LeastConnections(
                LeastConnectionsSelector::new(),
            ),
            Algorithm::IpHash => LoadBalancerSelector::IpHash(IpHashSelector::new()),
            Algorithm::Random => LoadBalancerSelector::Random(RandomSelector::new()),
            Algorithm::WeightedRoundRobin => LoadBalancerSelector::WeightedRoundRobin(
                WeightedRoundRobinSelector::new(),
            ),
            Algorithm::PowerOfTwo => LoadBalancerSelector::PowerOfTwo(PowerOfTwoSelector::new()),
            Algorithm::FastestResponse => LoadBalancerSelector::FastestResponse(
                FastestResponseSelector::new(),
            ),
        }
    }

    /// Selects a server with the configured algorithm. IP hashing uses the
    /// client address, `0.0.0.0` when it is unknown.
    pub fn select(&mut self, servers: &[Server], client_ip: Option<&str>) -> (r: Result<
        Server,
        LoadBalancerError,
    >)
        requires
            old(self).algorithm() == Algorithm::WeightedRoundRobin ==> weights_in_range(views(servers@)),
        ensures
            final(self).algorithm() == old(self).algorithm(),
            match (*old(self), *final(self)) {
                (LoadBalancerSelector::RoundRobin(a), LoadBalancerSelector::RoundRobin(b)) => round_robin_selected(
                    servers@,
                    a.counter(),
                    b.counter(),
                    r,
                ),
                (LoadBalancerSelector::WeightedRoundRobin(a), LoadBalancerSelector::WeightedRoundRobin(b)) => weighted_selected(
                    servers@,
                    a.position(),
                    a.level(),
                    b.position(),
                    b.level(),
                    r,
                ),
                (LoadBalancerSelector::LeastConnections(_), _) => least_connections_selected(servers@, r),
                (LoadBalancerSelector::IpHash(_), _) => hash_selected(
                    servers@,
                    xxh3_64_of(hashed_address(client_ip)),
                    r,
                ),
                (LoadBalancerSelector::Random(_), _) => randomly_selected(servers@, r),
                (LoadBalancerSelector::PowerOfTwo(_), _) => power_of_two_selected(servers@, r),
                (LoadBalancerSelector::FastestResponse(_), _) => fastest_selected(servers@, r),
                _ => false,
            },
    {
        match self {
            LoadBalancerSelector::RoundRobin(selector) => selector.select(servers),
            LoadBalancerSelector::LeastConnections(selector) => selector.select(servers),
            LoadBalancerSelector::IpHash(selector) => {
                let ip = match client_ip {
                    Some(ip) => ip,
                    None => "0.0.0.0",
                };
                selector.select(servers, ip)
            },
            LoadBalancerSelector::Random(selector) => selector.select(servers),
            LoadBalancerSelector::WeightedRoundRobin(selector) => selector.select(servers),
            LoadBalancerSelector::PowerOfTwo(selector) => selector.select(servers),
            LoadBalancerSelector::FastestResponse(selector) => selector.select(servers),
        }
    }
}

} // verus!
