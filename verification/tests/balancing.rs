use ultrabalancer::backend::server::Server;
use ultrabalancer::balancer::algorithms::fastest_response::FastestResponseSelector;
use ultrabalancer::balancer::algorithms::ip_hash::IpHashSelector;
use ultrabalancer::balancer::algorithms::least_connections::LeastConnectionsSelector;
use ultrabalancer::balancer::algorithms::power_of_two::PowerOfTwoSelector;
use ultrabalancer::balancer::algorithms::random::RandomSelector;
use ultrabalancer::balancer::algorithms::round_robin::RoundRobinSelector;
use ultrabalancer::balancer::algorithms::weighted::WeightedRoundRobinSelector;
use ultrabalancer::balancer::selector::{Algorithm, LoadBalancerSelector};
use ultrabalancer::error::LoadBalancerError;

fn servers(weights: &[u32]) -> Vec<Server> {
    weights.iter().enumerate().map(|(i, w)| Server::new(format!("h{}", i), 80, *w)).collect()
}

fn ids(picks: &[Server]) -> Vec<String> {
    picks.iter().map(|s| s.id().clone()).collect()
}

#[test]
fn round_robin_visits_each_in_turn() {
    let list = servers(&[1, 1, 1]);
    let mut rr = RoundRobinSelector::new();
    let picks: Vec<Server> = (0..6).map(|_| rr.select(&list).unwrap()).collect();
    assert_eq!(ids(&picks), vec!["h0:80", "h1:80", "h2:80", "h0:80", "h1:80", "h2:80"]);
    assert!(matches!(rr.select(&[]), Err(LoadBalancerError::NoHealthyBackends)));
}

#[test]
fn weighted_round_robin_sequences() {
    let list = servers(&[5, 1, 1]);
    let mut w = WeightedRoundRobinSelector::new();
    let picks: Vec<Server> = (0..7).map(|_| w.select(&list).unwrap()).collect();
    assert_eq!(ids(&picks), vec!["h1:80", "h2:80", "h0:80", "h0:80", "h0:80", "h0:80", "h0:80"]);

    let list = servers(&[3, 1]);
    let mut w = WeightedRoundRobinSelector::new();
    let picks: Vec<Server> = (0..8).map(|_| w.select(&list).unwrap()).collect();
    assert_eq!(ids(&picks), vec!["h1:80", "h0:80", "h0:80", "h0:80", "h1:80", "h0:80", "h0:80", "h0:80"]);
}

#[test]
fn weighted_round_robin_skips_zero_weights() {
    let list = servers(&[2, 0, 1]);
    let mut w = WeightedRoundRobinSelector::new();
    let picks: Vec<Server> = (0..6).map(|_| w.select(&list).unwrap()).collect();
    assert_eq!(ids(&picks), vec!["h1:80", "h2:80", "h0:80", "h0:80", "h2:80", "h0:80"]);
}

#[test]
fn weighted_round_robin_all_zero_is_plain_turns() {
    let list = servers(&[0, 0]);
    let mut w = WeightedRoundRobinSelector::new();
    let picks: Vec<Server> = (0..3).map(|_| w.select(&list).unwrap()).collect();
    assert_eq!(ids(&picks), vec!["h0:80", "h1:80", "h0:80"]);
}

#[test]
fn least_connections_prefers_fewest_then_weight() {
    let mut list = servers(&[1, 5, 1]);
    list[0].increment_connections();
    list[1].increment_connections();
    let sel = LeastConnectionsSelector::new();
    assert_eq!(sel.select(&list).unwrap().id(), "h2:80");
    list[2].increment_connections();
    assert_eq!(sel.select(&list).unwrap().id(), "h1:80");
    assert!(sel.select(&[]).is_err());
}

#[test]
fn fastest_response_prefers_known_short_times() {
    let mut list = servers(&[1, 1, 1]);
    list[0].set_response_time(300);
    list[1].set_response_time(100);
    let sel = FastestResponseSelector::new();
    assert_eq!(sel.select(&list).unwrap().id(), "h1:80");
    list[1].mark_unhealthy();
    assert_eq!(sel.select(&list).unwrap().id(), "h0:80");
    let mut down = servers(&[1]);
    down[0].mark_unhealthy();
    assert!(matches!(sel.select(&down), Err(LoadBalancerError::NoHealthyBackends)));
}

#[test]
fn ip_hash_is_stable_and_follows_the_hash() {
    let list = servers(&[1, 1, 1]);
    let sel = IpHashSelector::new();
    let a = sel.select(&list, "192.168.1.7").unwrap();
    let b = sel.select(&list, "192.168.1.7").unwrap();
    assert_eq!(a.id(), b.id());
    assert_eq!(sel.select_by_hash(&list, 7).unwrap().id(), "h1:80");
    assert_eq!(sel.select_by_hash(&list, 9).unwrap().id(), "h0:80");
    let h = xxhash_rust::xxh3::xxh3_64(b"192.168.1.7");
    assert_eq!(a.id(), sel.select_by_hash(&list, h).unwrap().id());
}

#[test]
fn random_and_power_of_two_choose_among_the_list() {
    let list = servers(&[1, 1, 1, 1]);
    let r = RandomSelector::new();
    for _ in 0..20 {
        let s = r.select(&list).unwrap();
        assert!(ids(&list).contains(s.id()));
    }
    assert_eq!(r.select_at(&list, 2).id(), "h2:80");
    let p = PowerOfTwoSelector::new();
    let mut loaded = servers(&[1, 1]);
    loaded[0].increment_connections();
    assert_eq!(p.pick_less_loaded(&loaded, 0, 1).id(), "h1:80");
    assert_eq!(p.pick_less_loaded(&loaded, 1, 0).id(), "h1:80");
    for _ in 0..20 {
        assert_eq!(p.select(&loaded).unwrap().id(), "h1:80");
    }
    let single = servers(&[1]);
    assert_eq!(p.select(&single).unwrap().id(), "h0:80");
    assert!(p.select(&[]).is_err());
}

#[test]
fn algorithm_names_round_trip() {
    for a in [
        Algorithm::RoundRobin,
        Algorithm::LeastConnections,
        Algorithm::IpHash,
        Algorithm::Random,
        Algorithm::WeightedRoundRobin,
        Algorithm::PowerOfTwo,
        Algorithm::FastestResponse,
    ] {
        assert_eq!(Algorithm::from_str(a.as_str()), Some(a));
    }
    assert_eq!(Algorithm::from_str("LC"), Some(Algorithm::LeastConnections));
    assert_eq!(Algorithm::from_str("Round-Robin"), Some(Algorithm::RoundRobin));
    assert_eq!(Algorithm::from_name("Round-Robin"), None);
    assert_eq!(Algorithm::from_str("bogus"), None);
    assert_eq!(Algorithm::WeightedRoundRobin.as_str(), "weighted");
}

#[test]
fn selector_dispatches_to_the_algorithm() {
    let list = servers(&[1, 1]);
    let mut s = LoadBalancerSelector::new(Algorithm::RoundRobin);
    assert_eq!(s.select(&list, None).unwrap().id(), "h0:80");
    assert_eq!(s.select(&list, None).unwrap().id(), "h1:80");
    let mut h = LoadBalancerSelector::new(Algorithm::IpHash);
    let x = h.select(&list, None).unwrap();
    let y = IpHashSelector::new().select(&list, "0.0.0.0").unwrap();
    assert_eq!(x.id(), y.id());
    assert!(matches!(s.select(&[], None), Err(LoadBalancerError::NoHealthyBackends)));
}
