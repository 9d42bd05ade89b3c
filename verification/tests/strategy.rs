use praxis::balance::{
    ClusterHealthState, ConsistentHash, ConsistentHashOpts, LeastConnections, LoadBalancerStrategy,
    ParameterisedStrategy, RoundRobin, SimpleStrategy, Strategy, WeightedEndpoint, build_strategy,
};

/// Build a two-endpoint list for strategy tests.
fn make_endpoints() -> Vec<WeightedEndpoint> {
    vec![
        WeightedEndpoint {
            address: "10.0.0.1:80".to_owned(),
            index: 0,
            weight: 1,
        },
        WeightedEndpoint {
            address: "10.0.0.2:80".to_owned(),
            index: 1,
            weight: 1,
        },
    ]
}

fn in_flight(strategy: &Strategy, addr: &str) -> usize {
    match strategy {
        Strategy::LeastConnections(lc) => lc.in_flight(addr).unwrap(),
        _ => panic!("expected LeastConnections variant"),
    }
}

#[test]
fn build_strategy_round_robin() {
    let strategy = build_strategy(
        &LoadBalancerStrategy::Simple(SimpleStrategy::RoundRobin),
        make_endpoints(),
    );
    assert!(
        matches!(strategy, Strategy::RoundRobin(_)),
        "SimpleStrategy::RoundRobin should produce Strategy::RoundRobin"
    );
}

#[test]
fn build_strategy_least_connections() {
    let strategy = build_strategy(
        &LoadBalancerStrategy::Simple(SimpleStrategy::LeastConnections),
        make_endpoints(),
    );
    assert!(
        matches!(strategy, Strategy::LeastConnections(_)),
        "SimpleStrategy::LeastConnections should produce Strategy::LeastConnections"
    );
}

#[test]
fn build_strategy_consistent_hash() {
    let strategy = build_strategy(
        &LoadBalancerStrategy::Parameterised(ParameterisedStrategy::ConsistentHash(ConsistentHashOpts {
            header: Some("X-Session".to_owned()),
        })),
        make_endpoints(),
    );
    assert!(
        matches!(strategy, Strategy::ConsistentHash(_)),
        "ParameterisedStrategy::ConsistentHash should produce Strategy::ConsistentHash"
    );
    if let Strategy::ConsistentHash(ch) = &strategy {
        assert_eq!(ch.header(), Some("X-Session"));
    }
}

#[test]
fn release_round_robin_is_noop() {
    let mut strategy = build_strategy(
        &LoadBalancerStrategy::Simple(SimpleStrategy::RoundRobin),
        make_endpoints(),
    );
    strategy.release("10.0.0.1:80");
    assert_eq!(strategy.select(None, None).as_deref(), Some("10.0.0.1:80"));
}

#[test]
fn release_consistent_hash_is_noop() {
    let mut strategy = build_strategy(
        &LoadBalancerStrategy::Parameterised(ParameterisedStrategy::ConsistentHash(ConsistentHashOpts {
            header: None,
        })),
        make_endpoints(),
    );
    let before = strategy.select(Some("/path"), None);
    strategy.release("10.0.0.1:80");
    assert_eq!(strategy.select(Some("/path"), None), before);
}

#[test]
fn release_least_connections_decrements() {
    let mut strategy = build_strategy(
        &LoadBalancerStrategy::Simple(SimpleStrategy::LeastConnections),
        make_endpoints(),
    );
    strategy.select(None, None);
    let before = in_flight(&strategy, "10.0.0.1:80");
    strategy.release("10.0.0.1:80");
    let after = in_flight(&strategy, "10.0.0.1:80");
    assert_eq!(
        after,
        before.saturating_sub(1),
        "release should decrement in-flight counter"
    );
}

#[test]
fn select_round_robin_returns_some() {
    let mut strategy = build_strategy(
        &LoadBalancerStrategy::Simple(SimpleStrategy::RoundRobin),
        make_endpoints(),
    );
    assert!(
        strategy.select(None, None).is_some(),
        "RoundRobin select should return Some with healthy endpoints"
    );
}

#[test]
fn select_least_connections_returns_some() {
    let mut strategy = build_strategy(
        &LoadBalancerStrategy::Simple(SimpleStrategy::LeastConnections),
        make_endpoints(),
    );
    assert!(
        strategy.select(None, None).is_some(),
        "LeastConnections select should return Some with healthy endpoints"
    );
}

#[test]
fn select_consistent_hash_returns_some() {
    let mut strategy = build_strategy(
        &LoadBalancerStrategy::Parameterised(ParameterisedStrategy::ConsistentHash(ConsistentHashOpts {
            header: None,
        })),
        make_endpoints(),
    );
    assert!(
        strategy.select(Some("/path"), None).is_some(),
        "ConsistentHash select should return Some with healthy endpoints"
    );
}

#[test]
fn round_robin_respects_weights_and_cycles() {
    let eps = vec![
        WeightedEndpoint { address: "a".to_owned(), index: 0, weight: 2 },
        WeightedEndpoint { address: "b".to_owned(), index: 1, weight: 1 },
        WeightedEndpoint { address: "z".to_owned(), index: 2, weight: 0 },
    ];
    let mut rr = RoundRobin::new(eps);
    let picks: Vec<String> = (0..6).map(|_| rr.select(None).unwrap()).collect();
    assert_eq!(picks, vec!["a", "a", "b", "a", "a", "b"]);
}

#[test]
fn round_robin_skips_unhealthy_and_reports_none() {
    let mut rr = RoundRobin::new(make_endpoints());
    let only_second = ClusterHealthState { healthy: vec![false, true] };
    assert_eq!(rr.select(Some(&only_second)).as_deref(), Some("10.0.0.2:80"));
    assert_eq!(rr.select(Some(&only_second)).as_deref(), Some("10.0.0.2:80"));
    let none = ClusterHealthState { healthy: vec![false, false] };
    assert_eq!(rr.select(Some(&none)), None);
    let mut empty = RoundRobin::new(vec![]);
    assert_eq!(empty.select(None), None);
}

#[test]
fn least_connections_balances_and_releases() {
    let mut lc = LeastConnections::new(make_endpoints());
    assert_eq!(lc.select(None), "10.0.0.1:80");
    assert_eq!(lc.select(None), "10.0.0.2:80");
    assert_eq!(lc.select(None), "10.0.0.1:80");
    assert_eq!(lc.in_flight("10.0.0.1:80"), Some(2));
    lc.release("10.0.0.1:80");
    lc.release("10.0.0.1:80");
    lc.release("10.0.0.1:80");
    assert_eq!(lc.in_flight("10.0.0.1:80"), Some(0));
    lc.release("10.9.9.9:80");
    assert_eq!(lc.in_flight("10.9.9.9:80"), None);
    assert_eq!(lc.select(None), "10.0.0.1:80");
}

#[test]
fn least_connections_prefers_healthy_then_falls_back() {
    let mut lc = LeastConnections::new(make_endpoints());
    let second_only = ClusterHealthState { healthy: vec![false, true] };
    assert_eq!(lc.select(Some(&second_only)), "10.0.0.2:80");
    assert_eq!(lc.select(Some(&second_only)), "10.0.0.2:80");
    let none = ClusterHealthState { healthy: vec![false, false] };
    assert_eq!(lc.select(Some(&none)), "10.0.0.1:80");
}

#[test]
fn consistent_hash_is_stable_per_key() {
    let ch = ConsistentHash::new(make_endpoints(), None);
    let first = ch.select(Some("user-42"), None);
    for _ in 0..5 {
        assert_eq!(ch.select(Some("user-42"), None), first);
    }
    // The home of the empty key is the first endpoint.
    assert_eq!(ch.select(None, None), "10.0.0.1:80");
    assert_eq!(ch.select(Some(""), None), "10.0.0.1:80");
    // "a" hashes to 97, an odd number: the second of two endpoints.
    assert_eq!(ch.select(Some("a"), None), "10.0.0.2:80");
    let second_down = ClusterHealthState { healthy: vec![true, false] };
    assert_eq!(ch.select(Some("a"), Some(&second_down)), "10.0.0.1:80");
    let all_down = ClusterHealthState { healthy: vec![false, false] };
    assert_eq!(ch.select(Some("a"), Some(&all_down)), "10.0.0.2:80");
}
