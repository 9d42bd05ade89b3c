use praxis::balance::{LoadBalancerStrategy, SimpleStrategy, Strategy, WeightedEndpoint};
use std::sync::Arc;

use praxis::upstream::{ClusterTls, build_cluster_entry};

#[derive(Debug, PartialEq)]
struct ConnOpts {
    connect_timeout_ms: u64,
}

fn one_endpoint() -> Vec<WeightedEndpoint> {
    vec![WeightedEndpoint { address: "10.0.0.1:443".to_owned(), index: 0, weight: 1 }]
}

#[test]
fn sni_defaults_to_host_header() {
    let entry = build_cluster_entry(
        &LoadBalancerStrategy::Simple(SimpleStrategy::RoundRobin),
        one_endpoint(),
        Some(ClusterTls { sni: None }),
        ConnOpts { connect_timeout_ms: 500 },
    );
    assert_eq!(*entry.opts, ConnOpts { connect_timeout_ms: 500 });
    assert!(matches!(entry.strategy, Strategy::RoundRobin(_)));
    let up = entry.build_upstream("10.0.0.1:443".to_owned(), Some("api.example.com"));
    assert_eq!(up.address, "10.0.0.1:443");
    assert!(Arc::ptr_eq(&up.connection, &entry.opts), "upstream shares the entry's options");
    assert_eq!(up.tls.unwrap().sni.as_deref(), Some("api.example.com"));
    let up = entry.build_upstream("10.0.0.1:443".to_owned(), None);
    assert_eq!(up.tls.unwrap().sni, None);
}

#[test]
fn configured_sni_wins_and_plain_tcp_has_no_tls() {
    let entry = build_cluster_entry(
        &LoadBalancerStrategy::Simple(SimpleStrategy::LeastConnections),
        one_endpoint(),
        Some(ClusterTls { sni: Some("backend.internal".to_owned()) }),
        ConnOpts { connect_timeout_ms: 1 },
    );
    let up = entry.build_upstream("10.0.0.1:443".to_owned(), Some("api.example.com"));
    assert_eq!(up.tls.unwrap().sni.as_deref(), Some("backend.internal"));

    let plain = build_cluster_entry(
        &LoadBalancerStrategy::Simple(SimpleStrategy::RoundRobin),
        one_endpoint(),
        None,
        ConnOpts { connect_timeout_ms: 2 },
    );
    assert!(plain.build_upstream("10.0.0.1:80".to_owned(), Some("h")).tls.is_none());
}
