//! A cluster's resolved state (its load-balancing strategy and upstream
//! TLS settings) and the upstream built for a selected endpoint.

use std::sync::Arc;

use vstd::prelude::*;

use crate::balance::{LoadBalancerStrategy, Strategy, WeightedEndpoint, build_strategy, built_from};

verus! {

/// TLS settings for connections to a cluster's endpoints.
pub struct ClusterTls {
    /// The server name to present; when absent, the request's `Host`
    /// header is used.
    pub sni: Option<String>,
}

/// Where and how to connect for one request. `O` is the type of the
/// cluster's connection options.
pub struct Upstream<O> {
    /// The selected endpoint's address.
    pub address: String,
    /// TLS settings; `None` means plain TCP.
    pub tls: Option<ClusterTls>,
    /// The cluster's connection options, shared with its entry.
    pub connection: Arc<O>,
}

/// Resolved state for a single cluster. `O` is the type of the cluster's
/// connection options.
pub struct ClusterEntry<O> {
    /// Connection options derived from the cluster config, `Arc`-wrapped
    /// so that every request shares them without cloning.
    pub opts: Arc<O>,
    /// The load-balancing strategy for this cluster.
    pub strategy: Strategy,
    /// TLS settings for upstream connections. `None` means plain TCP.
    pub tls: Option<ClusterTls>,
}

/// `Arc::clone` from std: a new handle to the same shared value.
#[verifier::external_body]
fn share<O>(a: &Arc<O>) -> (r: Arc<O>)
    ensures
        r == *a,
{
    Arc::clone(a)
}

/// The server name used for a connection: the configured one, else the
/// request's `Host` header.
pub open spec fn effective_sni(configured: Option<String>, host: Option<&str>) -> Option<Seq<char>> {
    match configured {
        Some(s) => Some(s@),
        None => match host {
            Some(h) => Some(h@),
            None => None,
        },
    }
}

impl<O> ClusterEntry<O> {
    /// Build an `Upstream` for a selected address. `host` is the request's
    /// `Host` header when it is present and valid text; it becomes the
    /// server name when the cluster's TLS settings name none.
    pub fn build_upstream(&self, addr: String, host: Option<&str>) -> (u: Upstream<O>)
        ensures
            u.address == addr,
            u.connection == self.opts,
            u.tls is Some <==> self.tls is Some,
            u.tls matches Some(t) ==> (self.tls matches Some(c) && (t.sni is Some <==> effective_sni(
                c.sni,
                host,
            ) is Some) && (t.sni matches Some(s) ==> effective_sni(c.sni, host) == Some(s@))),
    {
        let tls = match &self.tls {
            Some(t) => {
                let sni = match &t.sni {
                    Some(s) => Some(s.clone()),
                    None => match host {
                        Some(h) => Some(h.to_owned()),
                        None => None,
                    },
                };
                Some(ClusterTls { sni })
            },
            None => None,
        };
        Upstream { address: addr, tls, connection: share(&self.opts) }
    }
}

/// Build a `ClusterEntry` from a cluster's strategy, endpoints, TLS
/// settings and connection options.
pub fn build_cluster_entry<O>(
    lb_strategy: &LoadBalancerStrategy,
    endpoints: Vec<WeightedEndpoint>,
    tls: Option<ClusterTls>,
    opts: O,
) -> (e: ClusterEntry<O>)
    ensures
        e.tls == tls,
        *e.opts == opts,
        built_from(e.strategy, *lb_strategy, endpoints@),
{
    let strategy = build_strategy(lb_strategy, endpoints);
    ClusterEntry { opts: Arc::new(opts), strategy, tls }
}

} // verus!
