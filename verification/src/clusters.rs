//! The cluster manager: builds one load-balancing spec per configured
//! cluster and answers name lookups from request handling.

use vstd::prelude::*;
use vstd::string::*;

pub mod discovery;
pub mod errors;

use crate::config::def::{Cluster, LbPolicy, ResolverType};
use crate::config::value::ConfValue;
use crate::utils::str_eq;
use discovery::{spec_static_built, spec_static_config_bad, DnsDiscovery, StaticDiscovery};
use errors::ClusterError;

verus! {

/// The resolver kinds initialized at startup.
#[derive(Clone, Copy, PartialEq, Eq, Structural)]
pub struct ResolverRegistry {
    pub dns: bool,
}

/// What a cluster uses to find its backends.
pub enum DiscoverySpec {
    Dns(DnsDiscovery),
    Static(StaticDiscovery),
}

/// One built cluster: its balancing policy and its discovery source.
pub struct ClusterSpec {
    pub policy: LbPolicy,
    pub discovery: DiscoverySpec,
}

/// The host of a DNS discovery record.
pub open spec fn spec_dns_host(c: ConfValue) -> Option<Seq<char>> {
    match c.spec_get("host"@) {
        Some(v) => match v {
            ConfValue::Str(s) => Some(s@),
            _ => None,
        },
        None => None,
    }
}

/// The port of a DNS discovery record.
pub open spec fn spec_dns_port(c: ConfValue) -> Option<int> {
    match c.spec_get("port"@) {
        Some(v) => match v {
            ConfValue::Int(n) => if 0 <= n <= u16::MAX {
                Some(n as int)
            } else {
                None
            },
            _ => None,
        },
        None => None,
    }
}

/// A successfully built cluster, related to its configuration record.
pub open spec fn spec_cluster_built(c: Cluster, s: ClusterSpec) -> bool {
    &&& s.policy == c.lb_policy
    &&& match c.resolver {
        ResolverType::DNS => {
            &&& c.config matches Some(v)
            &&& s.discovery matches DiscoverySpec::Dns(d)
            &&& spec_dns_host(c.config.unwrap()) == Some(d.name@)
            &&& spec_dns_port(c.config.unwrap()) == Some(d.port as int)
        },
        ResolverType::Static => {
            &&& s.discovery matches DiscoverySpec::Static(sd)
            &&& spec_static_built(c.config, sd)
        },
    }
}

/// Every configured cluster built, in order, under its name.
pub open spec fn spec_clusters_built(cfgs: Seq<Cluster>, m: ClusterManager) -> bool {
    &&& m.clusters@.len() == cfgs.len()
    &&& forall|i: int|
        0 <= i < cfgs.len() ==> ((#[trigger] m.clusters@[i]).0@ == cfgs[i].name@
            && spec_cluster_built(cfgs[i], m.clusters@[i].1))
}

/// The error a cluster build reports, related to the configurations.
pub open spec fn spec_clusters_err(
    cfgs: Seq<Cluster>,
    resolvers: ResolverRegistry,
    e: ClusterError,
) -> bool {
    match e {
        ClusterError::UnknownResolver { resolver } => !resolvers.dns && exists|i: int|
            0 <= i < cfgs.len() && (#[trigger] cfgs[i].resolver) is DNS,
        ClusterError::LackConfig { name } => exists|i: int|
            0 <= i < cfgs.len() && (#[trigger] cfgs[i].config) is None,
        ClusterError::DiscoveryConfig { name, message } => exists|i: int|
            0 <= i < cfgs.len() && (#[trigger] cfgs[i].resolver) is DNS && (
            cfgs[i].config matches Some(v) && (spec_dns_host(v) is None || spec_dns_port(
                v,
            ) is None)),
        ClusterError::StaticConfig { name, message } => exists|i: int|
            0 <= i < cfgs.len() && (#[trigger] cfgs[i].resolver) is Static && (
            cfgs[i].config matches Some(v) && spec_static_config_bad(v)),
        _ => false,
    }
}

/// The cluster bound to `name`: the latest insertion wins, as in a map
/// filled in configuration order.
pub open spec fn spec_lookup_cluster(
    entries: Seq<(String, ClusterSpec)>,
    name: Seq<char>,
) -> Option<ClusterSpec>
    decreases entries.len(),
{
    if entries.len() == 0 {
        None
    } else if entries.last().0@ == name {
        Some(entries.last().1)
    } else {
        spec_lookup_cluster(entries.drop_last(), name)
    }
}

/// Maps each configured cluster name to its load-balancing spec.
/// Read-only after startup.
pub struct ClusterManager {
    pub clusters: Vec<(String, ClusterSpec)>,
}

impl ClusterManager {
    pub open spec fn spec_get_cluster(&self, name: Seq<char>) -> Option<ClusterSpec> {
        spec_lookup_cluster(self.clusters@, name)
    }

    pub open spec fn contains_cluster(&self, name: Seq<char>) -> bool {
        self.spec_get_cluster(name) is Some
    }

    /// Builds every configured cluster; the first failure aborts the
    /// build with its cause.
    pub fn new(cfgs: Vec<Cluster>, resolvers: &ResolverRegistry) -> (r: Result<
        ClusterManager,
        ClusterError,
    >)
        ensures
            match r {
                Ok(m) => spec_clusters_built(cfgs@, m) && (forall|i: int|
                    0 <= i < cfgs@.len() && (#[trigger] cfgs@[i].resolver) is DNS
                        ==> resolvers.dns),
                Err(e) => spec_clusters_err(cfgs@, *resolvers, e),
            },
    {
        let mut rest = cfgs;
        let ghost all = rest@;
        let mut clusters: Vec<(String, ClusterSpec)> = Vec::new();
        proof {
            assert(all.skip(0) =~= all);
        }
        while rest.len() > 0
            invariant
                all == cfgs@,
                clusters@.len() + rest@.len() == all.len(),
                rest@ =~= all.skip(clusters@.len() as int),
                forall|i: int|
                    0 <= i < clusters@.len() ==> ((#[trigger] clusters@[i]).0@ == all[i].name@
                        && spec_cluster_built(all[i], clusters@[i].1)),
                forall|i: int|
                    0 <= i < clusters@.len() && (#[trigger] all[i].resolver) is DNS
                        ==> resolvers.dns,
            decreases rest@.len(),
        {
            let ghost k = clusters@.len() as int;
            proof {
                assert(rest@[0] == all[k]);
            }
            let c = rest.remove(0);
            match c.resolver {
                ResolverType::DNS => {
                    if !resolvers.dns {
                        return Err(ClusterError::UnknownResolver { resolver: c.resolver });
                    }
                    let conf = match c.config {
                        Some(v) => v,
                        None => {
                            return Err(ClusterError::LackConfig { name: c.name });
                        },
                    };
                    let host: String = match conf.get("host") {
                        Some(v) => match v.as_str() {
                            Some(s) => s.clone(),
                            None => {
                                return Err(
                                    ClusterError::DiscoveryConfig {
                                        name: c.name,
                                        message: "host must be a string".to_owned(),
                                    },
                                );
                            },
                        },
                        None => {
                            return Err(
                                ClusterError::DiscoveryConfig {
                                    name: c.name,
                                    message: "missing field host".to_owned(),
                                },
                            );
                        },
                    };
                    let port: u16 = match conf.get("port") {
                        Some(v) => match v.as_int() {
                            Some(n) => if 0 <= n && n <= u16::MAX as i64 {
                                n as u16
                            } else {
                                return Err(
                                    ClusterError::DiscoveryConfig {
                                        name: c.name,
                                        message: "port does not fit".to_owned(),
                                    },
                                );
                            },
                            None => {
                                return Err(
                                    ClusterError::DiscoveryConfig {
                                        name: c.name,
                                        message: "port must be a number".to_owned(),
                                    },
                                );
                            },
                        },
                        None => {
                            return Err(
                                ClusterError::DiscoveryConfig {
                                    name: c.name,
                                    message: "missing field port".to_owned(),
                                },
                            );
                        },
                    };
                    let discovery = DnsDiscovery::new(host, port);
                    clusters.push(
                        (
                            c.name,
                            ClusterSpec {
                                policy: c.lb_policy,
                                discovery: DiscoverySpec::Dns(discovery),
                            },
                        ),
                    );
                },
                ResolverType::Static => {
                    let discovery = match StaticDiscovery::new(c.config) {
                        Ok(d) => d,
                        Err(e) => {
                            let renamed = match e {
                                ClusterError::LackConfig { name: _ } => ClusterError::LackConfig {
                                    name: c.name,
                                },
                                ClusterError::StaticConfig { name: _, message } => (
                                ClusterError::StaticConfig { name: c.name, message }),
                                other => other,
                            };
                            return Err(renamed);
                        },
                    };
                    clusters.push(
                        (
                            c.name,
                            ClusterSpec {
                                policy: c.lb_policy,
                                discovery: DiscoverySpec::Static(discovery),
                            },
                        ),
                    );
                },
            }
            proof {
                assert(all.skip(k).skip(1) =~= all.skip(k + 1));
            }
        }
        proof {
            assert(all.skip(all.len() as int).len() == 0);
        }
        Ok(ClusterManager { clusters })
    }

    /// The cluster bound to `name`, if any.
    pub fn get_cluster(&self, name: &str) -> (r: Option<&ClusterSpec>)
        ensures
            match r {
                Some(s) => self.spec_get_cluster(name@) == Some(*s),
                None => self.spec_get_cluster(name@) is None,
            },
    {
        let mut i: usize = self.clusters.len();
        proof {
            assert(self.clusters@.take(i as int) =~= self.clusters@);
        }
        while i > 0
            invariant
                i <= self.clusters@.len(),
                spec_lookup_cluster(self.clusters@, name@) == spec_lookup_cluster(
                    self.clusters@.take(i as int),
                    name@,
                ),
            decreases i,
        {
            i = i - 1;
            proof {
                assert(self.clusters@.take(i + 1).last() == self.clusters@[i as int]);
                assert(self.clusters@.take(i + 1).drop_last() =~= self.clusters@.take(i as int));
            }
            if str_eq(name, self.clusters[i].0.as_str()) {
                return Some(&self.clusters[i].1);
            }
        }
        None
    }
}

} // verus!
