//! Why a cluster could not be built or resolved. All but `ResolveIp` are
//! construction-time only.

use vstd::prelude::*;

use crate::config::def::ResolverType;

verus! {

#[derive(Debug)]
pub enum ClusterError {
    /// The static discovery record does not have the expected shape.
    StaticConfig { name: String, message: String },
    /// A resolver or discovery record is required and none was given.
    LackConfig { name: String },
    /// The DNS discovery record does not have the expected shape.
    DiscoveryConfig { name: String, message: String },
    /// A port is out of range or not a number.
    InvalidPort { port: String },
    /// An endpoint is not `ip:port`.
    InvalidEndpoints { ep: String },
    /// The cluster names a resolver kind that was not initialized.
    UnknownResolver { resolver: ResolverType },
    /// A name lookup failed.
    ResolveIp { name: String, message: String },
}

} // verus!
