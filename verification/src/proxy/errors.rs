//! Errors of the proxy: one for matcher construction, and the
//! per-request errors that end a single exchange.

use vstd::prelude::*;

verus! {

#[derive(Debug)]
pub enum ProxyErr {
    /// The route matcher could not be built.
    BuildMatcher { message: String },
}

/// A per-request failure: it ends the one exchange and is logged; the
/// server keeps serving.
#[derive(Debug)]
pub enum ProxyRuntimeErr {
    /// The request context carries no cluster name.
    NoCluster,
    /// The context's cluster name is not in the cluster manager.
    ConnectNoRoute,
    /// The cluster's balancer offered no backend.
    NoBackend { cluster: String },
}

} // verus!
