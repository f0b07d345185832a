//! Why the builder rejected a configuration. All of these stop startup.

use vstd::prelude::*;

use crate::plugins::errors::PluginError;

verus! {

#[derive(Debug)]
pub enum BuilderError {
    /// A route names a cluster that the service does not declare.
    LackConfig { name: String },
    /// A plugin of a route or of the service could not be built.
    PluginBuild { name: String, source: PluginError },
    /// A route has no URI matcher.
    LackUri { name: String },
    /// A route's regular expression does not compile.
    Regexp { re: String, message: String },
    /// The path router refused a route.
    InsertRoute { path: String, message: String },
}

} // verus!
