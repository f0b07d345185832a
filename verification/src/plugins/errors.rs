//! Why a plugin could not be built. All of these are reported at build
//! time; none occurs while a request is served.

use vstd::prelude::*;

verus! {

#[derive(Debug)]
pub enum PluginError {
    /// The requested name is not in the plugin registry.
    UnknownPlugin { name: String },
    /// The parsed configuration breaks a validation rule.
    ValidateErr { name: String, message: String },
    /// The configuration fragment does not have the expected shape.
    YamlErr { name: String, message: String },
    /// The plugin needs a configuration fragment and none was given.
    LackPluginConfig { name: String },
    /// A plugin-specific construction error.
    SpecificErr { name: String, message: String },
}

} // verus!
