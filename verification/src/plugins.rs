use vstd::prelude::*;

pub mod cms_rate;
pub mod echo;
pub mod errors;

use crate::config::value::ConfValue;
use crate::api::plugin::Plugin;
use crate::utils::str_eq;
use cms_rate::{create_cms_rate_limiter, spec_cms_built, spec_cms_err, spec_cms_ok,
    CMS_RATE_PLUGIN_NAME};
use echo::{create_echo_plugin, spec_echo_built, spec_echo_err, spec_echo_ok, ECHO_PLUGIN_NAME};
use errors::PluginError;

verus! {

/// The plugin registry: the names under which a plugin can be built.
pub open spec fn spec_registry_contains(name: Seq<char>) -> bool {
    name == "echo"@ || name == "cms_rate"@
}

/// A plugin configuration entry the registry can build: a registered
/// name with a fragment its builder accepts.
pub open spec fn spec_plugin_buildable(cfgp: crate::config::def::Plugin) -> bool {
    if cfgp.name@ == "echo"@ {
        spec_echo_ok(cfgp.config)
    } else if cfgp.name@ == "cms_rate"@ {
        spec_cms_ok(cfgp.config)
    } else {
        false
    }
}

/// The error building one plugin entry reports.
pub open spec fn spec_plugin_build_err(cfgp: crate::config::def::Plugin, e: PluginError) -> bool {
    if !spec_registry_contains(cfgp.name@) {
        e matches PluginError::UnknownPlugin { name: n } && n@ == cfgp.name@
    } else if cfgp.name@ == "echo"@ {
        spec_echo_err(cfgp.config, e)
    } else {
        spec_cms_err(cfgp.config, e)
    }
}

/// Builds the plugin registered under `name` from its configuration
/// fragment; an unregistered name is refused.
pub fn create_plugin_builder(name: &str, cfg: Option<ConfValue>) -> (r: Result<Plugin, PluginError>)
    ensures
        match r {
            Ok(p) => spec_registry_contains(name@) && (match p {
                Plugin::Echo(ep) => name@ == "echo"@ && spec_echo_built(cfg, ep),
                Plugin::CmsRate(cp) => name@ == "cms_rate"@ && spec_cms_built(cfg, cp),
            }),
            Err(e) => match e {
                PluginError::UnknownPlugin { name: n } => !spec_registry_contains(name@) && n@
                    == name@,
                _ => (name@ == "echo"@ && spec_echo_err(cfg, e)) || (name@ == "cms_rate"@
                    && spec_cms_err(cfg, e)),
            },
        },
{
    if str_eq(name, ECHO_PLUGIN_NAME) {
        match create_echo_plugin(cfg) {
            Ok(p) => Ok(Plugin::Echo(p)),
            Err(e) => Err(e),
        }
    } else if str_eq(name, CMS_RATE_PLUGIN_NAME) {
        match create_cms_rate_limiter(cfg) {
            Ok(p) => Ok(Plugin::CmsRate(p)),
            Err(e) => Err(e),
        }
    } else {
        Err(PluginError::UnknownPlugin { name: name.to_owned() })
    }
}

} // verus!
