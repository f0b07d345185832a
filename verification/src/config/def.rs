//! The validated configuration records and the validation rules that gate
//! startup: at least one service, at least one listener and one route per
//! service, and an HTTPS listener only with TLS material.

use vstd::prelude::*;

use crate::config::value::ConfValue;

verus! {

/// A span of time: whole seconds plus a sub-second nanosecond part.
#[derive(Clone, Copy, PartialEq, Eq, Structural, Debug)]
pub struct TimeSpan {
    pub secs: u64,
    pub nanos: u32,
}

/// An IP address held as plain numbers: four octets, or the sixteen-byte
/// value of an IPv6 address.
#[derive(Clone, Copy, PartialEq, Eq, Structural, Debug)]
pub enum IpAddress {
    V4(u8, u8, u8, u8),
    V6(u128),
}

/// A socket address: an IP address and a port.
#[derive(Clone, Copy, PartialEq, Eq, Structural, Debug)]
pub struct SocketAddress {
    pub ip: IpAddress,
    pub port: u16,
}

/// The whole configuration file.
pub struct Config {
    pub identities: Vec<Identity>,
    pub services: Vec<Service>,
    pub discovery_providers: Vec<DiscoveryProvider>,
}

/// Authentication material consumed by auth plugins, not by the core.
pub struct Identity {
    pub name: String,
    pub basic_auth: Option<BasicAuth>,
    pub hmac_auth: Option<HmacAuth>,
    pub jwt_auth: Option<JwtAuth>,
}

pub struct BasicAuth {
    pub username: String,
    pub password: String,
}

pub struct HmacAuth {
    pub access_key: String,
    pub secret_key: String,
}

pub struct JwtAuth {
    pub issuer: String,
    pub secret: String,
}

/// One service: its listeners, global plugins, routes and clusters.
pub struct Service {
    pub name: String,
    pub listeners: Vec<Listener>,
    pub plugins: Option<Vec<Plugin>>,
    pub routes: Vec<Route>,
    pub clusters: Vec<Cluster>,
}

/// One listening socket of a service.
pub struct Listener {
    pub name: String,
    pub address: SocketAddress,
    pub protocol: Protocol,
    pub ssl_config: Option<SslConfig>,
}

#[derive(Clone, Copy, PartialEq, Eq, Structural, Debug)]
pub enum Protocol {
    HTTP,
    HTTPS,
}

impl Default for Protocol {
    fn default() -> (r: Self)
        ensures
            r == Protocol::HTTP,
    {
        Protocol::HTTP
    }
}

/// Paths of the certificate and key of an HTTPS listener.
pub struct SslConfig {
    pub cert_path: String,
    pub key_path: String,
}

/// One route: how requests are matched and which pipeline serves them.
pub struct Route {
    pub name: String,
    pub matcher: Matcher,
    pub auth: Option<Auth>,
    pub plugins: Option<Vec<Plugin>>,
    pub cluster: String,
}

/// The match block of a route. Only the URI matcher is consumed by the
/// core; header matching is declared for future use.
pub struct Matcher {
    pub uri: Option<StrMatch>,
    pub headers: Option<Vec<(String, StrMatch)>>,
}

/// A string matcher: a regular expression, a path prefix, or an exact path.
pub enum StrMatch {
    Regexp(String),
    Prefix(String),
    Exact(String),
}

/// The auth block of a route; declared in the schema, not consumed by the
/// core.
pub struct Auth {
    pub auth_type: String,
    pub allowed_identities: Option<Vec<String>>,
    pub config: Option<ForwardAuthConfig>,
}

pub struct ForwardAuthConfig {
    pub cluster: String,
    pub path: String,
    pub headers_to_forward: Vec<String>,
}

/// A plugin reference in configuration: its registry name and its own
/// configuration fragment.
pub struct Plugin {
    pub name: String,
    pub config: Option<ConfValue>,
}

/// One backend cluster: its resolver kind, balancing policy and resolver
/// configuration.
pub struct Cluster {
    pub name: String,
    pub resolver: ResolverType,
    pub lb_policy: LbPolicy,
    pub config: Option<ConfValue>,
    pub health_checks: Option<Vec<HealthCheck>>,
}

#[derive(Clone, Copy, PartialEq, Eq, Structural, Debug)]
pub enum ClusterType {
    StrictDns,
    Static,
    Unsupported,
}

#[derive(Clone, Copy, PartialEq, Eq, Structural, Debug)]
pub enum LbPolicy {
    RoundRobin,
    LeastConn,
    Random,
    Unsupported,
}

pub struct HealthCheck {
    pub timeout: TimeSpan,
    pub interval: TimeSpan,
    pub unhealthy_threshold: u32,
    pub healthy_threshold: u32,
}

/// A name-resolution provider made available to clusters.
pub struct DiscoveryProvider {
    pub name: String,
    pub resolver_type: ResolverType,
    pub config: Option<ConfValue>,
}

#[derive(Clone, Copy, PartialEq, Eq, Structural, Debug)]
pub enum ResolverType {
    DNS,
    Static,
}

/// Why a configuration was rejected.
#[derive(Debug)]
pub struct ValidationError {
    pub message: String,
}

/// An HTTPS listener is valid only with TLS material.
pub open spec fn spec_listener_valid(l: Listener) -> bool {
    !(l.protocol == Protocol::HTTPS && l.ssl_config is None)
}

/// A service is valid when it has at least one listener, at least one
/// route, and every listener is valid.
pub open spec fn spec_service_valid(s: Service) -> bool {
    &&& s.listeners@.len() >= 1
    &&& s.routes@.len() >= 1
    &&& forall|i: int| 0 <= i < s.listeners@.len() ==> spec_listener_valid(#[trigger] s.listeners@[i])
}

/// A configuration is valid when it has at least one service and every
/// service is valid.
pub open spec fn spec_config_valid(c: Config) -> bool {
    &&& c.services@.len() >= 1
    &&& forall|i: int| 0 <= i < c.services@.len() ==> spec_service_valid(#[trigger] c.services@[i])
}

/// Rejects an HTTPS listener that has no `ssl_config`.
pub fn validate_listener(l: &Listener) -> (r: Result<(), ValidationError>)
    ensures
        r.is_ok() == spec_listener_valid(*l),
{
    if matches!(l.protocol, Protocol::HTTPS) && l.ssl_config.is_none() {
        return Err(
            ValidationError { message: "ssl_config is required for HTTPS listener".to_owned() },
        );
    }
    Ok(())
}

impl Service {
    /// Rejects a service with no listener, no route, or an invalid
    /// listener.
    pub fn validate(&self) -> (r: Result<(), ValidationError>)
        ensures
            r.is_ok() == spec_service_valid(*self),
    {
        if self.listeners.len() == 0 {
            return Err(ValidationError { message: "services need at least one listener".to_owned() });
        }
        if self.routes.len() == 0 {
            return Err(ValidationError { message: "services need at least one route".to_owned() });
        }
        let n: usize = self.listeners.len();
        for i in 0..n
            invariant
                n == self.listeners@.len(),
                forall|j: int| 0 <= j < i ==> spec_listener_valid(#[trigger] self.listeners@[j]),
        {
            if let Err(e) = validate_listener(&self.listeners[i]) {
                return Err(e);
            }
        }
        Ok(())
    }
}

impl Config {
    /// Rejects a configuration with no service or with an invalid service.
    pub fn validate(&self) -> (r: Result<(), ValidationError>)
        ensures
            r.is_ok() == spec_config_valid(*self),
    {
        if self.services.len() == 0 {
            return Err(ValidationError { message: "at least one service is required".to_owned() });
        }
        let n: usize = self.services.len();
        for i in 0..n
            invariant
                n == self.services@.len(),
                forall|j: int| 0 <= j < i ==> spec_service_valid(#[trigger] self.services@[j]),
        {
            if let Err(e) = self.services[i].validate() {
                return Err(e);
            }
        }
        Ok(())
    }
}

} // verus!
