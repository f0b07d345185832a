//! The sliding-window rate limiter: counts requests per URI path and
//! answers 429 once the window's count goes over the configured total.

use vstd::prelude::*;
use vstd::string::*;

use crate::config::def::TimeSpan;
use crate::config::value::ConfValue;
use crate::plugins::errors::PluginError;
use crate::utils::{build_response, spec_response, ResponseParts};

verus! {

pub const CMS_RATE_PLUGIN_NAME: &'static str = "cms_rate";

#[verifier::external_type_specification]
#[verifier::external_body]
pub struct ExRate(pingora_limits::rate::Rate);

/// What `humantime::parse_duration` returns for a string: seconds and
/// nanoseconds, or nothing when the string is not a duration. The result
/// depends on the characters alone.
pub uninterp spec fn parsed_duration(s: Seq<char>) -> Option<(u64, u32)>;

/// Relies on `humantime::parse_duration` to read durations such as `1s`;
/// `Duration::subsec_nanos` is under a second by its documentation.
#[verifier::external_body]
fn parse_duration_text(s: &str) -> (r: Option<(u64, u32)>)
    ensures
        r == parsed_duration(s@),
        r matches Some(d) ==> d.1 < 1000000000,
{
    match humantime::parse_duration(s) {
        Ok(d) => Some((d.as_secs(), d.subsec_nanos())),
        Err(_) => None,
    }
}

/// What a rate counter was made with: its window interval, as seconds
/// and nanoseconds. Construction state of the opaque `Rate`.
pub uninterp spec fn rate_window(r: pingora_limits::rate::Rate) -> (u64, u32);

/// Relies on `pingora_limits::rate::Rate::new`, which keeps the interval
/// it is given; the nanosecond part must be under a second so that
/// `Duration::new` cannot overflow.
#[verifier::external_body]
fn rate_new(interval: TimeSpan) -> (r: pingora_limits::rate::Rate)
    requires
        interval.nanos < 1000000000,
    ensures
        rate_window(r) == (interval.secs, interval.nanos),
{
    pingora_limits::rate::Rate::new(core::time::Duration::new(interval.secs, interval.nanos))
}

/// Relies on `pingora_limits::rate::Rate::observe`: reports the events
/// seen under the key in the current interval. The count depends on the
/// clock and on the sketch, so nothing is promised of it.
#[verifier::external_body]
fn rate_observe(r: &pingora_limits::rate::Rate, key: &str) -> (n: isize) {
    r.observe(&key, 1)
}

/// The rate limiter's validated configuration.
pub struct CmsRateConf {
    pub total: i64,
    pub interval: TimeSpan,
}

/// The per-route rate-limiting plugin: the shared window counter and the
/// admitted total.
pub struct PerRoutePlugin {
    pub total: i64,
    pub r: pingora_limits::rate::Rate,
}

/// The configured total: the integer under `total`, or nothing.
pub open spec fn spec_cms_total(c: ConfValue) -> Option<int> {
    match c.spec_get("total"@) {
        Some(v) => match v {
            ConfValue::Int(n) => Some(n as int),
            _ => None,
        },
        None => None,
    }
}

/// The configured interval: the duration text under `interval`, parsed.
pub open spec fn spec_cms_interval(c: ConfValue) -> Option<(u64, u32)> {
    match c.spec_get("interval"@) {
        Some(v) => match v {
            ConfValue::Str(s) => parsed_duration(s@),
            _ => None,
        },
        None => None,
    }
}

/// A configuration fragment the rate-limiter builder accepts.
pub open spec fn spec_cms_ok(cfg: Option<ConfValue>) -> bool {
    &&& cfg is Some
    &&& spec_cms_total(cfg.unwrap()) is Some
    &&& spec_cms_interval(cfg.unwrap()) is Some
    &&& spec_cms_total(cfg.unwrap()).unwrap() >= 1
    &&& spec_cms_interval(cfg.unwrap()).unwrap().0 >= 1
}

/// A successfully built rate limiter, related to its configuration:
/// the fragment parses, the total is at least 1 and the interval at least
/// one second.
pub open spec fn spec_cms_built(cfg: Option<ConfValue>, p: PerRoutePlugin) -> bool {
    &&& cfg is Some
    &&& spec_cms_total(cfg.unwrap()) is Some
    &&& spec_cms_interval(cfg.unwrap()) is Some
    &&& spec_cms_total(cfg.unwrap()).unwrap() >= 1
    &&& spec_cms_interval(cfg.unwrap()).unwrap().0 >= 1
    &&& p.total == spec_cms_total(cfg.unwrap()).unwrap()
    &&& rate_window(p.r) == spec_cms_interval(cfg.unwrap()).unwrap()
}

/// The error a rate-limiter build reports, related to its configuration.
pub open spec fn spec_cms_err(cfg: Option<ConfValue>, e: PluginError) -> bool {
    match e {
        PluginError::LackPluginConfig { name } => name@ == "cms_rate"@ && cfg is None,
        PluginError::YamlErr { name, message } => {
            &&& name@ == "cms_rate"@
            &&& cfg is Some
            &&& (spec_cms_total(cfg.unwrap()) is None || spec_cms_interval(cfg.unwrap()) is None)
        },
        PluginError::ValidateErr { name, message } => {
            &&& name@ == "cms_rate"@
            &&& cfg is Some
            &&& spec_cms_total(cfg.unwrap()) is Some
            &&& spec_cms_interval(cfg.unwrap()) is Some
            &&& (spec_cms_total(cfg.unwrap()).unwrap() < 1 || spec_cms_interval(
                cfg.unwrap(),
            ).unwrap().0 < 1)
        },
        _ => false,
    }
}

/// The rule behind `ValidateErr`: an interval under one second is refused.
fn atleast_1_second(v: &TimeSpan) -> (r: bool)
    ensures
        r == (v.secs >= 1),
{
    v.secs >= 1
}

/// Builds the rate limiter from its configuration fragment: `total` must
/// be at least 1 and `interval` a duration of at least one second.
pub fn create_cms_rate_limiter(cfg: Option<ConfValue>) -> (r: Result<PerRoutePlugin, PluginError>)
    ensures
        match r {
            Ok(p) => spec_cms_built(cfg, p),
            Err(e) => spec_cms_err(cfg, e),
        },
{
    let c = match cfg {
        Some(c) => c,
        None => {
            return Err(PluginError::LackPluginConfig { name: CMS_RATE_PLUGIN_NAME.to_owned() });
        },
    };
    let total: i64 = match c.get("total") {
        Some(v) => match v.as_int() {
            Some(n) => n,
            None => {
                return Err(
                    PluginError::YamlErr {
                        name: CMS_RATE_PLUGIN_NAME.to_owned(),
                        message: "total must be a number".to_owned(),
                    },
                );
            },
        },
        None => {
            return Err(
                PluginError::YamlErr {
                    name: CMS_RATE_PLUGIN_NAME.to_owned(),
                    message: "missing field total".to_owned(),
                },
            );
        },
    };
    let interval: TimeSpan = match c.get("interval") {
        Some(v) => match v.as_str() {
            Some(s) => match parse_duration_text(s.as_str()) {
                Some(d) => TimeSpan { secs: d.0, nanos: d.1 },
                None => {
                    return Err(
                        PluginError::YamlErr {
                            name: CMS_RATE_PLUGIN_NAME.to_owned(),
                            message: "interval is not a duration".to_owned(),
                        },
                    );
                },
            },
            None => {
                return Err(
                    PluginError::YamlErr {
                        name: CMS_RATE_PLUGIN_NAME.to_owned(),
                        message: "interval must be a string".to_owned(),
                    },
                );
            },
        },
        None => {
            return Err(
                PluginError::YamlErr {
                    name: CMS_RATE_PLUGIN_NAME.to_owned(),
                    message: "missing field interval".to_owned(),
                },
            );
        },
    };
    if total < 1 {
        return Err(
            PluginError::ValidateErr {
                name: CMS_RATE_PLUGIN_NAME.to_owned(),
                message: "total must be at least 1".to_owned(),
            },
        );
    }
    if !atleast_1_second(&interval) {
        return Err(
            PluginError::ValidateErr {
                name: CMS_RATE_PLUGIN_NAME.to_owned(),
                message: "interval must be at least 1 second".to_owned(),
            },
        );
    }
    let rate = rate_new(interval);
    Ok(PerRoutePlugin { total, r: rate })
}

impl PerRoutePlugin {
    /// The admission rule, on a window count however it was observed: the
    /// request is refused exactly when the count exceeds the total.
    pub fn over_limit(&self, nc: i64) -> (r: bool)
        ensures
            r == (nc > self.total),
    {
        nc > self.total
    }

    /// Observes one event for the request's path and returns the
    /// window's count with the outcome: the request stops with a 429
    /// exactly when the observed count exceeds the total.
    pub fn request_filter(&self, path: &str) -> (r: (bool, Option<ResponseParts>, i64))
        ensures
            r.0 == (r.2 > self.total),
            r.0 ==> (r.1 matches Some(p) && spec_response(p, 429, None, None, Seq::empty())),
            !r.0 ==> r.1 is None,
    {
        let nc = rate_observe(&self.r, path);
        let count: i64 = nc as i64;
        if self.over_limit(count) {
            let resp = build_response(429, None, None, None);
            (true, Some(resp), count)
        } else {
            (false, None, count)
        }
    }
}

} // verus!
