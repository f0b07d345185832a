//! The echo plugin: answers every request itself with a configured body,
//! status and headers, and short-circuits the rest of the pipeline.

use vstd::prelude::*;
use vstd::string::*;

use crate::config::value::ConfValue;
use crate::plugins::errors::PluginError;
use crate::utils::{build_response, clone_bytes, clone_headers, spec_body_len, spec_decimal,
    spec_has_header, spec_header_views, spec_response, spec_response_headers, ResponseParts};

verus! {

pub const ECHO_PLUGIN_NAME: &'static str = "echo";

/// What `str::to_lowercase` returns: a function of the characters alone.
pub uninterp spec fn lower_of(s: Seq<char>) -> Seq<char>;

/// The ASCII lowercase of a character: `A` to `Z` move to lowercase,
/// everything else stays.
pub open spec fn spec_ascii_lower(c: char) -> char {
    if 'A' <= c && c <= 'Z' {
        ((c as u8) + 32) as char
    } else {
        c
    }
}

pub open spec fn spec_ascii_lower_seq(s: Seq<char>) -> Seq<char> {
    s.map(|i: int, c: char| spec_ascii_lower(c))
}

/// Relies on `str::to_lowercase`: the result depends on the characters
/// alone, and on ASCII input it is the ASCII lowercase (the Unicode
/// lowercase of an ASCII character is its ASCII lowercase).
#[verifier::external_body]
fn lowercase(s: &str) -> (r: String)
    ensures
        r@ == lower_of(s@),
        vstd::utf8::is_ascii_chars(s@) ==> r@ == spec_ascii_lower_seq(s@),
{
    s.to_lowercase()
}

/// The echo plugin's parsed configuration.
pub struct EchoConfig {
    pub body: Vec<u8>,
    pub status_code: u16,
    pub headers: Option<Vec<(String, String)>>,
}

/// The echo plugin: immutable configuration shared by all requests.
pub struct EchoPlugin {
    pub config: EchoConfig,
}

/// The configured body: the string under `body`, or nothing when it is
/// absent or not a string.
pub open spec fn spec_echo_body(c: ConfValue) -> Option<Seq<char>> {
    match c.spec_get("body"@) {
        Some(v) => match v {
            ConfValue::Str(s) => Some(s@),
            _ => None,
        },
        None => None,
    }
}

/// The configured status: 200 when absent, the number when it is an
/// integer that fits a `u16`, nothing otherwise.
pub open spec fn spec_echo_status(c: ConfValue) -> Option<int> {
    match c.spec_get("status_code"@) {
        None => Some(200),
        Some(v) => match v {
            ConfValue::Int(n) => if 0 <= n <= u16::MAX {
                Some(n as int)
            } else {
                None
            },
            _ => None,
        },
    }
}

pub open spec fn spec_str_content(v: ConfValue) -> Seq<char> {
    match v {
        ConfValue::Str(s) => s@,
        _ => Seq::empty(),
    }
}

/// The configured headers with their keys lower-cased: nothing on a shape
/// error, `Some(None)` when the key is absent.
pub open spec fn spec_echo_headers(c: ConfValue) -> Option<Option<Seq<(Seq<char>, Seq<char>)>>> {
    match c.spec_get("headers"@) {
        None => Some(None),
        Some(v) => match v {
            ConfValue::Mapping(entries) => if forall|i: int|
                0 <= i < entries@.len() ==> (#[trigger] entries@[i].1) is Str {
                Some(
                    Some(
                        entries@.map(
                            |i: int, e: (String, ConfValue)|
                                (lower_of(e.0@), spec_str_content(e.1)),
                        ),
                    ),
                )
            } else {
                None
            },
            _ => None,
        },
    }
}

/// The header list of a built plugin, as character sequences.
pub open spec fn spec_opt_header_views(h: Option<Vec<(String, String)>>) -> Option<
    Seq<(Seq<char>, Seq<char>)>,
> {
    match h {
        Some(v) => Some(spec_header_views(v@)),
        None => None,
    }
}

/// A configuration fragment the echo builder accepts.
pub open spec fn spec_echo_ok(cfg: Option<ConfValue>) -> bool {
    &&& cfg is Some
    &&& spec_echo_body(cfg.unwrap()) is Some
    &&& spec_echo_status(cfg.unwrap()) is Some
    &&& spec_echo_headers(cfg.unwrap()) is Some
    &&& 100 <= spec_echo_status(cfg.unwrap()).unwrap() <= 999
}

/// A successfully built echo plugin, related to the configuration it was
/// built from.
pub open spec fn spec_echo_built(cfg: Option<ConfValue>, p: EchoPlugin) -> bool {
    &&& cfg is Some
    &&& spec_echo_body(cfg.unwrap()) is Some
    &&& spec_echo_status(cfg.unwrap()) is Some
    &&& spec_echo_headers(cfg.unwrap()) is Some
    &&& 100 <= spec_echo_status(cfg.unwrap()).unwrap() <= 999
    &&& p.config.body@ == vstd::utf8::encode_utf8(spec_echo_body(cfg.unwrap()).unwrap())
    &&& p.config.status_code == spec_echo_status(cfg.unwrap()).unwrap()
    &&& spec_opt_header_views(p.config.headers) == spec_echo_headers(cfg.unwrap()).unwrap()
}

/// The error an echo build reports, related to the configuration.
pub open spec fn spec_echo_err(cfg: Option<ConfValue>, e: PluginError) -> bool {
    match e {
        PluginError::LackPluginConfig { name } => name@ == "echo"@ && cfg is None,
        PluginError::YamlErr { name, message } => {
            &&& name@ == "echo"@
            &&& cfg is Some
            &&& (spec_echo_body(cfg.unwrap()) is None || spec_echo_status(cfg.unwrap()) is None
                || spec_echo_headers(cfg.unwrap()) is None)
        },
        PluginError::SpecificErr { name, message } => {
            &&& name@ == "echo"@
            &&& cfg is Some
            &&& spec_echo_body(cfg.unwrap()) is Some
            &&& spec_echo_status(cfg.unwrap()) is Some
            &&& !(100 <= spec_echo_status(cfg.unwrap()).unwrap() <= 999)
        },
        _ => false,
    }
}

/// Builds the echo plugin from its configuration fragment: `body` is
/// required, `status_code` defaults to 200 and must name a real status,
/// and header keys are lower-cased.
pub fn create_echo_plugin(cfg: Option<ConfValue>) -> (r: Result<EchoPlugin, PluginError>)
    ensures
        match r {
            Ok(p) => spec_echo_built(cfg, p),
            Err(e) => spec_echo_err(cfg, e),
        },
        match r {
            Ok(p) => match cfg {
                Some(c0) => match c0.spec_get("headers"@) {
                    Some(hv) => match hv {
                        ConfValue::Mapping(entries) => p.config.headers matches Some(hs)
                            && hs@.len() == entries@.len() && forall|i: int|
                            0 <= i < entries@.len() ==> (vstd::utf8::is_ascii_chars(
                                (#[trigger] entries@[i]).0@,
                            ) ==> hs@[i].0@ == spec_ascii_lower_seq(entries@[i].0@)),
                        _ => true,
                    },
                    None => true,
                },
                None => true,
            },
            Err(_) => true,
        },
{
    let c = match cfg {
        Some(c) => c,
        None => {
            return Err(PluginError::LackPluginConfig { name: ECHO_PLUGIN_NAME.to_owned() });
        },
    };
    let body: Vec<u8> = match c.get("body") {
        Some(v) => match v.as_str() {
            Some(s) => s.as_str().as_bytes_vec(),
            None => {
                return Err(
                    PluginError::YamlErr {
                        name: ECHO_PLUGIN_NAME.to_owned(),
                        message: "body must be a string".to_owned(),
                    },
                );
            },
        },
        None => {
            return Err(
                PluginError::YamlErr {
                    name: ECHO_PLUGIN_NAME.to_owned(),
                    message: "missing field body".to_owned(),
                },
            );
        },
    };
    let status_int: i64 = match c.get("status_code") {
        None => 200,
        Some(v) => match v.as_int() {
            Some(n) => if 0 <= n && n <= u16::MAX as i64 {
                n
            } else {
                return Err(
                    PluginError::YamlErr {
                        name: ECHO_PLUGIN_NAME.to_owned(),
                        message: "status_code does not fit".to_owned(),
                    },
                );
            },
            None => {
                return Err(
                    PluginError::YamlErr {
                        name: ECHO_PLUGIN_NAME.to_owned(),
                        message: "status_code must be a number".to_owned(),
                    },
                );
            },
        },
    };
    let headers: Option<Vec<(String, String)>> = match c.get("headers") {
        None => None,
        Some(v) => match v.as_map() {
            Some(entries) => {
                assert(c.spec_get("headers"@) == Some(ConfValue::Mapping(*entries)));
                let mut hs: Vec<(String, String)> = Vec::new();
                let n: usize = entries.len();
                for i in 0..n
                    invariant
                        n == entries@.len(),
                        hs@.len() == i,
                        cfg == Some(c),
                        spec_echo_body(c) is Some,
                        spec_echo_status(c) is Some,
                        c.spec_get("headers"@) == Some(ConfValue::Mapping(*entries)),
                        forall|j: int| 0 <= j < i ==> (#[trigger] entries@[j].1) is Str,
                        forall|j: int|
                            0 <= j < i ==> ((#[trigger] hs@[j]).0@ == lower_of(entries@[j].0@)
                                && hs@[j].1@ == spec_str_content(entries@[j].1)),
                        forall|j: int|
                            0 <= j < i ==> (vstd::utf8::is_ascii_chars(
                                (#[trigger] entries@[j]).0@,
                            ) ==> hs@[j].0@ == spec_ascii_lower_seq(entries@[j].0@)),
                {
                    match entries[i].1.as_str() {
                        Some(val) => {
                            let k = lowercase(entries[i].0.as_str());
                            let vv = val.clone();
                            assert(k@ == lower_of(entries@[i as int].0@));
                            assert(vv@ == spec_str_content(entries@[i as int].1));
                            hs.push((k, vv));
                        },
                        None => {
                            proof {
                                assert(!((entries@[i as int].1) is Str));
                                assert(spec_echo_headers(c) is None);
                            }
                            return Err(
                                PluginError::YamlErr {
                                    name: ECHO_PLUGIN_NAME.to_owned(),
                                    message: "header values must be strings".to_owned(),
                                },
                            );
                        },
                    }
                }
                proof {
                    let want = spec_echo_headers(c).unwrap().unwrap();
                    assert(spec_header_views(hs@) =~= want);
                }
                Some(hs)
            },
            None => {
                return Err(
                    PluginError::YamlErr {
                        name: ECHO_PLUGIN_NAME.to_owned(),
                        message: "headers must be a mapping".to_owned(),
                    },
                );
            },
        },
    };
    if status_int < 100 || status_int > 999 {
        return Err(
            PluginError::SpecificErr {
                name: ECHO_PLUGIN_NAME.to_owned(),
                message: "invalid status code".to_owned(),
            },
        );
    }
    Ok(
        EchoPlugin {
            config: EchoConfig { body, status_code: status_int as u16, headers },
        },
    )
}

/// A configured header that names the content type takes precedence: the
/// echo response then carries exactly `content-length` followed by the
/// configured headers, with no default `text/plain` appended.
pub proof fn lemma_echo_header_precedence(p: EchoPlugin, resp: ResponseParts, i: int)
    requires
        p.config.headers is Some,
        0 <= i < p.config.headers.unwrap()@.len(),
        p.config.headers.unwrap()@[i].0@ == "content-type"@,
        spec_response(
            resp,
            p.config.status_code,
            None,
            Some(p.config.body@),
            spec_header_views(p.config.headers.unwrap()@),
        ),
    ensures
        spec_header_views(resp.headers@) == seq![
            ("content-length"@, spec_decimal(p.config.body@.len() as int)),
        ] + spec_header_views(p.config.headers.unwrap()@),
{
    let hs = p.config.headers.unwrap()@;
    let given = spec_header_views(hs);
    assert(given[i] == (hs[i].0@, hs[i].1@));
    assert(given[i].0 == "content-type"@);
    assert(spec_has_header(given, "content-type"@));
    assert(spec_body_len(Some(p.config.body@)) == p.config.body@.len() as int);
}

impl EchoPlugin {
    /// Sends the configured response and stops the pipeline.
    pub fn request_filter(&self) -> (r: (bool, ResponseParts))
        ensures
            r.0 == true,
            spec_response(
                r.1,
                self.config.status_code,
                None,
                Some(self.config.body@),
                match self.config.headers {
                    Some(h) => spec_header_views(h@),
                    None => Seq::empty(),
                },
            ),
    {
        let body = clone_bytes(&self.config.body);
        let headers = match &self.config.headers {
            Some(h) => Some(clone_headers(h)),
            None => None,
        };
        proof {
            match &self.config.headers {
                Some(h) => {
                    assert(spec_header_views(headers.unwrap()@) =~= spec_header_views(h@));
                },
                None => {
                    assert(spec_header_views(Seq::<(String, String)>::empty())
                        =~= Seq::<(Seq<char>, Seq<char>)>::empty());
                },
            }
        }
        let r = build_response(self.config.status_code, None, Some(body), headers);
        (true, r)
    }
}

} // verus!
