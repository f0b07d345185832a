//! The plugin capability: the five filter phases a plugin may take part
//! in, the per-request plugin context, and the captured route parameters.

use vstd::prelude::*;

use crate::plugins::cms_rate::PerRoutePlugin;
use crate::plugins::echo::EchoPlugin;
use crate::utils::{spec_header_views, spec_response, RequestHeaderParts, ResponseParts};

verus! {

/// Per-request state that plugins read and fill.
pub struct PluginCtx {
    pub route_params: Option<RouteParams>,
}

impl Default for PluginCtx {
    fn default() -> (r: Self)
        ensures
            r.route_params is None,
    {
        PluginCtx { route_params: None }
    }
}

/// The strings captured by a route match, in positional order: path
/// parameters for a path match, capture groups (group 0 first) for a
/// regex match.
pub struct RouteParams {
    pub params: Vec<String>,
}

/// The views of a string sequence.
pub open spec fn str_views(s: Seq<String>) -> Seq<Seq<char>> {
    s.map(|i: int, x: String| x@)
}

/// The capture groups that matched, in order, `None`s dropped.
pub open spec fn spec_kept_caps(caps: Seq<Option<Seq<char>>>) -> Seq<Seq<char>>
    decreases caps.len(),
{
    if caps.len() == 0 {
        Seq::empty()
    } else {
        match caps[0] {
            Some(s) => seq![s] + spec_kept_caps(caps.skip(1)),
            None => spec_kept_caps(caps.skip(1)),
        }
    }
}

impl RouteParams {
    /// Route parameters from regex capture groups: the groups that
    /// matched, in order.
    pub fn new_caps(caps: &Vec<Option<String>>) -> (r: RouteParams)
        ensures
            str_views(r.params@) == spec_kept_caps(caps.deep_view()),
    {
        let mut params: Vec<String> = Vec::new();
        let n: usize = caps.len();
        proof {
            assert(caps.deep_view().skip(0) =~= caps.deep_view());
            assert(str_views(params@) =~= Seq::<Seq<char>>::empty());
        }
        for i in 0..n
            invariant
                n == caps@.len(),
                caps.deep_view().len() == n,
                spec_kept_caps(caps.deep_view()) =~= str_views(params@) + spec_kept_caps(
                    caps.deep_view().skip(i as int),
                ),
        {
            proof {
                assert(caps.deep_view()[i as int] == caps@[i as int].deep_view());
                assert(caps.deep_view().skip(i as int)[0] == caps.deep_view()[i as int]);
                assert(caps.deep_view().skip(i as int).skip(1) =~= caps.deep_view().skip(i + 1));
            }
            match &caps[i] {
                Some(s) => {
                    let ghost before = params@;
                    params.push(s.clone());
                    proof {
                        assert(str_views(params@) =~= str_views(before).push(s@));
                        assert(seq![s@] + spec_kept_caps(caps.deep_view().skip(i + 1))
                            =~= seq![s@].push(Seq::<char>::empty()).drop_last()
                            + spec_kept_caps(caps.deep_view().skip(i + 1)));
                        assert(str_views(before).push(s@) + spec_kept_caps(
                            caps.deep_view().skip(i + 1),
                        ) =~= str_views(before) + (seq![s@] + spec_kept_caps(
                            caps.deep_view().skip(i + 1),
                        )));
                    }
                },
                None => {},
            }
        }
        proof {
            assert(spec_kept_caps(caps.deep_view().skip(n as int)) =~= Seq::<Seq<char>>::empty());
            assert(str_views(params@) + Seq::<Seq<char>>::empty() =~= str_views(params@));
        }
        RouteParams { params }
    }

    /// Route parameters from path-parameter bindings: the bound values,
    /// in order.
    pub fn new_params(params: &Vec<(String, String)>) -> (r: RouteParams)
        ensures
            r.params@.len() == params@.len(),
            forall|i: int| 0 <= i < params@.len() ==> (#[trigger] r.params@[i])@ == params@[i].1@,
    {
        let mut vals: Vec<String> = Vec::new();
        let n: usize = params.len();
        for i in 0..n
            invariant
                n == params@.len(),
                vals@.len() == i,
                forall|j: int| 0 <= j < i ==> (#[trigger] vals@[j])@ == params@[j].1@,
        {
            vals.push(params[i].1.clone());
        }
        RouteParams { params: vals }
    }

    /// The capture at position `idx`.
    pub fn get(&self, idx: usize) -> (r: Option<&str>)
        ensures
            idx < self.params@.len() ==> (r matches Some(s) && s@ == self.params@[idx as int]@),
            idx >= self.params@.len() ==> r is None,
    {
        if idx < self.params.len() {
            Some(self.params[idx].as_str())
        } else {
            None
        }
    }
}

/// A plugin instance: one of the plugins the registry can build.
pub enum Plugin {
    Echo(EchoPlugin),
    CmsRate(PerRoutePlugin),
}

impl Plugin {
    /// The registry name this plugin was built under.
    pub open spec fn spec_name(&self) -> Seq<char> {
        match self {
            Plugin::Echo(_) => "echo"@,
            Plugin::CmsRate(_) => "cms_rate"@,
        }
    }

    /// Handles the incoming request; returns `true` (and the synthetic
    /// response it wrote) when the request is answered here and the
    /// engine must not go on.
    pub fn request_filter(&self, path: &str, ctx: &mut PluginCtx) -> (r: (
        bool,
        Option<ResponseParts>,
    ))
        ensures
            *final(ctx) == *old(ctx),
            match self {
                Plugin::Echo(p) => r.0 == true && (r.1 matches Some(resp) && spec_response(
                    resp,
                    p.config.status_code,
                    None,
                    Some(p.config.body@),
                    match p.config.headers {
                        Some(h) => spec_header_views(h@),
                        None => Seq::empty(),
                    },
                )),
                Plugin::CmsRate(p) => (r.0 ==> (r.1 matches Some(resp) && spec_response(
                    resp,
                    429,
                    None,
                    None,
                    Seq::empty(),
                ))) && (!r.0 ==> r.1 is None),
            },
    {
        match self {
            Plugin::Echo(p) => {
                let (stop, resp) = p.request_filter();
                (stop, Some(resp))
            },
            Plugin::CmsRate(p) => {
                let (stop, resp, _count) = p.request_filter(path);
                (stop, resp)
            },
        }
    }

    /// Sees one chunk of the inbound request body. The core plugins leave
    /// it as it is.
    pub fn request_body_filter(
        &self,
        body: &mut Option<Vec<u8>>,
        end_of_stream: bool,
        ctx: &mut PluginCtx,
    )
        ensures
            *final(body) == *old(body),
            *final(ctx) == *old(ctx),
    {
    }

    /// May rewrite the header bound for the backend. The core plugins
    /// leave it as it is.
    pub fn upstream_request_filter(
        &self,
        upstream_request: &mut RequestHeaderParts,
        ctx: &mut PluginCtx,
    )
        ensures
            *final(upstream_request) == *old(upstream_request),
            *final(ctx) == *old(ctx),
    {
    }

    /// May rewrite the response header bound for the client. The core
    /// plugins leave it as it is.
    pub fn response_filter(&self, upstream_response: &mut ResponseParts, ctx: &mut PluginCtx)
        ensures
            *final(upstream_response) == *old(upstream_response),
            *final(ctx) == *old(ctx),
    {
    }

    /// Sees one chunk of the outbound response body, synchronously. The
    /// core plugins leave it as it is.
    pub fn response_body_filter(
        &self,
        body: &mut Option<Vec<u8>>,
        end_of_stream: bool,
        ctx: &mut PluginCtx,
    )
        ensures
            *final(body) == *old(body),
            *final(ctx) == *old(ctx),
    {
    }
}

} // verus!
