//! The route matcher and the per-request proxy engine: a path router
//! first, then the regex routes in insertion order; the engine drives the
//! five filter phases with their short-circuit rule.

use vstd::prelude::*;
use vstd::string::*;

use crate::api::plugin::{str_views, spec_kept_caps, Plugin, PluginCtx, RouteParams};
use crate::clusters::discovery::BackendEndpoint;
use crate::clusters::ClusterManager;
use crate::proxy::errors::ProxyRuntimeErr;
use crate::utils::{build_response, spec_header_views, spec_response, RequestHeaderParts,
    ResponseParts};

verus! {

#[verifier::external_type_specification]
#[verifier::external_body]
#[verifier::reject_recursive_types(T)]
pub struct ExRouter<T>(matchit::Router<T>);

/// What a router holds: its routes, each pattern bound to a value.
pub uninterp spec fn router_entries(r: matchit::Router<usize>) -> Map<Seq<char>, int>;

/// What `matchit::Router::at` answers from given routes for a given path:
/// the bound value and the parameter bindings in declaration order, or
/// nothing. A function of the routes and the path alone.
pub uninterp spec fn router_find(entries: Map<Seq<char>, int>, path: Seq<char>) -> Option<
    (int, Seq<(Seq<char>, Seq<char>)>),
>;

/// Holds of a pattern and a route set whenever `matchit::Router::insert`
/// accepts the pattern over those routes.
pub uninterp spec fn router_insert_ok(entries: Map<Seq<char>, int>, path: Seq<char>) -> bool;

/// Whether one of the inserted patterns is exactly `p`.
pub open spec fn spec_contains_path(paths: Seq<Seq<char>>, p: Seq<char>) -> bool {
    exists|i: int| 0 <= i < paths.len() && paths[i] == p
}

/// No routes at all.
pub open spec fn empty_routes() -> Map<Seq<char>, int> {
    Map::empty()
}

/// Relies on `matchit::Router::new`: a new router holds no route.
#[verifier::external_body]
fn router_new() -> (r: matchit::Router<usize>)
    ensures
        router_entries(r) == empty_routes(),
{
    matchit::Router::new()
}

/// How many `{` a pattern holds: at most this many route parameters.
pub open spec fn spec_brace_count(p: Seq<char>) -> int
    decreases p.len(),
{
    if p.len() == 0 {
        0
    } else if p[0] == '{' {
        1 + spec_brace_count(p.skip(1))
    } else {
        spec_brace_count(p.skip(1))
    }
}

fn count_braces(p: &str) -> (n: usize)
    ensures
        n == spec_brace_count(p@),
{
    let len = p.unicode_len();
    let mut n: usize = 0;
    proof {
        assert(p@.skip(0) =~= p@);
    }
    for i in 0..len
        invariant
            len == p@.len(),
            n <= i,
            spec_brace_count(p@) == n + spec_brace_count(p@.skip(i as int)),
    {
        proof {
            assert(p@.skip(i as int)[0] == p@[i as int]);
            assert(p@.skip(i as int).skip(1) =~= p@.skip(i + 1));
        }
        if p.get_char(i) == '{' {
            n += 1;
        }
    }
    proof {
        assert(spec_brace_count(p@.skip(len as int)) == 0);
    }
    n
}

/// Relies on `matchit::Router::insert`: on success the route is bound; a
/// refused insert binds no route and leaves matching unchanged. The
/// router renames parameters to one letter each and panics once it runs
/// past `z`, so the pattern's brace count is bounded here.
#[verifier::external_body]
fn router_insert(r: &mut matchit::Router<usize>, path: &str, value: usize) -> (res: Result<
    (),
    String,
>)
    requires
        spec_brace_count(path@) <= 25,
    ensures
        res.is_ok() ==> router_insert_ok(router_entries(*old(r)), path@),
        res.is_ok() ==> router_entries(*final(r)) == router_entries(*old(r)).insert(
            path@,
            value as int,
        ),
        res.is_err() ==> router_entries(*final(r)) == router_entries(*old(r)),
{
    match r.insert(path, value) {
        Ok(()) => Ok(()),
        Err(e) => Err(format!("{}", e)),
    }
}

/// Relies on `matchit::Router::at`: answers from the routes and the path;
/// parameter names and values come back in declaration order.
#[verifier::external_body]
fn router_at(r: &matchit::Router<usize>, path: &str) -> (res: Option<(usize, Vec<(String, String)>)>)
    ensures
        match res {
            Some(hit) => (router_find(router_entries(*r), path@) matches Some(h) && hit.0 as int
                == h.0 && hit.1.deep_view() == h.1) && exists|p: Seq<char>|
                #[trigger] router_entries(*r).dom().contains(p) && router_entries(*r)[p]
                    == hit.0 as int,
            None => router_find(router_entries(*r), path@) is None,
        },
{
    match r.at(path) {
        Ok(m) => {
            let params = m.params.iter().map(|(k, v)| (k.to_string(), v.to_string())).collect();
            Some((*m.value, params))
        },
        Err(_) => None,
    }
}

/// Whether this pattern compiles as a regular expression: what
/// `regex::Regex::new` decides, a function of the pattern alone.
pub uninterp spec fn regex_valid(pat: Seq<char>) -> bool;

/// What `regex::Regex::captures` answers for a pattern and a text: the
/// capture groups (group 0 the whole match), or nothing. A function of
/// the pattern and the text alone.
pub uninterp spec fn regex_captures(pat: Seq<char>, text: Seq<char>) -> Option<
    Seq<Option<Seq<char>>>,
>;

/// Relies on `regex::Regex::new` for the compilation verdict.
#[verifier::external_body]
pub(crate) fn regex_is_valid(pat: &str) -> (r: bool)
    ensures
        r == regex_valid(pat@),
{
    regex::Regex::new(pat).is_ok()
}

/// Relies on `regex::Regex::captures`: the groups of the first match, or
/// nothing; an invalid pattern matches nothing.
#[verifier::external_body]
fn regex_find_captures(pat: &str, text: &str) -> (r: Option<Vec<Option<String>>>)
    ensures
        match r {
            Some(caps) => regex_valid(pat@) && (regex_captures(pat@, text@) matches Some(c)
                && caps.deep_view() == c),
            None => !regex_valid(pat@) || regex_captures(pat@, text@) is None,
        },
{
    match regex::Regex::new(pat) {
        Ok(re) => match re.captures(text) {
            Some(c) => Some(
                c.iter().map(|m| m.map(|g| g.as_str().to_string())).collect(),
            ),
            None => None,
        },
        Err(_) => None,
    }
}

/// The ordered plugins of one route and the cluster they forward to.
pub struct Pipeline {
    pub plugins: Vec<Plugin>,
    pub cluster: String,
}

impl Pipeline {
    pub fn new(plugins: Vec<Plugin>, cluster: String) -> (r: Self)
        ensures
            r.plugins == plugins,
            r.cluster == cluster,
    {
        Pipeline { plugins, cluster }
    }
}

/// The first regex route whose pattern matches the path, with its capture
/// groups; routes are tried in insertion order.
pub open spec fn spec_first_regex_hit(rs: Seq<(Seq<char>, int)>, path: Seq<char>) -> Option<
    (int, Seq<Option<Seq<char>>>),
>
    decreases rs.len(),
{
    if rs.len() == 0 {
        None
    } else if regex_valid(rs[0].0) && regex_captures(rs[0].0, path) is Some {
        Some((rs[0].1, regex_captures(rs[0].0, path).unwrap()))
    } else {
        spec_first_regex_hit(rs.skip(1), path)
    }
}

/// The route matcher: a radix path router tried first, then the regex
/// routes in insertion order.
pub struct MatchEntry {
    /// Router for non-regex URI matching.
    pub non_reg_uri: matchit::Router<usize>,
    /// The patterns entered into the path router, in insertion order.
    pub route_paths: Vec<String>,
    /// Regex patterns in insertion order, each bound to a pipeline.
    pub regex_uris: Vec<(String, usize)>,
    /// The pipelines the two tiers point into.
    pub pipelines: Vec<Pipeline>,
}

impl MatchEntry {
    /// The path routes.
    pub open spec fn routes(&self) -> Map<Seq<char>, int> {
        router_entries(self.non_reg_uri)
    }

    /// The patterns entered into the path router, in insertion order.
    pub open spec fn inserted_paths(&self) -> Seq<Seq<char>> {
        self.route_paths@.map(|i: int, s: String| s@)
    }

    /// The regex routes, as pattern text and pipeline index.
    pub open spec fn regex_views(&self) -> Seq<(Seq<char>, int)> {
        self.regex_uris@.map(|i: int, p: (String, usize)| (p.0@, p.1 as int))
    }

    /// Every route points at a pipeline that exists.
    pub open spec fn wf(&self) -> bool {
        &&& forall|p: Seq<char>|
            self.routes().dom().contains(p) ==> 0 <= #[trigger] self.routes()[p]
                < self.pipelines@.len()
        &&& forall|i: int|
            0 <= i < self.regex_uris@.len() ==> (#[trigger] self.regex_uris@[i]).1
                < self.pipelines@.len()
    }

    /// Whether some route matches the path.
    pub open spec fn spec_matches_some(&self, path: Seq<char>) -> bool {
        router_find(self.routes(), path) is Some || spec_first_regex_hit(
            self.regex_views(),
            path,
        ) is Some
    }

    /// The matching contract: the path router's hit if it has one, else
    /// the first matching regex route; `idx` and `rp` are that hit's
    /// pipeline and captured parameters.
    pub open spec fn spec_params_ok(&self, path: Seq<char>, idx: int, rp: RouteParams) -> bool {
        match router_find(self.routes(), path) {
            Some(hit) => {
                &&& idx == hit.0
                &&& rp.params@.len() == hit.1.len()
                &&& forall|i: int|
                    0 <= i < hit.1.len() ==> (#[trigger] rp.params@[i])@ == hit.1[i].1
            },
            None => match spec_first_regex_hit(self.regex_views(), path) {
                Some(h2) => idx == h2.0 && str_views(rp.params@) == spec_kept_caps(h2.1),
                None => false,
            },
        }
    }

    pub fn new() -> (r: Self)
        ensures
            r.routes() == empty_routes(),
            r.inserted_paths().len() == 0,
            r.regex_uris@.len() == 0,
            r.pipelines@.len() == 0,
            r.wf(),
    {
        MatchEntry {
            non_reg_uri: router_new(),
            route_paths: Vec::new(),
            regex_uris: Vec::new(),
            pipelines: Vec::new(),
        }
    }

    /// Inserts a path route. A pattern identical to one already inserted
    /// is left as it is: the first insertion wins. A pattern the router
    /// refuses, or one with more parameters than the router takes, is
    /// reported, and nothing is changed.
    pub fn insert_route(&mut self, path: &str, ppl: Pipeline) -> (r: Result<(), String>)
        requires
            old(self).wf(),
        ensures
            final(self).wf(),
            final(self).regex_uris == old(self).regex_uris,
            match r {
                Ok(_) => {
                    if spec_contains_path(old(self).inserted_paths(), path@) {
                        *final(self) == *old(self)
                    } else {
                        &&& spec_brace_count(path@) <= 25
                        &&& router_insert_ok(old(self).routes(), path@)
                        &&& final(self).routes() == old(self).routes().insert(
                            path@,
                            old(self).pipelines@.len() as int,
                        )
                        &&& final(self).inserted_paths() == old(self).inserted_paths().push(path@)
                        &&& final(self).pipelines@ == old(self).pipelines@.push(ppl)
                    }
                },
                Err(_) => {
                    &&& !spec_contains_path(old(self).inserted_paths(), path@)
                    &&& final(self).routes() == old(self).routes()
                    &&& final(self).inserted_paths() == old(self).inserted_paths()
                    &&& final(self).pipelines == old(self).pipelines
                },
            },
    {
        let n: usize = self.route_paths.len();
        for i in 0..n
            invariant
                *self == *old(self),
                self.wf(),
                n == self.route_paths@.len(),
                forall|j: int| 0 <= j < i ==> (#[trigger] self.route_paths@[j])@ != path@,
        {
            if crate::utils::str_eq(self.route_paths[i].as_str(), path) {
                proof {
                    assert(self.inserted_paths()[i as int] == path@);
                }
                return Ok(());
            }
        }
        proof {
            assert(forall|j: int|
                0 <= j < self.inserted_paths().len() ==> #[trigger] self.inserted_paths()[j]
                    != path@);
        }
        if count_braces(path) > 25 {
            return Err("too many route parameters".to_owned());
        }
        let idx = self.pipelines.len();
        match router_insert(&mut self.non_reg_uri, path, idx) {
            Ok(()) => {
                self.route_paths.push(path.to_owned());
                self.pipelines.push(ppl);
                proof {
                    assert(final(self).inserted_paths() =~= old(self).inserted_paths().push(
                        path@,
                    ));
                    assert forall|p: Seq<char>| final(self).routes().dom().contains(p)
                        implies 0 <= #[trigger] final(self).routes()[p]
                        < final(self).pipelines@.len() by {
                        if p != path@ {
                            assert(old(self).routes().dom().contains(p));
                        }
                    }
                }
                Ok(())
            },
            Err(e) => {
                proof {
                    assert forall|p: Seq<char>| final(self).routes().dom().contains(p) implies 0
                        <= #[trigger] final(self).routes()[p] < final(self).pipelines@.len() by {
                        assert(old(self).routes().dom().contains(p));
                    }
                }
                Err(e)
            },
        }
    }

    /// Appends a regex route; it is tried after every path route, in
    /// insertion order.
    pub fn add_regex_route(&mut self, pattern: String, ppl: Pipeline)
        requires
            old(self).wf(),
        ensures
            final(self).wf(),
            final(self).routes() == old(self).routes(),
            final(self).route_paths == old(self).route_paths,
            final(self).pipelines@ == old(self).pipelines@.push(ppl),
            final(self).regex_uris@ == old(self).regex_uris@.push(
                (pattern, old(self).pipelines@.len() as usize),
            ),
    {
        let idx = self.pipelines.len();
        self.pipelines.push(ppl);
        self.regex_uris.push((pattern, idx));
        proof {
            assert forall|p: Seq<char>| final(self).routes().dom().contains(p) implies 0
                <= #[trigger] final(self).routes()[p] < final(self).pipelines@.len() by {
                assert(old(self).routes().dom().contains(p));
            }
        }
    }

    /// Matches a request path: the path router's result if it has one,
    /// else the first matching regex route, else nothing.
    pub fn match_request(&self, path: &str) -> (r: Option<(RouteParams, usize)>)
        requires
            self.wf(),
        ensures
            match r {
                Some(hit) => (hit.1 as int) < self.pipelines@.len() && self.spec_params_ok(
                    path@,
                    hit.1 as int,
                    hit.0,
                ),
                None => !self.spec_matches_some(path@),
            },
    {
        match router_at(&self.non_reg_uri, path) {
            Some((idx, params)) => {
                let rp = RouteParams::new_params(&params);
                proof {
                    let p = choose|p: Seq<char>|
                        #[trigger] self.routes().dom().contains(p) && self.routes()[p]
                            == idx as int;
                    assert(self.routes()[p] < self.pipelines@.len());
                    let h = router_find(self.routes(), path@).unwrap();
                    assert(params.deep_view() == h.1);
                    assert forall|i: int| 0 <= i < h.1.len() implies (#[trigger] rp.params@[i])@
                        == h.1[i].1 by {
                        assert(params.deep_view()[i] == params@[i].deep_view());
                        assert(params@[i].deep_view() == (params@[i].0@, params@[i].1@));
                    }
                }
                Some((rp, idx))
            },
            None => {
                let n: usize = self.regex_uris.len();
                proof {
                    assert(self.regex_views().skip(0) =~= self.regex_views());
                }
                for i in 0..n
                    invariant
                        n == self.regex_uris@.len(),
                        self.wf(),
                        router_find(self.routes(), path@) is None,
                        spec_first_regex_hit(self.regex_views(), path@) == spec_first_regex_hit(
                            self.regex_views().skip(i as int),
                            path@,
                        ),
                {
                    proof {
                        assert(self.regex_views().skip(i as int)[0] == self.regex_views()[i as int]);
                        assert(self.regex_views()[i as int] == (
                            self.regex_uris@[i as int].0@,
                            self.regex_uris@[i as int].1 as int,
                        ));
                        assert(self.regex_views().skip(i as int).skip(1) =~= self.regex_views().skip(
                            i + 1,
                        ));
                    }
                    match regex_find_captures(self.regex_uris[i].0.as_str(), path) {
                        Some(caps) => {
                            let rp = RouteParams::new_caps(&caps);
                            return Some((rp, self.regex_uris[i].1));
                        },
                        None => {},
                    }
                }
                proof {
                    assert(spec_first_regex_hit(self.regex_views().skip(n as int), path@) is None);
                }
                None
            },
        }
    }
}

impl Default for MatchEntry {
    fn default() -> (r: Self)
        ensures
            r.routes() == empty_routes(),
            r.inserted_paths().len() == 0,
            r.regex_uris@.len() == 0,
            r.pipelines@.len() == 0,
            r.wf(),
    {
        MatchEntry::new()
    }
}

/// The phases one request moves through. A `request_filter` that stops
/// the request, or a match miss, moves it to `ShortCircuited`, where no
/// further filter runs.
#[derive(Clone, Copy, PartialEq, Eq, Structural, Debug)]
pub enum ReqPhase {
    /// Before the request filters have run.
    Init,
    /// Filters passed; body, upstream work and peer selection may run.
    Forwarding,
    /// The response header has been filtered; body chunks flow out.
    Responding,
    /// A filter answered the request itself, or no route matched.
    ShortCircuited,
    /// Only the logging hook is left.
    Done,
}

/// Per-request state: the phase, the matched pipeline and cluster, and
/// the plugins' own context.
pub struct ProxyCtx {
    pub phase: ReqPhase,
    pub pipeline: Option<usize>,
    pub cluster: Option<String>,
    pub plugin_ctx: PluginCtx,
}

impl ProxyCtx {
    pub open spec fn may_run_request_filter(&self) -> bool {
        self.phase is Init
    }

    pub open spec fn may_run_request_body_filter(&self) -> bool {
        self.phase is Forwarding
    }

    pub open spec fn may_run_upstream_request_filter(&self) -> bool {
        self.phase is Forwarding
    }

    pub open spec fn may_select_peer(&self) -> bool {
        self.phase is Forwarding
    }

    pub open spec fn may_run_response_filter(&self) -> bool {
        self.phase is Forwarding
    }

    pub open spec fn may_run_response_body_filter(&self) -> bool {
        self.phase is Responding
    }
}

impl Default for ProxyCtx {
    fn default() -> (r: Self)
        ensures
            r.phase is Init,
            r.pipeline is None,
            r.cluster is None,
            r.plugin_ctx.route_params is None,
    {
        ProxyCtx {
            phase: ReqPhase::Init,
            pipeline: None,
            cluster: None,
            plugin_ctx: PluginCtx { route_params: None },
        }
    }
}

/// The backend the engine will dial for one request.
pub struct PeerSpec {
    pub endpoint: BackendEndpoint,
    pub tls: bool,
    pub sni: String,
}

/// The response a plugin writes when it stops a request: the echo
/// plugin's configured answer, or the rate limiter's 429.
pub open spec fn spec_stop_response(p: Plugin, resp: ResponseParts) -> bool {
    match p {
        Plugin::Echo(ep) => spec_response(
            resp,
            ep.config.status_code,
            None,
            Some(ep.config.body@),
            match ep.config.headers {
                Some(h) => spec_header_views(h@),
                None => Seq::empty(),
            },
        ),
        Plugin::CmsRate(_) => spec_response(resp, 429, None, None, Seq::empty()),
    }
}

/// The engine's answer on a match miss: 404 with body `not found`.
pub open spec fn spec_not_found(resp: ResponseParts) -> bool {
    spec_response(resp, 404, None, Some(vstd::utf8::encode_utf8("not found"@)), Seq::empty())
}

/// One proxy engine per service: its global plugins, its route matcher
/// and its cluster manager, shared read-only across requests.
pub struct Proxy {
    pub plugins: Vec<Plugin>,
    /// Router for matching requests to pipelines.
    pub matcher: MatchEntry,
    /// Manager for the clusters of backends.
    pub cluster_manager: ClusterManager,
}

proof fn lemma_stop_outcome_global(p: &Proxy, path: Seq<char>, ctx: ProxyCtx, resp: ResponseParts, i: int)
    requires
        0 <= i < p.plugins@.len(),
        spec_stop_response(p.plugins@[i], resp),

    ensures
        p.spec_stop_outcome(path, ctx, resp),
{
    assert(exists|j: int|
        0 <= j < p.plugins@.len() && spec_stop_response(#[trigger] p.plugins@[j], resp));
}

proof fn lemma_stop_outcome_route(p: &Proxy, path: Seq<char>, ctx: ProxyCtx, resp: ResponseParts, idx: usize, i: int)
    requires
        ctx.pipeline == Some(idx),
        (idx as int) < p.matcher.pipelines@.len(),
        0 <= i < p.matcher.pipelines@[idx as int].plugins@.len(),
        spec_stop_response(p.matcher.pipelines@[idx as int].plugins@[i], resp),
    ensures
        p.spec_stop_outcome(path, ctx, resp),
{
    assert(exists|j: int|
        0 <= j < p.matcher.pipelines@[idx as int].plugins@.len() && spec_stop_response(
            #[trigger] p.matcher.pipelines@[idx as int].plugins@[j],
            resp,
        ));
}

impl Proxy {
    pub open spec fn wf(&self) -> bool {
        self.matcher.wf()
    }

    /// What a short-circuited pre-request phase may have written: some
    /// global plugin's stop response, the 404 of a match miss, or a stop
    /// response of the matched pipeline.
    pub open spec fn spec_stop_outcome(&self, path: Seq<char>, ctx: ProxyCtx, resp: ResponseParts) -> bool {
        (exists|i: int|
            0 <= i < self.plugins@.len() && spec_stop_response(#[trigger] self.plugins@[i], resp))
            || (!self.matcher.spec_matches_some(path) && spec_not_found(resp)) || (
        match ctx.pipeline {
            Some(idx) => (idx as int) < self.matcher.pipelines@.len() && (exists|i: int|
                0 <= i < self.matcher.pipelines@[idx as int].plugins@.len() && spec_stop_response(
                    #[trigger] self.matcher.pipelines@[idx as int].plugins@[i],
                    resp,
                )),
            None => false,
        })
    }

    pub fn new(matcher: MatchEntry, cluster_manager: ClusterManager, plugins: Vec<Plugin>) -> (r:
        Self)
        ensures
            r.matcher == matcher,
            r.cluster_manager == cluster_manager,
            r.plugins == plugins,
    {
        Proxy { plugins, matcher, cluster_manager }
    }

    /// A fresh context for one request.
    pub fn new_ctx(&self) -> (r: ProxyCtx)
        ensures
            r.phase is Init,
            r.pipeline is None,
            r.cluster is None,
            r.plugin_ctx.route_params is None,
    {
        ProxyCtx::default()
    }

    /// The pre-request phase: global filters in order, then the route
    /// match, then the matched pipeline's filters in order. The first
    /// filter that stops, or a match miss, ends the request with the
    /// response returned here; otherwise the context leaves bound to the
    /// matched pipeline and its cluster.
    pub fn request_filter(&self, path: &str, ctx: &mut ProxyCtx) -> (r: (
        bool,
        Option<ResponseParts>,
    ))
        requires
            self.wf(),
            old(ctx).may_run_request_filter(),
        ensures
            r.0 ==> final(ctx).phase is ShortCircuited,
            !r.0 ==> final(ctx).phase is Forwarding,
            !r.0 ==> ({
                &&& r.1 is None
                &&& final(ctx).pipeline matches Some(idx)
                &&& (idx as int) < self.matcher.pipelines@.len()
                &&& (final(ctx).plugin_ctx.route_params matches Some(rp)
                    && self.matcher.spec_params_ok(path@, idx as int, rp))
                &&& (final(ctx).cluster matches Some(cl) && cl@ == self.matcher.pipelines@[idx as int].cluster@)
            }),
            r.0 ==> (r.1 matches Some(resp) && self.spec_stop_outcome(path@, *final(ctx), resp)),
            (r.0 && !self.matcher.spec_matches_some(path@)) ==> (final(ctx).cluster == old(
                ctx,
            ).cluster && final(ctx).pipeline == old(ctx).pipeline
                && final(ctx).plugin_ctx.route_params == old(ctx).plugin_ctx.route_params),
    {
        let n: usize = self.plugins.len();
        for i in 0..n
            invariant
                n == self.plugins@.len(),
                self.wf(),
                *ctx == *old(ctx),
        {
            let (stop, resp) = self.plugins[i].request_filter(path, &mut ctx.plugin_ctx);
            if stop {
                ctx.phase = ReqPhase::ShortCircuited;
                proof {
                    assert(resp is Some);
                    assert(spec_stop_response(self.plugins@[i as int], resp.unwrap()));
                    lemma_stop_outcome_global(self, path@, *ctx, resp.unwrap(), i as int);
                }
                return (true, resp);
            }
        }
        match self.matcher.match_request(path) {
            Some((rp, idx)) => {
                ctx.cluster = Some(self.matcher.pipelines[idx].cluster.clone());
                ctx.pipeline = Some(idx);
                ctx.plugin_ctx.route_params = Some(rp);
                let m: usize = self.matcher.pipelines[idx].plugins.len();
                for i in 0..m
                    invariant
                        self.wf(),
                        (idx as int) < self.matcher.pipelines@.len(),
                        m == self.matcher.pipelines@[idx as int].plugins@.len(),
                        ctx.phase is Init,
                        ctx.pipeline == Some(idx),
                        ctx.cluster matches Some(cl) && cl@ == self.matcher.pipelines@[idx as int].cluster@,
                        ctx.plugin_ctx.route_params matches Some(rp2)
                            && self.matcher.spec_params_ok(path@, idx as int, rp2),
                {
                    let (stop, resp) = self.matcher.pipelines[idx].plugins[i].request_filter(
                        path,
                        &mut ctx.plugin_ctx,
                    );
                    if stop {
                        ctx.phase = ReqPhase::ShortCircuited;
                        proof {
                            assert(resp is Some);
                            assert(spec_stop_response(
                                self.matcher.pipelines@[idx as int].plugins@[i as int],
                                resp.unwrap(),
                            ));
                            lemma_stop_outcome_route(
                                self,
                                path@,
                                *ctx,
                                resp.unwrap(),
                                idx,
                                i as int,
                            );
                        }
                        return (true, resp);
                    }
                }
                ctx.phase = ReqPhase::Forwarding;
                (false, None)
            },
            None => {
                let body = "not found".as_bytes_vec();
                let resp = build_response(404, None, Some(body), None);
                ctx.phase = ReqPhase::ShortCircuited;
                proof {
                    assert(spec_not_found(resp));
                    assert(self.spec_stop_outcome(path@, *ctx, resp));
                }
                (true, Some(resp))
            },
        }
    }

    /// Runs every plugin, global tier first, over one inbound body
    /// chunk. The core plugins leave the chunk as it is.
    pub fn request_body_filter(
        &self,
        body: &mut Option<Vec<u8>>,
        end_of_stream: bool,
        ctx: &mut ProxyCtx,
    )
        requires
            old(ctx).may_run_request_body_filter(),
        ensures
            *final(body) == *old(body),
            *final(ctx) == *old(ctx),
    {
        let n: usize = self.plugins.len();
        for i in 0..n
            invariant
                n == self.plugins@.len(),
                *body == *old(body),
                *ctx == *old(ctx),
        {
            self.plugins[i].request_body_filter(body, end_of_stream, &mut ctx.plugin_ctx);
        }
        let pi = ctx.pipeline;
        if let Some(idx) = pi {
            if idx < self.matcher.pipelines.len() {
                let m: usize = self.matcher.pipelines[idx].plugins.len();
                for i in 0..m
                    invariant
                        (idx as int) < self.matcher.pipelines@.len(),
                        m == self.matcher.pipelines@[idx as int].plugins@.len(),
                        *body == *old(body),
                        *ctx == *old(ctx),
                {
                    self.matcher.pipelines[idx].plugins[i].request_body_filter(
                        body,
                        end_of_stream,
                        &mut ctx.plugin_ctx,
                    );
                }
            }
        }
    }

    /// Runs every plugin, global tier first, over the header bound for
    /// the backend. The core plugins leave it as it is.
    pub fn upstream_request_filter(
        &self,
        upstream_request: &mut RequestHeaderParts,
        ctx: &mut ProxyCtx,
    )
        requires
            old(ctx).may_run_upstream_request_filter(),
        ensures
            *final(upstream_request) == *old(upstream_request),
            *final(ctx) == *old(ctx),
    {
        let n: usize = self.plugins.len();
        for i in 0..n
            invariant
                n == self.plugins@.len(),
                *upstream_request == *old(upstream_request),
                *ctx == *old(ctx),
        {
            self.plugins[i].upstream_request_filter(upstream_request, &mut ctx.plugin_ctx);
        }
        let pi = ctx.pipeline;
        if let Some(idx) = pi {
            if idx < self.matcher.pipelines.len() {
                let m: usize = self.matcher.pipelines[idx].plugins.len();
                for i in 0..m
                    invariant
                        (idx as int) < self.matcher.pipelines@.len(),
                        m == self.matcher.pipelines@[idx as int].plugins@.len(),
                        *upstream_request == *old(upstream_request),
                        *ctx == *old(ctx),
                {
                    self.matcher.pipelines[idx].plugins[i].upstream_request_filter(
                        upstream_request,
                        &mut ctx.plugin_ctx,
                    );
                }
            }
        }
    }

    /// Runs every plugin, global tier first, over the response header
    /// bound for the client, and moves the request to the responding
    /// phase. The core plugins leave the header as it is.
    pub fn response_filter(&self, upstream_response: &mut ResponseParts, ctx: &mut ProxyCtx)
        requires
            old(ctx).may_run_response_filter(),
        ensures
            *final(upstream_response) == *old(upstream_response),
            final(ctx).phase is Responding,
            final(ctx).pipeline == old(ctx).pipeline,
            final(ctx).cluster == old(ctx).cluster,
            final(ctx).plugin_ctx == old(ctx).plugin_ctx,
    {
        let n: usize = self.plugins.len();
        for i in 0..n
            invariant
                n == self.plugins@.len(),
                *upstream_response == *old(upstream_response),
                *ctx == *old(ctx),
        {
            self.plugins[i].response_filter(upstream_response, &mut ctx.plugin_ctx);
        }
        let pi = ctx.pipeline;
        if let Some(idx) = pi {
            if idx < self.matcher.pipelines.len() {
                let m: usize = self.matcher.pipelines[idx].plugins.len();
                for i in 0..m
                    invariant
                        (idx as int) < self.matcher.pipelines@.len(),
                        m == self.matcher.pipelines@[idx as int].plugins@.len(),
                        *upstream_response == *old(upstream_response),
                        *ctx == *old(ctx),
                {
                    self.matcher.pipelines[idx].plugins[i].response_filter(
                        upstream_response,
                        &mut ctx.plugin_ctx,
                    );
                }
            }
        }
        ctx.phase = ReqPhase::Responding;
    }

    /// Runs every plugin, global tier first, over one outbound body
    /// chunk, synchronously. The core plugins leave the chunk as it is.
    pub fn response_body_filter(
        &self,
        body: &mut Option<Vec<u8>>,
        end_of_stream: bool,
        ctx: &mut ProxyCtx,
    )
        requires
            old(ctx).may_run_response_body_filter(),
        ensures
            *final(body) == *old(body),
            *final(ctx) == *old(ctx),
    {
        let n: usize = self.plugins.len();
        for i in 0..n
            invariant
                n == self.plugins@.len(),
                *body == *old(body),
                *ctx == *old(ctx),
        {
            self.plugins[i].response_body_filter(body, end_of_stream, &mut ctx.plugin_ctx);
        }
        let pi = ctx.pipeline;
        if let Some(idx) = pi {
            if idx < self.matcher.pipelines.len() {
                let m: usize = self.matcher.pipelines[idx].plugins.len();
                for i in 0..m
                    invariant
                        (idx as int) < self.matcher.pipelines@.len(),
                        m == self.matcher.pipelines@[idx as int].plugins@.len(),
                        *body == *old(body),
                        *ctx == *old(ctx),
                {
                    self.matcher.pipelines[idx].plugins[i].response_body_filter(
                        body,
                        end_of_stream,
                        &mut ctx.plugin_ctx,
                    );
                }
            }
        }
    }

    /// The cluster the request's context points at: `NoCluster` when the
    /// context carries none, `ConnectNoRoute` when the name is unknown.
    pub fn upstream_cluster<'a>(&'a self, ctx: &'a ProxyCtx) -> (r: Result<
        &'a crate::clusters::ClusterSpec,
        ProxyRuntimeErr,
    >)
        ensures
            match ctx.cluster {
                None => r matches Err(e) && e is NoCluster,
                Some(cl) => match r {
                    Ok(s) => self.cluster_manager.spec_get_cluster(cl@) == Some(*s),
                    Err(e) => e is ConnectNoRoute && !self.cluster_manager.contains_cluster(cl@),
                },
            },
    {
        let cl = match &ctx.cluster {
            Some(c) => c,
            None => {
                return Err(ProxyRuntimeErr::NoCluster);
            },
        };
        match self.cluster_manager.get_cluster(cl.as_str()) {
            Some(s) => Ok(s),
            None => Err(ProxyRuntimeErr::ConnectNoRoute),
        }
    }

    /// Turns the balancer's choice into the peer the engine dials: plain
    /// HTTP with the fixed SNI, or the per-request error when the context
    /// has no cluster, the cluster is unknown, or no backend came back.
    pub fn upstream_peer(&self, ctx: &ProxyCtx, selected: Option<BackendEndpoint>) -> (r: Result<
        PeerSpec,
        ProxyRuntimeErr,
    >)
        requires
            ctx.may_select_peer(),
        ensures
            match ctx.cluster {
                None => r matches Err(e) && e is NoCluster,
                Some(cl) => if !self.cluster_manager.contains_cluster(cl@) {
                    r matches Err(e) && e is ConnectNoRoute
                } else {
                    match selected {
                        None => r matches Err(e) && (e matches ProxyRuntimeErr::NoBackend {
                            cluster,
                        } && cluster@ == cl@),
                        Some(b) => r matches Ok(p) && p.endpoint == b && p.tls == false && p.sni@
                            == "a.b.c"@,
                    }
                },
            },
    {
        let cl = match &ctx.cluster {
            Some(c) => c,
            None => {
                return Err(ProxyRuntimeErr::NoCluster);
            },
        };
        if self.cluster_manager.get_cluster(cl.as_str()).is_none() {
            return Err(ProxyRuntimeErr::ConnectNoRoute);
        }
        match selected {
            Some(b) => Ok(PeerSpec { endpoint: b, tls: false, sni: "a.b.c".to_owned() }),
            None => Err(ProxyRuntimeErr::NoBackend { cluster: cl.clone() }),
        }
    }
}

/// The access-log line of one finished request, in the Common-Log-like
/// form `<remote> "<method> <uri>" <status> <bytes_sent>`.
pub open spec fn spec_access_log_line(
    remote: Seq<char>,
    method: Seq<char>,
    uri: Seq<char>,
    status: int,
    bytes_sent: int,
) -> Seq<char> {
    remote + seq![' ', '"'] + method + seq![' '] + uri + seq!['"', ' '] + crate::utils::spec_decimal(
        status,
    ) + seq![' '] + crate::utils::spec_decimal(bytes_sent)
}

/// Renders the access-log line the logging hook emits.
pub fn access_log_line(remote: &str, method: &str, uri: &str, status: u16, bytes_sent: u64) -> (r:
    String)
    ensures
        r@ == spec_access_log_line(remote@, method@, uri@, status as int, bytes_sent as int),
{
    let mut s = remote.to_owned();
    proof {
        reveal_strlit(" \"");
        reveal_strlit(" ");
        reveal_strlit("\" ");
        assert(" \""@ =~= seq![' ', '"']);
        assert(" "@ =~= seq![' ']);
        assert("\" "@ =~= seq!['"', ' ']);
    }
    s.append(" \"");
    s.append(method);
    s.append(" ");
    s.append(uri);
    s.append("\" ");
    let st = crate::utils::u64_to_string(status as u64);
    s.append(st.as_str());
    s.append(" ");
    let by = crate::utils::u64_to_string(bytes_sent);
    s.append(by.as_str());
    s
}

/// Once a request filter has stopped a request, no later
/// `request_filter`, `request_body_filter`, `upstream_request_filter`,
/// response filter nor the upstream dial is admissible for it: every
/// phase gate excludes the short-circuited state.
pub proof fn short_circuited_blocks_all(ctx: ProxyCtx)
    requires
        ctx.phase is ShortCircuited,
    ensures
        !ctx.may_run_request_filter(),
        !ctx.may_run_request_body_filter(),
        !ctx.may_run_upstream_request_filter(),
        !ctx.may_select_peer(),
        !ctx.may_run_response_filter(),
        !ctx.may_run_response_body_filter(),
{
}

} // verus!
