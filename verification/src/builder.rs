//! The builder: turns validated configuration records into the route
//! matcher, the plugin lists and, per service, the whole proxy engine.

use vstd::prelude::*;
use vstd::string::*;

pub mod errors;

use crate::api::plugin::Plugin as PluginInstance;
use crate::clusters::{ClusterManager, ResolverRegistry};
use crate::config::def::{DiscoveryProvider, Plugin, ResolverType, Route, Service, StrMatch};
use crate::errors::AppError;
use crate::plugins::errors::PluginError;
use crate::plugins::{create_plugin_builder, spec_plugin_build_err, spec_plugin_buildable,
    spec_registry_contains};
use crate::plugins::cms_rate::spec_cms_built;
use crate::plugins::echo::spec_echo_built;
use crate::proxy::process::{empty_routes, regex_is_valid, regex_valid, router_insert_ok,
    spec_brace_count, spec_contains_path, MatchEntry, Pipeline, Proxy};
use errors::BuilderError;

verus! {

/// Which resolver kinds the configuration asks for. The DNS resolver
/// itself is process state owned by the front-end; clusters only need to
/// know that it exists.
pub fn init_discovery_providers(cfg: &Vec<DiscoveryProvider>) -> (r: Result<
    ResolverRegistry,
    BuilderError,
>)
    ensures
        r matches Ok(reg) && reg.dns == (exists|j: int|
            0 <= j < cfg@.len() && (#[trigger] cfg@[j].resolver_type) is DNS),
{
    let mut dns: bool = false;
    let n: usize = cfg.len();
    for i in 0..n
        invariant
            n == cfg@.len(),
            dns == (exists|j: int| 0 <= j < i && (#[trigger] cfg@[j].resolver_type) is DNS),
    {
        if cfg[i].resolver_type == ResolverType::DNS {
            dns = true;
        }
    }
    Ok(ResolverRegistry { dns })
}

/// Every plugin of the list carries a registered name.
pub open spec fn spec_plugins_registered(ps: Seq<PluginInstance>) -> bool {
    forall|i: int| 0 <= i < ps.len() ==> spec_registry_contains((#[trigger] ps[i]).spec_name())
}

/// A built plugin, related to its configuration entry.
pub open spec fn spec_plugin_built(cfgp: Plugin, p: PluginInstance) -> bool {
    &&& p.spec_name() == cfgp.name@
    &&& match p {
        PluginInstance::Echo(ep) => spec_echo_built(cfgp.config, ep),
        PluginInstance::CmsRate(cp) => spec_cms_built(cfgp.config, cp),
    }
}

/// Builds each configured plugin in order; a name outside the registry
/// or a bad fragment aborts with `PluginBuild`.
pub fn build_plugin_list(cfg: Option<Vec<Plugin>>) -> (r: Result<
    Vec<PluginInstance>,
    BuilderError,
>)
    ensures
        match r {
            Ok(l) => {
                &&& spec_plugins_registered(l@)
                &&& match cfg {
                    None => l@.len() == 0,
                    Some(ps) => l@.len() == ps@.len() && forall|i: int|
                        0 <= i < ps@.len() ==> (spec_plugin_built(ps@[i], #[trigger] l@[i])
                            && spec_plugin_buildable(ps@[i])),
                }
            },
            Err(e) => e matches BuilderError::PluginBuild { name, source } && (cfg matches Some(ps)
                && exists|i: int|
                #![auto]
                0 <= i < ps@.len() && ps@[i].name@ == name@ && spec_plugin_build_err(
                    ps@[i],
                    source,
                ) && (forall|j: int| 0 <= j < i ==> spec_plugin_buildable(#[trigger] ps@[j]))),
        },
{
    let mut out: Vec<PluginInstance> = Vec::new();
    let mut rest = match cfg {
        Some(ps) => ps,
        None => {
            return Ok(out);
        },
    };
    let ghost all = rest@;
    proof {
        assert(all.skip(0) =~= all);
    }
    while rest.len() > 0
        invariant
            cfg matches Some(ps0) && ps0@ == all,
            out@.len() + rest@.len() == all.len(),
            rest@ =~= all.skip(out@.len() as int),
            forall|i: int|
                0 <= i < out@.len() ==> (spec_plugin_built(all[i], #[trigger] out@[i])
                    && spec_plugin_buildable(all[i])),
        decreases rest@.len(),
    {
        let ghost k = out@.len() as int;
        proof {
            assert(rest@[0] == all[k]);
        }
        let pl = rest.remove(0);
        let ghost plg = pl;
        let name = pl.name;
        match create_plugin_builder(name.as_str(), pl.config) {
            Ok(p) => {
                proof {
                    reveal_strlit("echo");
                    reveal_strlit("cms_rate");
                    assert("echo"@.len() == 4);
                    assert("cms_rate"@.len() == 8);
                    assert(plg == all[k]);
                    match &p {
                        PluginInstance::Echo(ep) => {
                            assert(all[k].name@ == "echo"@);
                            assert(crate::plugins::echo::spec_echo_ok(all[k].config));
                        },
                        PluginInstance::CmsRate(cp) => {
                            assert(all[k].name@ == "cms_rate"@);
                            assert(crate::plugins::cms_rate::spec_cms_ok(all[k].config));
                        },
                    }
                    assert(spec_plugin_buildable(all[k]));
                }
                out.push(p);
            },
            Err(e) => {
                proof {
                    reveal_strlit("echo");
                    reveal_strlit("cms_rate");
                    assert("echo"@.len() == 4);
                    assert("cms_rate"@.len() == 8);
                    assert("echo"@ != "cms_rate"@);
                    assert(plg == all[k]);
                    assert(all[k].name@ == name@);
                    if !spec_registry_contains(all[k].name@) {
                        assert(e matches PluginError::UnknownPlugin { name: n } && n@ == name@);
                    } else if all[k].name@ == "echo"@ {
                        assert(crate::plugins::echo::spec_echo_err(all[k].config, e));
                    } else {
                        assert(all[k].name@ == "cms_rate"@);
                        assert(crate::plugins::cms_rate::spec_cms_err(all[k].config, e));
                    }
                    assert(spec_plugin_build_err(all[k], e));
                    assert forall|j: int| 0 <= j < k implies spec_plugin_buildable(
                        #[trigger] all[j],
                    ) by {
                        assert(spec_plugin_built(all[j], out@[j]));
                    }
                    assert(0 <= k < all.len() && all[k].name@ == name@ && spec_plugin_build_err(
                        all[k],
                        e,
                    ) && (forall|j: int| 0 <= j < k ==> spec_plugin_buildable(#[trigger] all[j])));
                }
                return Err(BuilderError::PluginBuild { name, source: e });
            },
        }
        proof {
            assert(all.skip(k).skip(1) =~= all.skip(k + 1));
        }
    }
    proof {
        assert(all.skip(all.len() as int).len() == 0);
        assert(forall|i: int|
            0 <= i < out@.len() ==> spec_registry_contains((#[trigger] out@[i]).spec_name()));
    }
    Ok(out)
}

/// Whether the prefix already ends in the router's catch-all tail.
pub open spec fn spec_ends_with_rest(p: Seq<char>) -> bool {
    p.len() >= 7 && p.skip(p.len() - 7) == "{*rest}"@
}

/// The catch-all form the path router expects of a prefix: one already
/// ending in `{*rest}` is left as it is, a trailing `*` is replaced by
/// `{*rest}`, and anything else has `{*rest}` appended.
pub open spec fn spec_revise_prefix(p: Seq<char>) -> Seq<char> {
    if spec_ends_with_rest(p) {
        p
    } else if p.len() > 0 && p.last() == '*' {
        p.drop_last() + "{*rest}"@
    } else {
        p + "{*rest}"@
    }
}

fn ends_with_rest(p: &str) -> (r: bool)
    ensures
        r == spec_ends_with_rest(p@),
{
    let len = p.unicode_len();
    if len < 7 {
        return false;
    }
    let r = p.get_char(len - 7) == '{' && p.get_char(len - 6) == '*' && p.get_char(len - 5) == 'r'
        && p.get_char(len - 4) == 'e' && p.get_char(len - 3) == 's' && p.get_char(len - 2) == 't'
        && p.get_char(len - 1) == '}';
    proof {
        reveal_strlit("{*rest}");
        assert("{*rest}"@ =~= seq!['{', '*', 'r', 'e', 's', 't', '}']);
        assert(forall|j: int| 0 <= j < 7 ==> #[trigger] p@.skip(len - 7)[j] == p@[len - 7 + j]);
        if r {
            assert(p@.skip(len - 7) =~= "{*rest}"@);
        }
        if p@.skip(len - 7) == "{*rest}"@ {
            assert(p@[len - 7] == p@.skip(len - 7)[0] && p@[len - 6] == p@.skip(len - 7)[1]
                && p@[len - 5] == p@.skip(len - 7)[2] && p@[len - 4] == p@.skip(len - 7)[3]
                && p@[len - 3] == p@.skip(len - 7)[4] && p@[len - 2] == p@.skip(len - 7)[5]
                && p@[len - 1] == p@.skip(len - 7)[6]);
            assert(p@[len - 7] == '{' && p@[len - 6] == '*' && p@[len - 5] == 'r' && p@[len - 4]
                == 'e' && p@[len - 3] == 's' && p@[len - 2] == 't' && p@[len - 1] == '}');
        }
    }
    r
}

/// Normalizes a prefix route for the path router: only the trailing `*`
/// is rewritten, and an already-normalized prefix is left alone.
pub fn revise_prefix(prefix: &str) -> (r: String)
    ensures
        r@ == spec_revise_prefix(prefix@),
{
    if ends_with_rest(prefix) {
        return prefix.to_owned();
    }
    let len = prefix.unicode_len();
    if len > 0 && prefix.get_char(len - 1) == '*' {
        let head = prefix.substring_char(0, len - 1);
        proof {
            assert(head@ =~= prefix@.drop_last());
        }
        let mut out = head.to_owned();
        out.append("{*rest}");
        out
    } else {
        let mut out = prefix.to_owned();
        out.append("{*rest}");
        out
    }
}

/// A prefix that neither carries the catch-all tail nor ends in `*` is
/// revised by appending the tail, nothing else.
pub proof fn lemma_revise_prefix_appends(p: Seq<char>)
    requires
        !spec_ends_with_rest(p),
        p.len() == 0 || p.last() != '*',
    ensures
        spec_revise_prefix(p) == p + "{*rest}"@,
{
}

/// Every revised prefix ends in the catch-all tail, and one already in
/// that form is left unchanged — so it still matches the same URI set,
/// and normalizing is idempotent.
pub proof fn lemma_revise_prefix_idempotent(p: Seq<char>)
    ensures
        spec_ends_with_rest(p) ==> spec_revise_prefix(p) == p,
        spec_revise_prefix(spec_revise_prefix(p)) == spec_revise_prefix(p),
{
    reveal_strlit("{*rest}");
    let q = spec_revise_prefix(p);
    assert("{*rest}"@.len() == 7);
    if spec_ends_with_rest(p) {
    } else if p.len() > 0 && p.last() == '*' {
        assert(q.skip(q.len() - 7) =~= "{*rest}"@);
    } else {
        assert(q.skip(q.len() - 7) =~= "{*rest}"@);
    }
    assert(spec_ends_with_rest(q));
}

fn build_pipleline(cfg: Option<Vec<Plugin>>, cluster: &str) -> (r: Result<Pipeline, BuilderError>)
    ensures
        match r {
            Ok(p) => p.cluster@ == cluster@ && spec_plugin_list_built(cfg, p.plugins@)
                && spec_plugins_registered(p.plugins@),
            Err(e) => e matches BuilderError::PluginBuild { name, source } && (cfg matches Some(ps)
                && exists|i: int| 0 <= i < ps@.len() && name@ == (#[trigger] ps@[i]).name@),
        },
{
    let plugins = match build_plugin_list(cfg) {
        Ok(l) => l,
        Err(e) => {
            return Err(e);
        },
    };
    Ok(Pipeline::new(plugins, cluster.to_owned()))
}

/// A matcher's contents as the builder grows them: inserted path
/// patterns, the path-route map, the regex routes, and the pipelines.
pub type MatcherModel = (Seq<Seq<char>>, Map<Seq<char>, int>, Seq<(Seq<char>, int)>, Seq<Pipeline>);

/// The contents of a built matcher.
pub open spec fn spec_matcher_model(m: MatchEntry) -> MatcherModel {
    (m.inserted_paths(), m.routes(), m.regex_views(), m.pipelines@)
}

/// A matcher with nothing in it.
pub open spec fn spec_empty_model() -> MatcherModel {
    (Seq::empty(), crate::proxy::process::empty_routes(), Seq::empty(), Seq::empty())
}

/// A plugin list built from its configuration entries, in order.
pub open spec fn spec_plugin_list_built(cfg: Option<Vec<Plugin>>, ps: Seq<PluginInstance>) -> bool {
    match cfg {
        None => ps.len() == 0,
        Some(l) => ps.len() == l@.len() && forall|i: int|
            0 <= i < l@.len() ==> spec_plugin_built(l@[i], #[trigger] ps[i]),
    }
}

/// A pipeline built from one route: the route's cluster and its plugins.
pub open spec fn spec_pipeline_built(r: Route, ppl: Pipeline) -> bool {
    &&& ppl.cluster@ == r.cluster@
    &&& spec_plugin_list_built(r.plugins, ppl.plugins@)
}

/// Entering one pattern into the path router: a pattern already entered
/// is a silent no-op (the first insertion wins); otherwise the router
/// accepted it and it is bound to a fresh pipeline.
pub open spec fn spec_insert_step(
    pat: Seq<char>,
    ppl: Pipeline,
    m0: MatcherModel,
    m1: MatcherModel,
) -> bool {
    if spec_contains_path(m0.0, pat) {
        m1 == m0
    } else {
        &&& spec_brace_count(pat) <= 25
        &&& router_insert_ok(m0.1, pat)
        &&& m1 == (m0.0.push(pat), m0.1.insert(pat, m0.3.len() as int), m0.2, m0.3.push(ppl))
    }
}

/// How one route changes the matcher: a regex route (with a valid
/// pattern) is appended to the regex list; a prefix route is entered
/// under its revised pattern and an exact route as it is; the route must
/// have a URI matcher.
pub open spec fn spec_route_step(r: Route, m0: MatcherModel, m1: MatcherModel) -> bool {
    exists|ppl: Pipeline|
        #[trigger] spec_pipeline_built(r, ppl) && (match r.matcher.uri {
            Some(u) => match u {
                StrMatch::Regexp(re) => regex_valid(re@) && m1 == (
                    m0.0,
                    m0.1,
                    m0.2.push((re@, m0.3.len() as int)),
                    m0.3.push(ppl),
                ),
                StrMatch::Prefix(p) => spec_insert_step(spec_revise_prefix(p@), ppl, m0, m1),
                StrMatch::Exact(e) => spec_insert_step(e@, ppl, m0, m1),
            },
            None => false,
        })
}

/// The matcher grown from `m0` by the routes, one step each, in order.
pub open spec fn spec_routes_built(routes: Seq<Route>, m0: MatcherModel, m1: MatcherModel) -> bool
    decreases routes.len(),
{
    if routes.len() == 0 {
        m1 == m0
    } else {
        exists|mid: MatcherModel|
            #![auto]
            spec_route_step(routes[0], m0, mid) && spec_routes_built(routes.skip(1), mid, m1)
    }
}

proof fn lemma_routes_built_snoc(
    routes: Seq<Route>,
    r: Route,
    m0: MatcherModel,
    m1: MatcherModel,
    m2: MatcherModel,
)
    requires
        spec_routes_built(routes, m0, m1),
        spec_route_step(r, m1, m2),
    ensures
        spec_routes_built(routes.push(r), m0, m2),
    decreases routes.len(),
{
    if routes.len() == 0 {
        assert(routes.push(r)[0] == r);
        assert(routes.push(r).skip(1) =~= Seq::empty());
        assert(spec_routes_built(routes.push(r).skip(1), m2, m2));
    } else {
        let mid = choose|mid: MatcherModel|
            #![auto]
            spec_route_step(routes[0], m0, mid) && spec_routes_built(routes.skip(1), mid, m1);
        lemma_routes_built_snoc(routes.skip(1), r, mid, m1, m2);
        assert(routes.skip(1).push(r) =~= routes.push(r).skip(1));
        assert(routes.push(r)[0] == routes[0]);
    }
}

/// Every pipeline the matcher holds names a cluster of one of the given
/// routes, and holds registered plugins only.
pub open spec fn spec_pipelines_from_routes(m: MatchEntry, routes: Seq<Route>) -> bool {
    forall|i: int|
        0 <= i < m.pipelines@.len() ==> ((exists|j: int|
            0 <= j < routes.len() && (#[trigger] m.pipelines@[i]).cluster@
                == routes[j].cluster@) && spec_plugins_registered(m.pipelines@[i].plugins@))
}

/// Builds the route matcher: one pipeline per route, entered under its
/// URI matcher — regex routes in insertion order after the path routes.
/// The error a matcher build reports, related to the routes.
pub open spec fn spec_init_routes_err(cfg: Seq<Route>, e: BuilderError) -> bool {
    match e {
        BuilderError::LackUri { name } => exists|j: int|
            0 <= j < cfg.len() && ((#[trigger] cfg[j]).matcher.uri is None && name@
                == cfg[j].name@),
        BuilderError::Regexp { re, message } => !regex_valid(re@) && exists|j: int|
            0 <= j < cfg.len() && ((#[trigger] cfg[j]).matcher.uri matches Some(
                StrMatch::Regexp(p),
            ) && p@ == re@),
        BuilderError::PluginBuild { name, source } => exists|j: int|
            0 <= j < cfg.len() && ((#[trigger] cfg[j]).plugins matches Some(ps) && exists|k: int|
                0 <= k < ps@.len() && ps@[k].name@ == name@),
        BuilderError::InsertRoute { path, message } => exists|j: int|
            0 <= j < cfg.len() && ((#[trigger] cfg[j]).matcher.uri matches Some(u) && ((u matches
            StrMatch::Prefix(p) && p@ == path@) || (u matches StrMatch::Exact(x) && x@
                == path@))),
        BuilderError::LackConfig { name } => false,
    }
}

pub fn init_routes(cfg: Vec<Route>) -> (r: Result<MatchEntry, BuilderError>)
    ensures
        match r {
            Ok(m) => m.wf() && spec_pipelines_from_routes(m, cfg@) && spec_routes_built(
                cfg@,
                spec_empty_model(),
                spec_matcher_model(m),
            ),
            Err(e) => spec_init_routes_err(cfg@, e),
        },
{
    let mut matcher = MatchEntry::new();
    let mut rest = cfg;
    let ghost all = rest@;
    proof {
        assert(all.skip(0) =~= all);
        assert(all.take(0) =~= Seq::<Route>::empty());
        assert(matcher.inserted_paths() =~= Seq::<Seq<char>>::empty());
        assert(matcher.regex_views() =~= Seq::<(Seq<char>, int)>::empty());
        assert(matcher.pipelines@ =~= Seq::<Pipeline>::empty());
        assert(spec_matcher_model(matcher) == spec_empty_model());
    }
    while rest.len() > 0
        invariant
            all == cfg@,
            rest@.len() <= all.len(),
            rest@ =~= all.skip((all.len() - rest@.len()) as int),
            matcher.wf(),
            spec_pipelines_from_routes(matcher, all),
            spec_routes_built(
                all.take((all.len() - rest@.len()) as int),
                spec_empty_model(),
                spec_matcher_model(matcher),
            ),
        decreases rest@.len(),
    {
        let ghost k = (all.len() - rest@.len()) as int;
        let ghost pre = spec_matcher_model(matcher);
        let ghost uris0 = matcher.regex_uris@;
        proof {
            assert(rest@[0] == all[k]);
        }
        let one_route = rest.remove(0);
        let Route { name, matcher: rmatcher, auth: _auth, plugins, cluster } = one_route;
        let ppl = match build_pipleline(plugins, cluster.as_str()) {
            Ok(p) => p,
            Err(e) => {
                return Err(e);
            },
        };
        let ghost pplg = ppl;
        let pipe_count: usize = matcher.pipelines.len();
        proof {
            assert(pre.3.len() == pipe_count as int);
            assert(ppl.cluster@ == all[k].cluster@);
            assert(spec_pipeline_built(all[k], pplg));
        }
        match rmatcher.uri {
            Some(StrMatch::Regexp(re)) => {
                if !regex_is_valid(re.as_str()) {
                    return Err(
                        BuilderError::Regexp {
                            re,
                            message: "failed to compile regex".to_owned(),
                        },
                    );
                }
                let ghost rev = re@;
                matcher.add_regex_route(re, ppl);
                proof {
                    let want = pre.2.push((rev, pre.3.len() as int));
                    assert(matcher.regex_views().len() == want.len());
                    assert forall|j: int| 0 <= j < matcher.regex_views().len() implies
                        matcher.regex_views()[j] == want[j] by {
                        assert(matcher.regex_views()[j] == (
                            matcher.regex_uris@[j].0@,
                            matcher.regex_uris@[j].1 as int,
                        ));
                        assert(pre.2.len() == uris0.len());
                        if j < uris0.len() {
                            assert(matcher.regex_uris@[j] == uris0[j]);
                            assert(pre.2[j] == (uris0[j].0@, uris0[j].1 as int));
                            assert(want[j] == pre.2[j]);
                        } else {
                            assert(matcher.regex_uris@[j] == (
                                matcher.regex_uris@[j].0,
                                matcher.regex_uris@[j].1,
                            ));
                            assert(matcher.regex_uris@[j].0@ == rev);
                            assert(matcher.regex_uris@[j].1 == pre.3.len() as usize);
                            assert(want[j] == (rev, pre.3.len() as int));
                        }
                    }
                    assert(matcher.regex_views() =~= want);
                    assert(spec_route_step(all[k], pre, spec_matcher_model(matcher)));
                }
            },
            Some(StrMatch::Prefix(prefix)) => {
                let revised = revise_prefix(prefix.as_str());
                match matcher.insert_route(revised.as_str(), ppl) {
                    Ok(_) => {
                        proof {
                            assert(spec_insert_step(
                                spec_revise_prefix(prefix@),
                                pplg,
                                pre,
                                spec_matcher_model(matcher),
                            ));
                            assert(spec_route_step(all[k], pre, spec_matcher_model(matcher)));
                        }
                    },
                    Err(message) => {
                        return Err(BuilderError::InsertRoute { path: prefix, message });
                    },
                }
            },
            Some(StrMatch::Exact(exact)) => {
                match matcher.insert_route(exact.as_str(), ppl) {
                    Ok(_) => {
                        proof {
                            assert(spec_insert_step(
                                exact@,
                                pplg,
                                pre,
                                spec_matcher_model(matcher),
                            ));
                            assert(spec_route_step(all[k], pre, spec_matcher_model(matcher)));
                        }
                    },
                    Err(message) => {
                        return Err(BuilderError::InsertRoute { path: exact, message });
                    },
                }
            },
            None => {
                return Err(BuilderError::LackUri { name });
            },
        }
        proof {
            assert(all.skip(k).skip(1) =~= all.skip(k + 1));
            lemma_routes_built_snoc(
                all.take(k),
                all[k],
                spec_empty_model(),
                pre,
                spec_matcher_model(matcher),
            );
            assert(all.take(k).push(all[k]) =~= all.take(k + 1));
        }
    }
    proof {
        assert(all.take(all.len() as int) =~= all);
    }
    Ok(matcher)
}

/// Builds one service's engine: its matcher, its cluster manager and its
/// global plugins. A route whose cluster the service does not declare is
/// rejected here, so an accepted route always resolves at request time.
pub fn build_proxy(svc: Service, resolvers: &ResolverRegistry) -> (r: Result<Proxy, AppError>)
    ensures
        match r {
            Ok(p) => {
                &&& p.wf()
                &&& forall|i: int|
                    0 <= i < p.matcher.pipelines@.len() ==> p.cluster_manager.contains_cluster(
                        (#[trigger] p.matcher.pipelines@[i]).cluster@,
                    )
                &&& spec_routes_built(svc.routes@, spec_empty_model(), spec_matcher_model(p.matcher))
                &&& spec_plugin_list_built(svc.plugins, p.plugins@)
                &&& crate::clusters::spec_clusters_built(svc.clusters@, p.cluster_manager)
                &&& spec_plugins_registered(p.plugins@)
                &&& forall|i: int|
                    0 <= i < p.matcher.pipelines@.len() ==> spec_plugins_registered(
                        (#[trigger] p.matcher.pipelines@[i]).plugins@,
                    )
            },
            Err(e) => match e {
                AppError::Builder { source } => {
                    ||| spec_init_routes_err(svc.routes@, source)
                    ||| (source matches BuilderError::PluginBuild { name, source: se } && (
                    svc.plugins matches Some(ps) && exists|i: int|
                        0 <= i < ps@.len() && name@ == (#[trigger] ps@[i]).name@))
                    ||| (source matches BuilderError::LackConfig { name } && exists|j: int|
                        0 <= j < svc.routes@.len() && (#[trigger] svc.routes@[j]).cluster@
                            == name@)
                },
                AppError::Cluster { source } => crate::clusters::spec_clusters_err(
                    svc.clusters@,
                    *resolvers,
                    source,
                ),
                _ => false,
            },
        },
{
    let Service { name: _name, listeners: _listeners, plugins, routes, clusters } = svc;
    let matcher = match init_routes(routes) {
        Ok(m) => m,
        Err(e) => {
            return Err(AppError::Builder { source: e });
        },
    };
    let cluster_manager = match ClusterManager::new(clusters, resolvers) {
        Ok(m) => m,
        Err(e) => {
            return Err(AppError::Cluster { source: e });
        },
    };
    let global_plugins = match build_plugin_list(plugins) {
        Ok(l) => l,
        Err(e) => {
            return Err(AppError::Builder { source: e });
        },
    };
    let n: usize = matcher.pipelines.len();
    for i in 0..n
        invariant
            n == matcher.pipelines@.len(),
            spec_pipelines_from_routes(matcher, svc.routes@),
            forall|j: int|
                0 <= j < i ==> cluster_manager.contains_cluster(
                    (#[trigger] matcher.pipelines@[j]).cluster@,
                ),
    {
        if cluster_manager.get_cluster(matcher.pipelines[i].cluster.as_str()).is_none() {
            return Err(
                AppError::Builder {
                    source: BuilderError::LackConfig {
                        name: matcher.pipelines[i].cluster.clone(),
                    },
                },
            );
        }
    }
    Ok(Proxy::new(matcher, cluster_manager, global_plugins))
}

} // verus!
