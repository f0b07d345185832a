use penguin::builder::errors::BuilderError;
use penguin::builder::{build_plugin_list, build_proxy, init_discovery_providers, init_routes};
use penguin::clusters::ResolverRegistry;
use penguin::config::def::{
    Cluster, DiscoveryProvider, LbPolicy, Matcher, Plugin, ResolverType, Route, Service, StrMatch,
};
use penguin::config::value::ConfValue;
use penguin::errors::AppError;
use penguin::utils::u64_to_string;

fn mapping(entries: Vec<(&str, ConfValue)>) -> ConfValue {
    ConfValue::Mapping(entries.into_iter().map(|(k, v)| (k.to_string(), v)).collect())
}

fn route(name: &str, uri: Option<StrMatch>, cluster: &str, plugins: Option<Vec<Plugin>>) -> Route {
    Route {
        name: name.to_string(),
        matcher: Matcher { uri, headers: None },
        auth: None,
        plugins,
        cluster: cluster.to_string(),
    }
}

fn static_cluster(name: &str) -> Cluster {
    Cluster {
        name: name.to_string(),
        resolver: ResolverType::Static,
        lb_policy: LbPolicy::Random,
        config: Some(mapping(vec![(
            "endpoints",
            ConfValue::Sequence(vec![ConfValue::Str("127.0.0.1:9000".to_string())]),
        )])),
        health_checks: None,
    }
}

#[test]
fn init_routes_builds_all_three_matchers() {
    let routes = vec![
        route("a", Some(StrMatch::Exact("/a".to_string())), "c", None),
        route("b", Some(StrMatch::Prefix("/b/".to_string())), "c", None),
        route("c", Some(StrMatch::Regexp("^/c/(x+)$".to_string())), "c", None),
    ];
    let m = init_routes(routes).unwrap();
    assert!(m.match_request("/a").is_some());
    assert!(m.match_request("/b/tail/deep").is_some());
    assert!(m.match_request("/c/xxx").is_some());
    assert!(m.match_request("/d").is_none());
}

#[test]
fn init_routes_requires_uri() {
    let r = init_routes(vec![route("r", None, "c", None)]);
    match r {
        Err(BuilderError::LackUri { name }) => assert_eq!(name, "r"),
        _ => panic!("expected LackUri"),
    }
}

#[test]
fn init_routes_rejects_bad_regex() {
    let r = init_routes(vec![route(
        "r",
        Some(StrMatch::Regexp("(unclosed".to_string())),
        "c",
        None,
    )]);
    assert!(matches!(r, Err(BuilderError::Regexp { .. })));
}

#[test]
fn init_routes_reports_plugin_failures() {
    let plugins = Some(vec![Plugin { name: "cms_rate".to_string(), config: None }]);
    let r = init_routes(vec![route("r", Some(StrMatch::Exact("/".to_string())), "c", plugins)]);
    match r {
        Err(BuilderError::PluginBuild { name, .. }) => assert_eq!(name, "cms_rate"),
        _ => panic!("expected PluginBuild"),
    }
}

#[test]
fn build_plugin_list_orders_and_counts() {
    let cfg = Some(vec![
        Plugin {
            name: "echo".to_string(),
            config: Some(mapping(vec![("body", ConfValue::Str("x".to_string()))])),
        },
        Plugin {
            name: "cms_rate".to_string(),
            config: Some(mapping(vec![
                ("total", ConfValue::Int(5)),
                ("interval", ConfValue::Str("2s".to_string())),
            ])),
        },
    ]);
    let l = build_plugin_list(cfg).unwrap();
    assert_eq!(l.len(), 2);
    assert!(build_plugin_list(None).unwrap().is_empty());
}

#[test]
fn init_discovery_providers_notes_dns() {
    let none = init_discovery_providers(&Vec::new()).unwrap();
    assert!(!none.dns);
    let providers = vec![DiscoveryProvider {
        name: "d".to_string(),
        resolver_type: ResolverType::DNS,
        config: None,
    }];
    let some = init_discovery_providers(&providers).unwrap();
    assert!(some.dns);
}

#[test]
fn build_proxy_rejects_dangling_cluster() {
    let svc = Service {
        name: "s".to_string(),
        listeners: Vec::new(),
        plugins: None,
        routes: vec![route("r", Some(StrMatch::Exact("/".to_string())), "nope", None)],
        clusters: vec![static_cluster("web")],
    };
    let r = build_proxy(svc, &ResolverRegistry { dns: false });
    match r {
        Err(AppError::Builder { source: BuilderError::LackConfig { name } }) => {
            assert_eq!(name, "nope")
        }
        _ => panic!("expected a dangling-cluster rejection"),
    }
}

#[test]
fn build_proxy_accepts_resolving_routes() {
    let svc = Service {
        name: "s".to_string(),
        listeners: Vec::new(),
        plugins: None,
        routes: vec![route("r", Some(StrMatch::Exact("/svc".to_string())), "web", None)],
        clusters: vec![static_cluster("web")],
    };
    let p = build_proxy(svc, &ResolverRegistry { dns: false }).unwrap();
    let mut ctx = p.new_ctx();
    let (stop, _) = p.request_filter("/svc", &mut ctx);
    assert!(!stop);
    assert!(p.upstream_cluster(&ctx).is_ok());
}

#[test]
fn decimal_rendering() {
    assert_eq!(u64_to_string(0), "0");
    assert_eq!(u64_to_string(7), "7");
    assert_eq!(u64_to_string(65535), "65535");
    assert_eq!(u64_to_string(1234567890), "1234567890");
}
