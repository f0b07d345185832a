use penguin::api::plugin::Plugin;
use penguin::clusters::discovery::BackendEndpoint;
use penguin::clusters::ClusterManager;
use penguin::config::def::{IpAddress, SocketAddress};
use penguin::config::value::ConfValue;
use penguin::plugins::create_plugin_builder;
use penguin::proxy::errors::ProxyRuntimeErr;
use penguin::proxy::process::{access_log_line, MatchEntry, Pipeline, Proxy, ReqPhase};
use penguin::utils::ResponseParts;

fn mapping(entries: Vec<(&str, ConfValue)>) -> ConfValue {
    ConfValue::Mapping(entries.into_iter().map(|(k, v)| (k.to_string(), v)).collect())
}

fn echo_plugin(body: &str, status: i64) -> Plugin {
    let cfg = mapping(vec![
        ("body", ConfValue::Str(body.to_string())),
        ("status_code", ConfValue::Int(status)),
    ]);
    create_plugin_builder("echo", Some(cfg)).unwrap()
}

fn empty_manager() -> ClusterManager {
    ClusterManager::new(Vec::new(), &penguin::clusters::ResolverRegistry { dns: false }).unwrap()
}

fn header_value<'a>(r: &'a ResponseParts, name: &str) -> Option<&'a str> {
    for (k, v) in &r.headers {
        if k == name {
            return Some(v.as_str());
        }
    }
    None
}

#[test]
fn request_filter_miss_sends_404() {
    let proxy = Proxy::new(MatchEntry::new(), empty_manager(), Vec::new());
    let mut ctx = proxy.new_ctx();
    let (stop, resp) = proxy.request_filter("/nope", &mut ctx);
    assert!(stop);
    let resp = resp.unwrap();
    assert_eq!(resp.status, 404);
    assert_eq!(resp.body.as_deref(), Some(b"not found".as_slice()));
    assert_eq!(header_value(&resp, "content-length"), Some("9"));
    assert_eq!(header_value(&resp, "content-type"), Some("text/plain"));
    assert!(matches!(ctx.phase, ReqPhase::ShortCircuited));
}

#[test]
fn prefix_route_echo_short_circuits() {
    let mut m = MatchEntry::new();
    let revised = penguin::builder::revise_prefix("/echo/");
    m.insert_route(revised.as_str(), Pipeline::new(vec![echo_plugin("hi", 201)], "any".to_string()))
        .unwrap();
    let proxy = Proxy::new(m, empty_manager(), Vec::new());
    let mut ctx = proxy.new_ctx();
    let (stop, resp) = proxy.request_filter("/echo/world", &mut ctx);
    assert!(stop);
    let resp = resp.unwrap();
    assert_eq!(resp.status, 201);
    assert_eq!(resp.body.as_deref(), Some(b"hi".as_slice()));
    assert_eq!(header_value(&resp, "content-type"), Some("text/plain"));
    assert_eq!(header_value(&resp, "content-length"), Some("2"));
    assert!(matches!(ctx.phase, ReqPhase::ShortCircuited));
}

#[test]
fn match_binds_context() {
    let mut m = MatchEntry::new();
    m.insert_route("/svc", Pipeline::new(Vec::new(), "web".to_string())).unwrap();
    let proxy = Proxy::new(m, empty_manager(), Vec::new());
    let mut ctx = proxy.new_ctx();
    let (stop, resp) = proxy.request_filter("/svc", &mut ctx);
    assert!(!stop);
    assert!(resp.is_none());
    assert_eq!(ctx.cluster.as_deref(), Some("web"));
    assert_eq!(ctx.pipeline, Some(0));
    assert!(ctx.plugin_ctx.route_params.is_some());
    assert!(matches!(ctx.phase, ReqPhase::Forwarding));
}

#[test]
fn global_stop_skips_match() {
    let proxy = Proxy::new(MatchEntry::new(), empty_manager(), vec![echo_plugin("stop", 200)]);
    let mut ctx = proxy.new_ctx();
    let (stop, resp) = proxy.request_filter("/anything", &mut ctx);
    assert!(stop);
    assert_eq!(resp.unwrap().status, 200);
    assert!(ctx.cluster.is_none());
    assert!(matches!(ctx.phase, ReqPhase::ShortCircuited));
}

#[test]
fn body_filters_leave_chunks_alone() {
    let mut m = MatchEntry::new();
    m.insert_route("/svc", Pipeline::new(Vec::new(), "web".to_string())).unwrap();
    let proxy = Proxy::new(m, empty_manager(), Vec::new());
    let mut ctx = proxy.new_ctx();
    let (stop, _) = proxy.request_filter("/svc", &mut ctx);
    assert!(!stop);
    let mut chunk = Some(b"payload".to_vec());
    proxy.request_body_filter(&mut chunk, false, &mut ctx);
    assert_eq!(chunk.as_deref(), Some(b"payload".as_slice()));
}

#[test]
fn upstream_peer_outcomes() {
    let cluster_cfg = penguin::config::def::Cluster {
        name: "web".to_string(),
        resolver: penguin::config::def::ResolverType::Static,
        lb_policy: penguin::config::def::LbPolicy::Random,
        config: Some(mapping(vec![(
            "endpoints",
            ConfValue::Sequence(vec![ConfValue::Str("127.0.0.1:9000".to_string())]),
        )])),
        health_checks: None,
    };
    let cm = ClusterManager::new(
        vec![cluster_cfg],
        &penguin::clusters::ResolverRegistry { dns: false },
    )
    .unwrap();
    let mut m = MatchEntry::new();
    m.insert_route("/svc", Pipeline::new(Vec::new(), "web".to_string())).unwrap();
    let proxy = Proxy::new(m, cm, Vec::new());
    let mut ctx = proxy.new_ctx();
    let (stop, _) = proxy.request_filter("/svc", &mut ctx);
    assert!(!stop);

    let backend = BackendEndpoint {
        addr: SocketAddress { ip: IpAddress::V4(127, 0, 0, 1), port: 9000 },
        weight: 1,
    };
    let peer = proxy.upstream_peer(&ctx, Some(backend)).unwrap();
    assert_eq!(peer.endpoint, backend);
    assert!(!peer.tls);
    assert_eq!(peer.sni, "a.b.c");

    match proxy.upstream_peer(&ctx, None) {
        Err(ProxyRuntimeErr::NoBackend { cluster }) => assert_eq!(cluster, "web"),
        _ => panic!("expected NoBackend"),
    }

    let mut ctx2 = ctx;
    ctx2.cluster = Some("unknown".to_string());
    assert!(matches!(proxy.upstream_peer(&ctx2, Some(backend)), Err(ProxyRuntimeErr::ConnectNoRoute)));
    ctx2.cluster = None;
    assert!(matches!(proxy.upstream_peer(&ctx2, Some(backend)), Err(ProxyRuntimeErr::NoCluster)));
}

#[test]
fn access_log_line_format() {
    let line = access_log_line("10.0.0.9:1234", "GET", "/a/b?q=1", 200, 512);
    assert_eq!(line, "10.0.0.9:1234 \"GET /a/b?q=1\" 200 512");
}
