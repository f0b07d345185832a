use penguin::config::def::{
    Config, IpAddress, Listener, Protocol, Service, SocketAddress, SslConfig,
};
use penguin::config::value::ConfValue;

fn listener(protocol: Protocol, ssl: Option<SslConfig>) -> Listener {
    Listener {
        name: "l".to_string(),
        address: SocketAddress { ip: IpAddress::V4(127, 0, 0, 1), port: 8080 },
        protocol,
        ssl_config: ssl,
    }
}

fn service(listeners: Vec<Listener>, n_routes: usize) -> Service {
    let mut routes = Vec::new();
    for i in 0..n_routes {
        routes.push(penguin::config::def::Route {
            name: format!("r{}", i),
            matcher: penguin::config::def::Matcher {
                uri: Some(penguin::config::def::StrMatch::Exact("/x".to_string())),
                headers: None,
            },
            auth: None,
            plugins: None,
            cluster: "web".to_string(),
        });
    }
    Service {
        name: "svc".to_string(),
        listeners,
        plugins: None,
        routes,
        clusters: Vec::new(),
    }
}

#[test]
fn config_zero_services_fails_validation() {
    let c = Config { identities: Vec::new(), services: Vec::new(), discovery_providers: Vec::new() };
    assert!(c.validate().is_err());
}

#[test]
fn config_one_service_passes_validation() {
    let c = Config {
        identities: Vec::new(),
        services: vec![service(vec![listener(Protocol::HTTP, None)], 1)],
        discovery_providers: Vec::new(),
    };
    assert!(c.validate().is_ok());
}

#[test]
fn https_listener_without_ssl_fails_validation() {
    let l = listener(Protocol::HTTPS, None);
    assert!(penguin::config::def::validate_listener(&l).is_err());
    let c = Config {
        identities: Vec::new(),
        services: vec![service(vec![listener(Protocol::HTTPS, None)], 1)],
        discovery_providers: Vec::new(),
    };
    assert!(c.validate().is_err());
}

#[test]
fn https_listener_with_ssl_passes_validation() {
    let ssl = SslConfig { cert_path: "c.pem".to_string(), key_path: "k.pem".to_string() };
    let l = listener(Protocol::HTTPS, Some(ssl));
    assert!(penguin::config::def::validate_listener(&l).is_ok());
}

#[test]
fn service_without_listeners_fails_validation() {
    let s = service(Vec::new(), 1);
    assert!(s.validate().is_err());
}

#[test]
fn service_without_routes_fails_validation() {
    let s = service(vec![listener(Protocol::HTTP, None)], 0);
    assert!(s.validate().is_err());
}

#[test]
fn conf_value_lookup() {
    let m = ConfValue::Mapping(vec![
        ("a".to_string(), ConfValue::Int(1)),
        ("b".to_string(), ConfValue::Str("x".to_string())),
        ("a".to_string(), ConfValue::Int(2)),
    ]);
    assert_eq!(m.get("a").and_then(|v| v.as_int()), Some(1));
    assert_eq!(m.get("b").and_then(|v| v.as_str()).map(|s| s.as_str()), Some("x"));
    assert!(m.get("c").is_none());
    assert!(ConfValue::Null.get("a").is_none());
}
