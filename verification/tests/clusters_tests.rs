use penguin::clusters::discovery::{parse_socket_addr, DnsDiscovery, StaticDiscovery};
use penguin::clusters::errors::ClusterError;
use penguin::clusters::{ClusterManager, DiscoverySpec, ResolverRegistry};
use penguin::config::def::{Cluster, IpAddress, LbPolicy, ResolverType, SocketAddress};
use penguin::config::value::ConfValue;

fn mapping(entries: Vec<(&str, ConfValue)>) -> ConfValue {
    ConfValue::Mapping(entries.into_iter().map(|(k, v)| (k.to_string(), v)).collect())
}

fn endpoints(list: Vec<&str>) -> ConfValue {
    mapping(vec![(
        "endpoints",
        ConfValue::Sequence(list.into_iter().map(|s| ConfValue::Str(s.to_string())).collect()),
    )])
}

#[test]
fn parse_socket_addr_accepts_canonical_v4() {
    let a = parse_socket_addr("127.0.0.1:8080").unwrap();
    assert_eq!(a.ip, IpAddress::V4(127, 0, 0, 1));
    assert_eq!(a.port, 8080);
    let b = parse_socket_addr("255.255.255.255:65535").unwrap();
    assert_eq!(b.ip, IpAddress::V4(255, 255, 255, 255));
    assert_eq!(b.port, 65535);
    let c = parse_socket_addr("0.0.0.0:0").unwrap();
    assert_eq!(c.ip, IpAddress::V4(0, 0, 0, 0));
    assert_eq!(c.port, 0);
}

#[test]
fn parse_socket_addr_rejects_malformed() {
    assert!(parse_socket_addr("1.2.3.4").is_none());
    assert!(parse_socket_addr("1.2.3:80").is_none());
    assert!(parse_socket_addr("1.2.3.4:99999").is_none());
    assert!(parse_socket_addr("256.1.1.1:80").is_none());
    assert!(parse_socket_addr("01.2.3.4:80").is_none());
    assert!(parse_socket_addr("a.b.c.d:80").is_none());
    assert!(parse_socket_addr("").is_none());
}

#[test]
fn static_discovery_reads_endpoints() {
    let d = StaticDiscovery::new(Some(endpoints(vec!["127.0.0.1:8080", "10.0.0.2:90"]))).unwrap();
    assert_eq!(
        d.backends,
        vec![
            SocketAddress { ip: IpAddress::V4(127, 0, 0, 1), port: 8080 },
            SocketAddress { ip: IpAddress::V4(10, 0, 0, 2), port: 90 },
        ]
    );
}

#[test]
fn parse_socket_addr_accepts_bracketed_v6() {
    let a = parse_socket_addr("[::1]:8080").unwrap();
    assert_eq!(a.ip, IpAddress::V6(1));
    assert_eq!(a.port, 8080);
    let b = parse_socket_addr("[::]:0").unwrap();
    assert_eq!(b.ip, IpAddress::V6(0));
    let c = parse_socket_addr("[2001:db8::8:800:200c:417a]:443").unwrap();
    assert_eq!(c.ip, IpAddress::V6(0x2001_0db8_0000_0000_0008_0800_200c_417a));
    assert_eq!(c.port, 443);
    let d = parse_socket_addr("[0:0:0:0:0:0:0:1]:80").unwrap();
    assert_eq!(d.ip, IpAddress::V6(1));
    let e = parse_socket_addr("[fe80::]:53").unwrap();
    assert_eq!(e.ip, IpAddress::V6(0xfe80_0000_0000_0000_0000_0000_0000_0000));
    let f = parse_socket_addr("[FFFF::a:B]:1").unwrap();
    assert_eq!(f.ip, IpAddress::V6(0xffff_0000_0000_0000_0000_0000_000a_000b));
}

#[test]
fn parse_socket_addr_rejects_malformed_v6() {
    assert!(parse_socket_addr("[::1]").is_none());
    assert!(parse_socket_addr("[::1]x:80").is_none());
    assert!(parse_socket_addr("[:::1]:80").is_none());
    assert!(parse_socket_addr("[1::2::3]:80").is_none());
    assert!(parse_socket_addr("[1:2:3:4:5:6:7:8:9]:80").is_none());
    assert!(parse_socket_addr("[1:2:3:4:5:6:7]:80").is_none());
    assert!(parse_socket_addr("[12345::]:80").is_none());
    assert!(parse_socket_addr("[1:2:3:4:5:6:7::8]:80").is_none());
    assert!(parse_socket_addr("[fe80::1%1]:80").is_none());
    assert!(parse_socket_addr("[::ffff:1.2.3.4]:80").is_none());
    assert!(parse_socket_addr("[]:80").is_none());
}

#[test]
fn static_discovery_reads_ipv6_endpoints() {
    let d = StaticDiscovery::new(Some(endpoints(vec!["[::1]:8080", "10.0.0.2:90"]))).unwrap();
    assert_eq!(
        d.backends,
        vec![
            SocketAddress { ip: IpAddress::V6(1), port: 8080 },
            SocketAddress { ip: IpAddress::V4(10, 0, 0, 2), port: 90 },
        ]
    );
}

#[test]
fn static_discovery_errors() {
    assert!(matches!(StaticDiscovery::new(None), Err(ClusterError::LackConfig { .. })));
    assert!(matches!(
        StaticDiscovery::new(Some(ConfValue::Int(3))),
        Err(ClusterError::StaticConfig { .. })
    ));
    assert!(matches!(
        StaticDiscovery::new(Some(endpoints(vec!["nonsense"]))),
        Err(ClusterError::StaticConfig { .. })
    ));
}

#[test]
fn dns_discovery_maps_each_address() {
    let d = DnsDiscovery::new("svc.local".to_string(), 80);
    let ips = vec![IpAddress::V4(10, 0, 0, 1), IpAddress::V4(10, 0, 0, 2)];
    let backends = d.discover_from_ips(&ips);
    assert_eq!(backends.len(), 2);
    for (i, b) in backends.iter().enumerate() {
        assert_eq!(b.addr.ip, ips[i]);
        assert_eq!(b.addr.port, 80);
        assert_eq!(b.weight, 1);
    }
    assert!(d.discover_from_ips(&Vec::new()).is_empty());
}

#[test]
fn cluster_manager_builds_dns_cluster() {
    let cfg = Cluster {
        name: "webs".to_string(),
        resolver: ResolverType::DNS,
        lb_policy: LbPolicy::Random,
        config: Some(mapping(vec![
            ("host", ConfValue::Str("svc.local".to_string())),
            ("port", ConfValue::Int(80)),
        ])),
        health_checks: None,
    };
    let cm = ClusterManager::new(vec![cfg], &ResolverRegistry { dns: true }).unwrap();
    let spec = cm.get_cluster("webs").unwrap();
    assert!(matches!(spec.policy, LbPolicy::Random));
    match &spec.discovery {
        DiscoverySpec::Dns(d) => {
            assert_eq!(d.name, "svc.local");
            assert_eq!(d.port, 80);
        }
        _ => panic!("expected DNS discovery"),
    }
    assert!(cm.get_cluster("other").is_none());
}

#[test]
fn cluster_manager_errors() {
    let dns_cluster = Cluster {
        name: "webs".to_string(),
        resolver: ResolverType::DNS,
        lb_policy: LbPolicy::Random,
        config: Some(mapping(vec![("host", ConfValue::Str("h".to_string()))])),
        health_checks: None,
    };
    let r = ClusterManager::new(vec![dns_cluster], &ResolverRegistry { dns: false });
    assert!(matches!(r, Err(ClusterError::UnknownResolver { .. })));

    let no_config = Cluster {
        name: "webs".to_string(),
        resolver: ResolverType::DNS,
        lb_policy: LbPolicy::Random,
        config: None,
        health_checks: None,
    };
    let r = ClusterManager::new(vec![no_config], &ResolverRegistry { dns: true });
    assert!(matches!(r, Err(ClusterError::LackConfig { .. })));

    let bad_port = Cluster {
        name: "webs".to_string(),
        resolver: ResolverType::DNS,
        lb_policy: LbPolicy::Random,
        config: Some(mapping(vec![
            ("host", ConfValue::Str("h".to_string())),
            ("port", ConfValue::Int(70000)),
        ])),
        health_checks: None,
    };
    let r = ClusterManager::new(vec![bad_port], &ResolverRegistry { dns: true });
    assert!(matches!(r, Err(ClusterError::DiscoveryConfig { .. })));
}

#[test]
fn cluster_manager_last_insertion_wins() {
    let mk = |port: i64| Cluster {
        name: "webs".to_string(),
        resolver: ResolverType::DNS,
        lb_policy: LbPolicy::Random,
        config: Some(mapping(vec![
            ("host", ConfValue::Str("h".to_string())),
            ("port", ConfValue::Int(port)),
        ])),
        health_checks: None,
    };
    let cm = ClusterManager::new(vec![mk(80), mk(81)], &ResolverRegistry { dns: true }).unwrap();
    match &cm.get_cluster("webs").unwrap().discovery {
        DiscoverySpec::Dns(d) => assert_eq!(d.port, 81),
        _ => panic!("expected DNS discovery"),
    }
}
