use penguin::config::value::ConfValue;
use penguin::plugins::cms_rate::create_cms_rate_limiter;
use penguin::plugins::echo::create_echo_plugin;
use penguin::plugins::errors::PluginError;
use penguin::plugins::create_plugin_builder;
use penguin::utils::ResponseParts;

fn mapping(entries: Vec<(&str, ConfValue)>) -> ConfValue {
    ConfValue::Mapping(entries.into_iter().map(|(k, v)| (k.to_string(), v)).collect())
}

fn header_value<'a>(r: &'a ResponseParts, name: &str) -> Option<&'a str> {
    for (k, v) in &r.headers {
        if k == name {
            return Some(v.as_str());
        }
    }
    None
}

#[test]
fn echo_defaults() {
    let cfg = mapping(vec![("body", ConfValue::Str("hi".to_string()))]);
    let p = create_echo_plugin(Some(cfg)).unwrap();
    let (stop, resp) = p.request_filter();
    assert!(stop);
    assert_eq!(resp.status, 200);
    assert_eq!(resp.body.as_deref(), Some(b"hi".as_slice()));
    assert_eq!(header_value(&resp, "content-length"), Some("2"));
    assert_eq!(header_value(&resp, "content-type"), Some("text/plain"));
}

#[test]
fn echo_status_code() {
    let cfg = mapping(vec![
        ("body", ConfValue::Str("hi".to_string())),
        ("status_code", ConfValue::Int(201)),
    ]);
    let p = create_echo_plugin(Some(cfg)).unwrap();
    let (stop, resp) = p.request_filter();
    assert!(stop);
    assert_eq!(resp.status, 201);
    assert_eq!(resp.body.as_deref(), Some(b"hi".as_slice()));
}

#[test]
fn echo_header_overrides_default_content_type() {
    let cfg = mapping(vec![
        ("body", ConfValue::Str("{}".to_string())),
        (
            "headers",
            mapping(vec![("Content-Type", ConfValue::Str("application/json".to_string()))]),
        ),
    ]);
    let p = create_echo_plugin(Some(cfg)).unwrap();
    let (_, resp) = p.request_filter();
    assert_eq!(header_value(&resp, "content-type"), Some("application/json"));
    let n = resp
        .headers
        .iter()
        .filter(|(k, _)| k == "content-type")
        .count();
    assert_eq!(n, 1);
}

#[test]
fn echo_missing_config() {
    let r = create_echo_plugin(None);
    assert!(matches!(r, Err(PluginError::LackPluginConfig { .. })));
}

#[test]
fn echo_missing_body() {
    let r = create_echo_plugin(Some(mapping(vec![("status_code", ConfValue::Int(200))])));
    assert!(matches!(r, Err(PluginError::YamlErr { .. })));
}

#[test]
fn echo_invalid_status() {
    let cfg = mapping(vec![
        ("body", ConfValue::Str("x".to_string())),
        ("status_code", ConfValue::Int(1000)),
    ]);
    assert!(matches!(create_echo_plugin(Some(cfg)), Err(PluginError::SpecificErr { .. })));
    let cfg = mapping(vec![
        ("body", ConfValue::Str("x".to_string())),
        ("status_code", ConfValue::Str("ok".to_string())),
    ]);
    assert!(matches!(create_echo_plugin(Some(cfg)), Err(PluginError::YamlErr { .. })));
}

#[test]
fn cms_rate_missing_config_rejected_at_build() {
    let r = create_cms_rate_limiter(None);
    match r {
        Err(PluginError::LackPluginConfig { name }) => assert_eq!(name, "cms_rate"),
        _ => panic!("expected LackPluginConfig"),
    }
    assert!(matches!(
        create_plugin_builder("cms_rate", None),
        Err(PluginError::LackPluginConfig { .. })
    ));
}

#[test]
fn cms_rate_validation() {
    let cfg = mapping(vec![
        ("total", ConfValue::Int(0)),
        ("interval", ConfValue::Str("1s".to_string())),
    ]);
    assert!(matches!(create_cms_rate_limiter(Some(cfg)), Err(PluginError::ValidateErr { .. })));
    let cfg = mapping(vec![
        ("total", ConfValue::Int(1)),
        ("interval", ConfValue::Str("500ms".to_string())),
    ]);
    assert!(matches!(create_cms_rate_limiter(Some(cfg)), Err(PluginError::ValidateErr { .. })));
    let cfg = mapping(vec![
        ("total", ConfValue::Int(1)),
        ("interval", ConfValue::Str("often".to_string())),
    ]);
    assert!(matches!(create_cms_rate_limiter(Some(cfg)), Err(PluginError::YamlErr { .. })));
}

#[test]
fn cms_rate_admits_first_then_rejects() {
    let cfg = mapping(vec![
        ("total", ConfValue::Int(1)),
        ("interval", ConfValue::Str("1s".to_string())),
    ]);
    let p = create_cms_rate_limiter(Some(cfg)).unwrap();
    let (stop1, resp1, count1) = p.request_filter("/same/path");
    assert!(!stop1);
    assert!(resp1.is_none());
    assert_eq!(count1, 1);
    let (stop2, resp2, count2) = p.request_filter("/same/path");
    assert!(stop2);
    assert_eq!(count2, 2);
    let resp2 = resp2.unwrap();
    assert_eq!(resp2.status, 429);
    assert!(resp2.body.is_none());
}

#[test]
fn cms_rate_threshold_two() {
    let cfg = mapping(vec![
        ("total", ConfValue::Int(2)),
        ("interval", ConfValue::Str("1s".to_string())),
    ]);
    let p = create_cms_rate_limiter(Some(cfg)).unwrap();
    let mut stops = Vec::new();
    for _ in 0..5 {
        let (stop, _, _) = p.request_filter("/api/x");
        stops.push(stop);
    }
    assert_eq!(stops, vec![false, false, true, true, true]);
}

#[test]
fn cms_rate_admission_rule() {
    let cfg = mapping(vec![
        ("total", ConfValue::Int(3)),
        ("interval", ConfValue::Str("1s".to_string())),
    ]);
    let p = create_cms_rate_limiter(Some(cfg)).unwrap();
    assert!(!p.over_limit(0));
    assert!(!p.over_limit(3));
    assert!(p.over_limit(4));
}

#[test]
fn unknown_plugin_rejected() {
    let r = create_plugin_builder("nope", None);
    match r {
        Err(PluginError::UnknownPlugin { name }) => assert_eq!(name, "nope"),
        _ => panic!("expected UnknownPlugin"),
    }
}
