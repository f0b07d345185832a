use penguin::proxy::process::{MatchEntry, Pipeline};

fn pipeline(cluster: &str) -> Pipeline {
    Pipeline::new(Vec::new(), cluster.to_string())
}

#[test]
fn exact_route_matches_only_itself() {
    let mut m = MatchEntry::new();
    m.insert_route("/foo", pipeline("c0")).unwrap();
    let hit = m.match_request("/foo").unwrap();
    assert_eq!(hit.1, 0);
    assert!(m.match_request("/foo/bar").is_none());
    assert!(m.match_request("/nope").is_none());
}

#[test]
fn prefix_route_captures_tail() {
    let mut m = MatchEntry::new();
    let revised = penguin::builder::revise_prefix("/api/v1/");
    assert_eq!(revised, "/api/v1/{*rest}");
    m.insert_route(revised.as_str(), pipeline("c0")).unwrap();
    let (rp, idx) = m.match_request("/api/v1/users/42").unwrap();
    assert_eq!(idx, 0);
    assert_eq!(rp.get(0), Some("users/42"));
}

#[test]
fn regex_route_capture_groups() {
    let mut m = MatchEntry::new();
    m.add_regex_route(r"^/users/(\d+)/profile$".to_string(), pipeline("c0"));
    let (rp, idx) = m.match_request("/users/42/profile").unwrap();
    assert_eq!(idx, 0);
    assert_eq!(rp.get(0), Some("/users/42/profile"));
    assert_eq!(rp.get(1), Some("42"));
    assert_eq!(rp.get(2), None);
    assert!(m.match_request("/users/x/profile").is_none());
}

#[test]
fn path_router_wins_over_regex() {
    let mut m = MatchEntry::new();
    m.add_regex_route("^/a$".to_string(), pipeline("regex"));
    m.insert_route("/a", pipeline("path")).unwrap();
    let (_, idx) = m.match_request("/a").unwrap();
    assert_eq!(m.pipelines[idx].cluster, "path");
}

#[test]
fn first_matching_regex_wins() {
    let mut m = MatchEntry::new();
    m.add_regex_route("^/v/.*$".to_string(), pipeline("first"));
    m.add_regex_route("^/v/x$".to_string(), pipeline("second"));
    let (_, idx) = m.match_request("/v/x").unwrap();
    assert_eq!(m.pipelines[idx].cluster, "first");
}

#[test]
fn duplicate_insert_is_a_noop() {
    let mut m = MatchEntry::new();
    m.insert_route("/dup", pipeline("first")).unwrap();
    m.insert_route("/dup", pipeline("second")).unwrap();
    let (_, idx) = m.match_request("/dup").unwrap();
    assert_eq!(m.pipelines[idx].cluster, "first");
    assert_eq!(m.pipelines.len(), 1);
}

#[test]
fn revise_prefix_is_idempotent() {
    let once = penguin::builder::revise_prefix("/a/*");
    assert_eq!(once, "/a/{*rest}");
    let twice = penguin::builder::revise_prefix(once.as_str());
    assert_eq!(twice, once);
    let mut m = MatchEntry::new();
    m.insert_route(twice.as_str(), pipeline("c0")).unwrap();
    let (rp, _) = m.match_request("/a/tail").unwrap();
    assert_eq!(rp.get(0), Some("tail"));
}

#[test]
fn revise_prefix_forms() {
    assert_eq!(penguin::builder::revise_prefix("/api/"), "/api/{*rest}");
    assert_eq!(penguin::builder::revise_prefix("/api/*"), "/api/{*rest}");
    assert_eq!(penguin::builder::revise_prefix("/a*b*"), "/a*b{*rest}");
    assert_eq!(penguin::builder::revise_prefix("/api/{*rest}"), "/api/{*rest}");
    assert_eq!(penguin::builder::revise_prefix(""), "{*rest}");
}

#[test]
fn insert_refuses_too_many_parameters() {
    let mut ok_path = String::new();
    for i in 0..25 {
        ok_path.push_str(&format!("/{{p{}}}", i));
    }
    let mut m = MatchEntry::new();
    assert!(m.insert_route(ok_path.as_str(), pipeline("c0")).is_ok());
    let mut long_path = String::new();
    for i in 0..26 {
        long_path.push_str(&format!("/{{q{}}}", i));
    }
    let mut m2 = MatchEntry::new();
    assert!(m2.insert_route(long_path.as_str(), pipeline("c1")).is_err());
}

#[test]
fn identical_pattern_wins_but_conflicts_error() {
    let mut m = MatchEntry::new();
    m.insert_route("/u/{id}", pipeline("first")).unwrap();
    m.insert_route("/u/{id}", pipeline("second")).unwrap();
    assert_eq!(m.pipelines.len(), 1);
    let (_, idx) = m.match_request("/u/7").unwrap();
    assert_eq!(m.pipelines[idx].cluster, "first");
    assert!(m.insert_route("/u/{name}", pipeline("third")).is_err());
}
