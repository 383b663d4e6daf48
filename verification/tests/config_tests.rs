use openchatcut_daemon::config::{
    allowed_origin_set, check_bind, editor_origin, executable_candidates, executable_names,
    normalize_origin, validate_browser_origin, validate_hosted_origin, validate_loopback_origin,
    worker_origin, Config, OriginError, StartupSettings,
};
use openchatcut_daemon::net::IpAddress;

#[test]
fn accepts_loopback_origins_only() {
    assert!(validate_loopback_origin("http://127.0.0.1:3100").is_ok());
    assert!(validate_loopback_origin("http://localhost:3100").is_ok());
    assert!(validate_loopback_origin("http://[::1]:3100").is_ok());
    assert!(validate_loopback_origin("https://localhost:3100").is_err());
    assert!(validate_loopback_origin("http://example.com:3100").is_err());
    assert!(validate_loopback_origin("http://localhost:3100/path").is_err());
}

#[test]
fn container_mode_only_accepts_internal_service_origins() {
    assert!(validate_browser_origin("http://web:3000", true).is_ok());
    assert!(validate_browser_origin("http://10.0.0.8:3000", true).is_ok());
    assert!(validate_browser_origin("http://[fd00::8]:3000", true).is_ok());
    assert!(validate_browser_origin("http://example.com:3000", true).is_err());
    assert!(validate_browser_origin("http://8.8.8.8:3000", true).is_err());
    assert!(validate_browser_origin("https://web:3000", true).is_err());
    assert!(validate_browser_origin("http://web:3000", false).is_err());
}

#[test]
fn hosted_origin_is_explicit_https_only() {
    assert!(validate_hosted_origin("https://cut.example.com").is_ok());
    assert!(validate_hosted_origin("http://cut.example.com").is_err());
    assert!(validate_hosted_origin("https://localhost:8443").is_err());
    assert!(validate_hosted_origin("https://cut.example.com/path").is_err());
}

#[test]
fn origin_errors_name_the_reason() {
    assert_eq!(validate_loopback_origin("not a url"), Err(OriginError::InvalidUrl));
    assert_eq!(
        validate_loopback_origin("https://localhost:3100"),
        Err(OriginError::LoopbackRequiresHttp)
    );
    assert_eq!(
        validate_loopback_origin("http://example.com:3100"),
        Err(OriginError::NonLoopback)
    );
    assert_eq!(
        validate_browser_origin("http://8.8.8.8:3000", true),
        Err(OriginError::PublicContainerAddress)
    );
    assert_eq!(
        validate_browser_origin("http://a.b:3000", true),
        Err(OriginError::NotServiceName)
    );
    assert_eq!(
        validate_hosted_origin("https://user:pw@cut.example.com"),
        Err(OriginError::HostedCredentials)
    );
    assert_eq!(
        validate_hosted_origin("https://[::1]"),
        Err(OriginError::HostedLoopback)
    );
}

#[test]
fn origins_are_normalized_to_scheme_host_port() {
    assert_eq!(
        normalize_origin("HTTP://LocalHost:3100").unwrap(),
        "http://localhost:3100"
    );
    assert_eq!(
        normalize_origin("https://cut.example.com:443").unwrap(),
        "https://cut.example.com"
    );
    assert_eq!(
        normalize_origin("http://localhost:3100/x"),
        Err(OriginError::NotSchemeHostPort)
    );
}

#[test]
fn bind_must_be_loopback_unless_containerized() {
    assert!(check_bind(&IpAddress::V4([127, 0, 0, 1]), false).is_ok());
    assert!(check_bind(&IpAddress::V6([0, 0, 0, 0, 0, 0, 0, 1]), false).is_ok());
    assert_eq!(
        check_bind(&IpAddress::V4([0, 0, 0, 0]), false),
        Err(OriginError::NonLoopbackBind)
    );
    assert!(check_bind(&IpAddress::V4([0, 0, 0, 0]), true).is_ok());
    assert!(check_bind(&IpAddress::V4([192, 168, 1, 2]), true).is_err());
}

#[test]
fn editor_and_worker_origins() {
    assert_eq!(
        editor_origin(None, "http://127.0.0.1:3100", false).unwrap(),
        "http://127.0.0.1:3100"
    );
    assert_eq!(
        editor_origin(Some("https://cut.example.com"), "http://127.0.0.1:3100", false),
        Err(OriginError::HostedRequiresContainer)
    );
    assert_eq!(
        editor_origin(Some("https://cut.example.com"), "http://127.0.0.1:3100", true).unwrap(),
        "https://cut.example.com"
    );
    assert_eq!(
        worker_origin(None, "http://127.0.0.1:3100", false).unwrap(),
        "http://127.0.0.1:3100"
    );
    assert_eq!(
        worker_origin(Some("http://web:3000"), "http://127.0.0.1:3100", true).unwrap(),
        "http://web:3000"
    );
}

#[test]
fn allowed_origins_hold_defaults_editor_and_extras_once() {
    let extras = vec![
        "http://localhost:3100".to_string(),
        "http://127.0.0.1:4000".to_string(),
    ];
    let set = allowed_origin_set("http://127.0.0.1:3100", &extras, false).unwrap();
    assert_eq!(set.len(), 3);
    assert!(set.contains(&"http://127.0.0.1:4000".to_string()));
    assert!(set.contains(&"http://localhost:3100".to_string()));
    let bad = vec!["http://example.com".to_string()];
    assert_eq!(
        allowed_origin_set("http://127.0.0.1:3100", &bad, false),
        Err(OriginError::NonLoopback)
    );
}

#[test]
fn test_configuration_and_api_url() {
    let c = Config::for_test("/tmp/occ");
    assert_eq!(c.home_dir, "/tmp/occ/home");
    assert_eq!(c.database_path, "/tmp/occ/data/openchatcut.sqlite3");
    assert_eq!(c.allowed_origins.len(), 2);
    assert_eq!(c.browser_session_ttl_secs, 900);
    assert_eq!(
        c.api_base_url("127.0.0.1", false, 3210),
        "http://127.0.0.1:3210/api/v1"
    );
    assert_eq!(c.api_base_url("::1", true, 80), "http://[::1]:80/api/v1");
}

#[test]
fn assembled_configuration_defaults_under_home() {
    let settings = StartupSettings {
        bind_ip: IpAddress::V4([127, 0, 0, 1]),
        bind_port: 3210,
        containerized: false,
        home_dir: "/h".to_string(),
        data_dir: None,
        runtime_descriptor: Some("/r.json".to_string()),
        token_path: None,
        provider_config: None,
        media_worker: None,
        mg_runtime_cli: None,
        mg_runtime_node: Some("/usr/bin/node".to_string()),
        codex_command: None,
        authorized_import_roots: Vec::new(),
        hosted: false,
    };
    let c = Config::assemble(
        settings,
        "http://127.0.0.1:3100".to_string(),
        "http://127.0.0.1:3100".to_string(),
        Vec::new(),
    );
    assert_eq!(c.data_dir, "/h/data");
    assert_eq!(c.database_path, "/h/data/openchatcut.sqlite3");
    assert_eq!(c.runtime_descriptor, "/r.json");
    assert_eq!(c.token_path, "/h/daemon.token");
    assert_eq!(c.mg_runtime_node, None);
}

#[test]
fn executable_lookup_candidates() {
    assert_eq!(executable_names("/usr/bin/node"), vec!["/usr/bin/node".to_string()]);
    let dirs = vec!["/usr/bin".to_string(), "/bin/".to_string()];
    assert_eq!(
        executable_candidates("node", &dirs),
        vec!["/usr/bin/node".to_string(), "/bin/node".to_string()]
    );
    assert_eq!(
        executable_candidates("./node", &dirs),
        vec!["./node".to_string()]
    );
}

#[test]
fn import_roots_are_ordered_by_path_and_deduplicated() {
    let roots: Vec<String> = ["/b", "/a/c", "/a", "/b/", "/a", "/a.b"].iter().map(|s| s.to_string()).collect();
    let ordered = openchatcut_daemon::config::canonical_import_roots(roots);
    assert_eq!(ordered, vec!["/a".to_string(), "/a/c".to_string(), "/a.b".to_string(), "/b".to_string()]);
    assert!(openchatcut_daemon::config::canonical_import_roots(vec![]).is_empty());
}
