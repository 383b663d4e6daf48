use openchatcut_daemon::auth::{
    cookie_value, valid_loopback_host, AuthState, RequestIdentity, MAX_BROWSER_SESSIONS,
};

#[test]
fn extracts_cookie_without_prefix_confusion() {
    let headers = vec!["other=1; openchatcut_session=secret".to_string()];
    assert_eq!(
        cookie_value(&headers, "openchatcut_session").as_deref(),
        Some("secret")
    );
}

#[test]
fn host_must_be_loopback() {
    for valid in ["localhost:3210", "127.0.0.1:3210", "[::1]:3210"] {
        assert!(valid_loopback_host(Some(valid)), "{valid}");
    }
    assert!(!valid_loopback_host(Some("example.com:3210")));
}

#[test]
fn hosted_sessions_use_secure_cookies() {
    let mut hosted = AuthState::new("token".to_owned(), Vec::new(), 60, true);
    let issued = hosted.issue_browser_session(1_000);
    let cookie = issued.set_cookie;
    assert!(cookie.contains("; Secure"));
    assert!(cookie.contains("HttpOnly"));
    assert!(cookie.contains("SameSite=Strict"));
}

#[test]
fn local_sessions_are_not_marked_secure() {
    let mut local = AuthState::new("token".to_owned(), Vec::new(), 60, false);
    let issued = local.issue_browser_session(1_000);
    assert!(!issued.set_cookie.contains("Secure"));
    assert!(issued.set_cookie.contains("Max-Age=60"));
    assert_eq!(issued.bootstrap.expires_at, 61_000);
    assert_eq!(issued.bootstrap.csrf_token.len(), 64);
}

#[test]
fn cookie_lookup_takes_the_first_matching_cookie_across_headers() {
    let headers = vec![
        "a=1".to_string(),
        "openchatcut_session=first; openchatcut_session=second".to_string(),
    ];
    assert_eq!(
        cookie_value(&headers, "openchatcut_session").as_deref(),
        Some("first")
    );
    assert_eq!(cookie_value(&headers, "missing"), None);
    let prefixed = vec!["xopenchatcut_session=no".to_string()];
    assert_eq!(cookie_value(&prefixed, "openchatcut_session"), None);
}

#[test]
fn host_header_variants() {
    assert!(valid_loopback_host(Some("LOCALHOST")));
    assert!(!valid_loopback_host(None));
    assert!(!valid_loopback_host(Some("10.0.0.1:80")));
}

#[test]
fn bearer_token_and_issued_session_authenticate() {
    let mut auth = AuthState::new("daemon-token".to_owned(), Vec::new(), 60, false);
    let by_token = auth.authenticate(Some("Bearer daemon-token"), &Vec::new(), 0);
    assert!(matches!(by_token, Some((RequestIdentity::DaemonToken, None))));
    assert!(auth
        .authenticate(Some("Bearer wrong"), &Vec::new(), 0)
        .is_none());

    let issued = auth.issue_browser_session(1_000);
    let pair = issued.set_cookie.split(';').next().unwrap().to_string();
    let session = auth.authenticate(None, &vec![pair.clone()], 2_000);
    match session {
        Some((RequestIdentity::Browser, Some(csrf))) => {
            assert_eq!(csrf, issued.bootstrap.csrf_token)
        }
        _ => panic!("the issued session must authenticate"),
    }
    assert!(auth.authenticate(None, &vec![pair], 61_000).is_none());
}

#[test]
fn session_table_stays_bounded() {
    let mut auth = AuthState::new("t".to_owned(), Vec::new(), 60, false);
    for i in 0..(MAX_BROWSER_SESSIONS + 5) {
        auth.issue_browser_session(i as i64);
    }
    let issued = auth.issue_browser_session(10_000);
    let pair = issued.set_cookie.split(';').next().unwrap().to_string();
    assert!(auth.authenticate(None, &vec![pair], 10_001).is_some());
}
