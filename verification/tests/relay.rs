use fingerbrow::launch::{build_launch_args, Profile, Timestamp};
use fingerbrow::relay::{
    apply_relay_port, ends_headers, needs_proxy_relay, relay_request,
    relay_secret_ref, relay_upstream, split_words, RelayRequest,
};

fn socks_profile() -> Profile {
    Profile {
        id: "p1".to_string(),
        name: "Relay".to_string(),
        notes: String::new(),
        tags: vec![],
        browser_binary_path: None,
        user_data_dir: "/p/p1/chrome-user-data".to_string(),
        proxy_id: None,
        proxy_scheme: Some("socks5".to_string()),
        proxy_host: Some("proxy.example".to_string()),
        proxy_port: Some(1080),
        proxy_username: Some("alice".to_string()),
        proxy_password_saved: true,
        user_agent: None,
        language: None,
        timezone: None,
        profile_color: None,
        webrtc_policy: "default".to_string(),
        webrtc_disabled: false,
        window_width: None,
        window_height: None,
        window_x: None,
        window_y: None,
        launch_args: vec![],
        startup_urls: vec![],
        created_at: Timestamp { seconds: 0, nanos: 0 },
        updated_at: Timestamp { seconds: 0, nanos: 0 },
        last_launched_at: None,
        running: false,
    }
}

#[test]
fn relay_is_needed_for_authenticated_socks5() {
    let mut p = socks_profile();
    assert!(needs_proxy_relay(&p));
    p.proxy_username = None;
    assert!(!needs_proxy_relay(&p));
    let mut http = socks_profile();
    http.proxy_scheme = Some("http".to_string());
    assert!(!needs_proxy_relay(&http));
}

#[test]
fn relay_needs_a_saved_password() {
    assert_eq!(relay_secret_ref(Some("svc".to_string())), Ok("svc".to_string()));
    assert_eq!(
        relay_secret_ref(None),
        Err("This profile has a proxy username but no saved Keychain password.".to_string())
    );
}

#[test]
fn relay_upstream_takes_the_profile_proxy() {
    let up = relay_upstream(&socks_profile(), "pw".to_string()).ok().unwrap();
    assert_eq!(up.scheme, "socks5");
    assert_eq!(up.host, "proxy.example");
    assert_eq!(up.port, 1080);
    assert_eq!(up.username, Some("alice".to_string()));
    assert_eq!(up.password, Some("pw".to_string()));
    let mut no_host = socks_profile();
    no_host.proxy_host = None;
    assert_eq!(relay_upstream(&no_host, "pw".to_string()).err(), Some("Proxy host is missing.".to_string()));
    let mut no_port = socks_profile();
    no_port.proxy_port = None;
    assert_eq!(relay_upstream(&no_port, "pw".to_string()).err(), Some("Proxy port is missing.".to_string()));
    let mut big = socks_profile();
    big.proxy_port = Some(65536);
    assert_eq!(relay_upstream(&big, "pw".to_string()).err(), Some("Proxy port is invalid.".to_string()));
}

#[test]
fn relayed_profile_launches_through_the_local_relay() {
    let mut p = socks_profile();
    let before = build_launch_args(&p);
    apply_relay_port(&mut p, 40123);
    assert!(!needs_proxy_relay(&p));
    assert_eq!(p.proxy_scheme, Some("http".to_string()));
    assert_eq!(p.proxy_host, Some("127.0.0.1".to_string()));
    assert_eq!(p.proxy_port, Some(40123));
    assert_eq!(p.proxy_username, None);
    let after = build_launch_args(&p);
    assert!(after.contains(&"--proxy-server=http://127.0.0.1:40123".to_string()));
    assert!(before.contains(&"--proxy-server=socks5://proxy.example:1080".to_string()));
    assert_eq!(before.len(), after.len());
}

#[test]
fn words_split_on_whitespace() {
    let words: Vec<String> = split_words(&" GET\t/x  HTTP/1.1\r\n".chars().collect())
        .into_iter()
        .map(|w| w.into_iter().collect())
        .collect();
    assert_eq!(words, vec!["GET", "/x", "HTTP/1.1"]);
}

#[test]
fn connect_requests_open_tunnels() {
    let headers: Vec<String> = vec![];
    assert!(matches!(
        relay_request("connect example.com:8443 HTTP/1.1\r\n", &headers),
        Ok(RelayRequest::Tunnel { host, port }) if host == "example.com" && port == 8443
    ));
    assert!(matches!(
        relay_request("CONNECT example.com HTTP/1.1\r\n", &headers),
        Ok(RelayRequest::Tunnel { host, port }) if host == "example.com" && port == 443
    ));
    assert!(matches!(
        relay_request("CONNECT \r\n", &headers),
        Err(e) if e == "CONNECT request is missing target."
    ));
    assert!(matches!(relay_request(" \r\n", &headers), Ok(RelayRequest::Empty)));
}

#[test]
fn plain_requests_are_forwarded_with_the_path() {
    let headers = vec!["Host: api.ipify.org\r\n".to_string(), "Connection: close\r\n".to_string()];
    match relay_request("GET http://api.ipify.org/?format=json HTTP/1.1\r\n", &headers) {
        Ok(RelayRequest::Forward { host, port, head }) => {
            assert_eq!(host, "api.ipify.org");
            assert_eq!(port, 80);
            assert_eq!(
                head,
                "GET /?format=json HTTP/1.1\r\nHost: api.ipify.org\r\nConnection: close\r\n\r\n"
            );
        }
        _ => panic!("expected a forwarded request"),
    }
    assert!(matches!(
        relay_request("GET /\r\n", &headers),
        Err(e) if e == "HTTP proxy request has an invalid request line."
    ));
    let no_host: Vec<String> = vec![];
    assert!(matches!(
        relay_request("GET / HTTP/1.1\r\n", &no_host),
        Err(e) if e == "HTTP proxy request is missing Host header."
    ));
}

#[test]
fn blank_lines_end_headers() {
    assert!(ends_headers("\r\n"));
    assert!(ends_headers("\n"));
    assert!(ends_headers(""));
    assert!(!ends_headers("Host: x\r\n"));
}

#[test]
fn connect_to_host_and_port_opens_that_tunnel() {
    let headers: Vec<String> = vec![];
    assert!(matches!(
        relay_request("CONNECT www.example.com:8443 HTTP/1.1\r\n", &headers),
        Ok(RelayRequest::Tunnel { host, port }) if host == "www.example.com" && port == 8443
    ));
}
