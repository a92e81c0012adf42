use fingerbrow::browser::AppPaths;
use fingerbrow::launch::{Profile, Timestamp};
use fingerbrow::sessions::{
    chrome_preference_update, missing_binary_message, proxy_test_result, proxy_test_step,
    select_browser_binary, ProxyTestStep,
};

fn profile() -> Profile {
    Profile {
        id: "p1".to_string(),
        name: "Work".to_string(),
        notes: String::new(),
        tags: vec![],
        browser_binary_path: None,
        user_data_dir: "/p/p1/chrome-user-data".to_string(),
        proxy_id: None,
        proxy_scheme: None,
        proxy_host: None,
        proxy_port: None,
        proxy_username: None,
        proxy_password_saved: false,
        user_agent: None,
        language: None,
        timezone: None,
        profile_color: Some("#00B1FF".to_string()),
        webrtc_policy: "default".to_string(),
        webrtc_disabled: false,
        window_width: None,
        window_height: None,
        window_x: None,
        window_y: None,
        launch_args: vec![],
        startup_urls: vec![],
        created_at: Timestamp { seconds: 0, nanos: 0 },
        updated_at: Timestamp { seconds: 0, nanos: 0 },
        last_launched_at: None,
        running: false,
    }
}

#[test]
fn configured_browser_wins_unless_blank() {
    let paths = AppPaths::new("/d".to_string());
    let none = |_: &String| false;
    assert_eq!(
        select_browser_binary(&Some("/opt/chrome".to_string()), &paths, "linux", "x86_64", &none),
        Ok("/opt/chrome".to_string())
    );
    assert_eq!(
        select_browser_binary(&Some("  ".to_string()), &paths, "linux", "x86_64", &none),
        Err("No Chrome/Chromium binary found. Set a browser binary path on the profile.".to_string())
    );
    let all = |_: &String| true;
    assert_eq!(
        select_browser_binary(&None, &paths, "linux", "x86_64", &all),
        Ok("/d/browsers/chrome-for-testing/chrome-linux64/chrome".to_string())
    );
    assert_eq!(missing_binary_message("/x"), "Browser binary does not exist: /x");
}

#[test]
fn preferences_carry_name_avatar_and_color() {
    let u = chrome_preference_update(&profile()).ok().unwrap();
    assert_eq!(u.name, "Work");
    assert_eq!(u.avatar_index, 26);
    assert_eq!(u.user_color, Some(-16_731_649));
    let mut plain = profile();
    plain.profile_color = None;
    assert_eq!(chrome_preference_update(&plain).ok().unwrap().user_color, None);
    let mut bad = profile();
    bad.profile_color = Some("#zzzzzz".to_string());
    assert_eq!(chrome_preference_update(&bad).err(), Some("Profile color must use #RRGGBB format.".to_string()));
}

#[test]
fn proxy_test_steps() {
    match proxy_test_step(&profile()) {
        ProxyTestStep::Report(r) => {
            assert!(!r.ok);
            assert_eq!(r.message, "No proxy is configured for this profile.");
            assert_eq!(r.observed_ip, None);
        }
        _ => panic!("expected a report"),
    }
    let mut socks = profile();
    socks.proxy_scheme = Some("socks5".to_string());
    socks.proxy_host = Some("h".to_string());
    socks.proxy_port = Some(1080);
    match proxy_test_step(&socks) {
        ProxyTestStep::Report(r) => assert_eq!(r.message, "Proxy test currently uses the local HTTP relay path."),
        _ => panic!("expected a report"),
    }
    let mut http = socks;
    http.proxy_scheme = Some("http".to_string());
    http.proxy_host = Some("127.0.0.1".to_string());
    http.proxy_port = Some(40000);
    match proxy_test_step(&http) {
        ProxyTestStep::Probe { address, request } => {
            assert_eq!(address, "127.0.0.1:40000");
            assert_eq!(
                request,
                "GET http://api.ipify.org/?format=json HTTP/1.1\r\nHost: api.ipify.org\r\nConnection: close\r\n\r\n"
            );
        }
        _ => panic!("expected a probe"),
    }
}

#[test]
fn proxy_test_results() {
    let r = proxy_test_result("HTTP/1.1 200 OK\r\nContent-Type: application/json\r\n\r\n{\"ip\":\"203.0.113.7\"}", Some(40000));
    assert!(r.ok);
    assert_eq!(r.message, "Proxy test used local relay 127.0.0.1:40000.");
    assert_eq!(r.observed_ip, Some("203.0.113.7".to_string()));
    let r = proxy_test_result("HTTP/1.0 200 OK\r\n\r\n198.51.100.1", None);
    assert!(r.ok);
    assert_eq!(r.message, "Proxy test used configured proxy directly.");
    assert_eq!(r.observed_ip, Some("198.51.100.1".to_string()));
    let r = proxy_test_result("HTTP/1.1 407 Proxy Authentication Required\r\n\r\n", None);
    assert!(!r.ok);
    assert_eq!(r.observed_ip, None);
}
