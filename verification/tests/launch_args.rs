use fingerbrow::color::chrome_argb_color;
use fingerbrow::http::extract_ip_from_body;
use fingerbrow::launch::{build_launch_args, Profile, Timestamp};

fn test_profile() -> Profile {
    Profile {
        id: "profile-id".to_string(),
        name: "Test".to_string(),
        notes: String::new(),
        tags: vec![],
        browser_binary_path: None,
        user_data_dir: "/tmp/local-chromium/profile-id/chrome-user-data".to_string(),
        proxy_id: None,
        proxy_scheme: None,
        proxy_host: None,
        proxy_port: None,
        proxy_username: None,
        proxy_password_saved: false,
        user_agent: None,
        language: None,
        timezone: None,
        profile_color: None,
        webrtc_policy: "default".to_string(),
        webrtc_disabled: false,
        window_width: None,
        window_height: None,
        window_x: None,
        window_y: None,
        launch_args: vec![
            "--proxy-server=http://127.0.0.1:7890".to_string(),
            "--user-data-dir=/tmp/ignored".to_string(),
            "--lang=en-US".to_string(),
        ],
        startup_urls: vec!["https://example.com".to_string()],
        created_at: Timestamp { seconds: 0, nanos: 0 },
        updated_at: Timestamp { seconds: 0, nanos: 0 },
        last_launched_at: None,
        running: false,
    }
}

#[test]
fn chrome_argb_color_matches_chrome_user_color_format() {
    assert_eq!(chrome_argb_color(0, 177, 255), -16_731_649);
    assert_eq!(chrome_argb_color(5, 150, 105), -16_411_031);
}

#[test]
fn launch_args_keep_profile_isolation_and_allow_clash_proxy() {
    let args = build_launch_args(&test_profile());

    assert_eq!(
        args[0],
        "--user-data-dir=/tmp/local-chromium/profile-id/chrome-user-data"
    );
    assert!(args.contains(&"--no-first-run".to_string()));
    assert!(args.contains(&"--no-default-browser-check".to_string()));
    assert!(args.contains(&"--proxy-server=http://127.0.0.1:7890".to_string()));
    assert!(args.contains(&"--lang=en-US".to_string()));
    assert!(args.contains(&"https://example.com".to_string()));
    assert!(!args.contains(&"--user-data-dir=/tmp/ignored".to_string()));
}

#[test]
fn launch_args_generate_profile_socks5_proxy() {
    let mut profile = test_profile();
    profile.launch_args = vec![];
    profile.startup_urls = vec![];
    profile.proxy_scheme = Some("socks5".to_string());
    profile.proxy_host = Some("127.0.0.1".to_string());
    profile.proxy_port = Some(7891);

    let args = build_launch_args(&profile);

    assert!(args.contains(&"--proxy-server=socks5://127.0.0.1:7891".to_string()));
    assert!(args.contains(&"--new-window".to_string()));
    assert!(args.contains(&"--window-size=1280,900".to_string()));
    assert!(args.contains(&"--window-position=80,80".to_string()));
    assert!(args.contains(&"about:blank".to_string()));
}

#[test]
fn launch_args_generate_ua_language_and_webrtc_controls() {
    let mut profile = test_profile();
    profile.launch_args = vec![];
    profile.startup_urls = vec![];
    profile.user_agent = Some("Custom UA".to_string());
    profile.language = Some("en-US".to_string());
    profile.timezone = Some("America/Los_Angeles".to_string());
    profile.webrtc_policy = "proxy_only".to_string();
    profile.webrtc_disabled = true;
    profile.window_width = Some(1440);
    profile.window_height = Some(960);
    profile.window_x = Some(20);
    profile.window_y = Some(30);

    let args = build_launch_args(&profile);

    assert!(args.contains(&"--user-agent=Custom UA".to_string()));
    assert!(args.contains(&"--lang=en-US".to_string()));
    assert!(args.contains(&"--accept-lang=en-US".to_string()));
    assert!(args.contains(&"--webrtc-ip-handling-policy=disable_non_proxied_udp".to_string()));
    assert!(args.contains(&"--force-webrtc-ip-handling-policy".to_string()));
    assert!(args.contains(&"--window-size=1440,960".to_string()));
    assert!(args.contains(&"--window-position=20,30".to_string()));
}

#[test]
fn launch_args_generate_public_only_webrtc_policy() {
    let mut profile = test_profile();
    profile.launch_args = vec![];
    profile.startup_urls = vec![];
    profile.webrtc_policy = "public_only".to_string();

    let args = build_launch_args(&profile);

    assert!(
        args.contains(&"--webrtc-ip-handling-policy=default_public_interface_only".to_string())
    );
    assert!(args.contains(&"--force-webrtc-ip-handling-policy".to_string()));
}

#[test]
fn extracts_ip_from_json_body() {
    assert_eq!(
        extract_ip_from_body(r#"{"ip":"192.0.2.10"}"#),
        Some("192.0.2.10".to_string())
    );
}
