use fingerbrow::launch::Timestamp;
use fingerbrow::profiles::{
    assign_own_proxy, assign_saved_proxy, new_profile_proxy_source, new_secret_plan,
    normalize_profile_fields, normalize_profile_head, normalize_proxy_fields, proxy_secret_plan,
    updated_profile_proxy_source, ProfileInput, ProxyProfileInput, ProxySource, SecretPlan,
};
use fingerbrow::records::ProxyProfile;

fn input() -> ProfileInput {
    ProfileInput {
        name: "  Shop ".to_string(),
        notes: None,
        tags: Some(vec!["a".to_string()]),
        browser_binary_path: None,
        proxy_id: Some("  ".to_string()),
        proxy_scheme: Some("SOCKS5".to_string()),
        proxy_host: Some(" p.example ".to_string()),
        proxy_port: Some(1080),
        proxy_username: Some(" bob ".to_string()),
        proxy_password: Some("pw".to_string()),
        user_agent: Some(" UA ".to_string()),
        language: Some("".to_string()),
        timezone: Some("Asia/Tokyo".to_string()),
        profile_color: Some("#abcdef".to_string()),
        webrtc_policy: None,
        webrtc_disabled: Some(true),
        window_width: Some(800),
        window_height: None,
        window_x: Some(-5),
        window_y: None,
        launch_args: None,
        startup_urls: Some(vec!["https://a.example".to_string()]),
    }
}

#[test]
fn profile_fields_are_normalised() {
    let f = normalize_profile_fields(input()).ok().unwrap();
    assert_eq!(f.name, "Shop");
    assert_eq!(f.notes, "");
    assert_eq!(f.tags, vec!["a".to_string()]);
    assert_eq!(f.proxy_id, None);
    assert_eq!(f.proxy_scheme, Some("socks5".to_string()));
    assert_eq!(f.proxy_host, Some("p.example".to_string()));
    assert_eq!(f.proxy_port, Some(1080));
    assert_eq!(f.proxy_username, Some("bob".to_string()));
    assert_eq!(f.proxy_password, Some("pw".to_string()));
    assert_eq!(f.user_agent, Some("UA".to_string()));
    assert_eq!(f.language, None);
    assert_eq!(f.profile_color, Some("#ABCDEF".to_string()));
    assert_eq!(f.webrtc_policy, "proxy_only");
    assert!(f.webrtc_disabled);
    assert_eq!(f.window_x, Some(-5));
    assert!(f.launch_args.is_empty());
    assert_eq!(f.startup_urls, vec!["https://a.example".to_string()]);
}

#[test]
fn the_first_bad_value_is_reported() {
    let mut i = input();
    i.name = " ".to_string();
    i.profile_color = Some("bad".to_string());
    assert_eq!(normalize_profile_fields(i).err(), Some("Profile name is required.".to_string()));
    let mut i = input();
    i.proxy_host = None;
    i.profile_color = Some("bad".to_string());
    assert_eq!(
        normalize_profile_fields(i).err(),
        Some("Proxy scheme, host, and port are all required when proxy is enabled.".to_string())
    );
    let mut i = input();
    i.profile_color = Some("bad".to_string());
    i.webrtc_policy = Some("nope".to_string());
    assert_eq!(normalize_profile_fields(i).err(), Some("Profile color must use #RRGGBB format.".to_string()));
    let mut i = input();
    i.webrtc_policy = Some("nope".to_string());
    i.window_width = Some(0);
    assert_eq!(normalize_profile_fields(i).err(), Some("Unsupported WebRTC policy: nope".to_string()));
    let mut i = input();
    i.window_height = Some(10001);
    i.window_x = Some(20000);
    assert_eq!(
        normalize_profile_fields(i).err(),
        Some("Window height must be between 1 and 10000, got 10001.".to_string())
    );
    let mut i = input();
    i.window_y = Some(-10001);
    assert_eq!(
        normalize_profile_fields(i).err(),
        Some("Window Y must be between -10000 and 10000, got -10001.".to_string())
    );
}

#[test]
fn proxy_fields_are_normalised() {
    let f = normalize_proxy_fields(ProxyProfileInput {
        name: " Office ".to_string(),
        scheme: "HTTP".to_string(),
        host: "10.0.0.1".to_string(),
        port: 3128,
        username: Some(" ".to_string()),
        password: None,
        notes: Some("n".to_string()),
    })
    .ok()
    .unwrap();
    assert_eq!((f.name.as_str(), f.scheme.as_str(), f.host.as_str(), f.port), ("Office", "http", "10.0.0.1", 3128));
    assert_eq!(f.username, None);
    assert_eq!(f.notes, "n");
    let err = normalize_proxy_fields(ProxyProfileInput {
        name: "".to_string(),
        scheme: "bad".to_string(),
        host: "".to_string(),
        port: 0,
        username: None,
        password: None,
        notes: None,
    });
    assert_eq!(err.err(), Some("Proxy name is required.".to_string()));
}

fn plan_kind(p: &SecretPlan) -> String {
    match p {
        SecretPlan::Save { username, password } => format!("save {username} {password}"),
        SecretPlan::Clear { existing } => format!("clear {existing:?}"),
        SecretPlan::Keep { existing } => format!("keep {existing:?}"),
    }
}

#[test]
fn secrets_are_saved_only_with_username_and_password() {
    let u = Some("bob".to_string());
    assert_eq!(plan_kind(&new_secret_plan(&u, &Some("pw".to_string()))), "save bob pw");
    assert_eq!(plan_kind(&new_secret_plan(&u, &Some("".to_string()))), "keep None");
    assert_eq!(plan_kind(&new_secret_plan(&None, &Some("pw".to_string()))), "keep None");
    let old = Some("svc".to_string());
    assert_eq!(plan_kind(&proxy_secret_plan(&u, &Some("pw".to_string()), old.clone())), "save bob pw");
    assert_eq!(plan_kind(&proxy_secret_plan(&None, &Some("pw".to_string()), old.clone())), "clear Some(\"svc\")");
    assert_eq!(plan_kind(&proxy_secret_plan(&u, &None, old.clone())), "keep Some(\"svc\")");
}

#[test]
fn profile_proxy_sources() {
    let mut f = normalize_profile_head(&input()).ok().unwrap();
    match new_profile_proxy_source(&f) {
        ProxySource::Own(p) => assert_eq!(plan_kind(&p), "save bob pw"),
        _ => panic!("expected own proxy"),
    }
    match updated_profile_proxy_source(&f, Some("svc".to_string())) {
        ProxySource::Own(p) => assert_eq!(plan_kind(&p), "save bob pw"),
        _ => panic!("expected own proxy"),
    }
    f.proxy_password = None;
    match updated_profile_proxy_source(&f, Some("svc".to_string())) {
        ProxySource::Own(p) => assert_eq!(plan_kind(&p), "keep Some(\"svc\")"),
        _ => panic!("expected own proxy"),
    }
    f.proxy_scheme = None;
    match updated_profile_proxy_source(&f, Some("svc".to_string())) {
        ProxySource::Own(p) => assert_eq!(plan_kind(&p), "clear Some(\"svc\")"),
        _ => panic!("expected own proxy"),
    }
    f.proxy_id = Some("saved".to_string());
    match updated_profile_proxy_source(&f, Some("svc".to_string())) {
        ProxySource::Saved { proxy_id, delete } => {
            assert_eq!(proxy_id, "saved");
            assert_eq!(delete, Some("svc".to_string()));
        }
        _ => panic!("expected saved proxy"),
    }
    match new_profile_proxy_source(&f) {
        ProxySource::Saved { proxy_id, delete } => {
            assert_eq!(proxy_id, "saved");
            assert_eq!(delete, None);
        }
        _ => panic!("expected saved proxy"),
    }
}

#[test]
fn proxy_assignments() {
    let saved = ProxyProfile {
        id: "px".to_string(),
        name: "P".to_string(),
        scheme: "http".to_string(),
        host: "h".to_string(),
        port: 8080,
        username: Some("u".to_string()),
        password_saved: true,
        notes: String::new(),
        created_at: Timestamp { seconds: 1, nanos: 0 },
        updated_at: Timestamp { seconds: 1, nanos: 0 },
    };
    let a = assign_saved_proxy(Some(saved)).ok().unwrap();
    assert_eq!(a.proxy_id, Some("px".to_string()));
    assert_eq!(a.scheme, Some("http".to_string()));
    assert_eq!(a.port, Some(8080));
    assert_eq!(a.username, Some("u".to_string()));
    assert_eq!(a.secret_ref, None);
    assert_eq!(assign_saved_proxy(None).err(), Some("Selected proxy profile was not found.".to_string()));
    let h = normalize_profile_head(&input()).ok().unwrap();
    let own = assign_own_proxy(&h, Some("svc".to_string()));
    assert_eq!(own.proxy_id, None);
    assert_eq!(own.host, Some("p.example".to_string()));
    assert_eq!(own.secret_ref, Some("svc".to_string()));
}

use fingerbrow::profiles::profile_row;
use fingerbrow::records::profile_from_row;

#[test]
fn a_saved_profile_reads_back_as_entered() {
    let fields = normalize_profile_fields(input()).ok().unwrap();
    let head = normalize_profile_head(&input()).ok().unwrap();
    let proxy = assign_own_proxy(&head, Some("svc".to_string()));
    let row = profile_row(
        "id9".to_string(),
        fields,
        proxy,
        "/p/profile_id9/chrome-user-data".to_string(),
        "2024-05-06T07:08:09Z".to_string(),
        "2024-05-06T07:08:09Z".to_string(),
    );
    let p = profile_from_row(row).ok().unwrap();
    let expected = normalize_profile_fields(input()).ok().unwrap();
    assert_eq!(p.id, "id9");
    assert_eq!(p.name, expected.name);
    assert_eq!(p.tags, expected.tags);
    assert_eq!(p.proxy_scheme, expected.proxy_scheme);
    assert_eq!(p.proxy_host, expected.proxy_host);
    assert_eq!(p.proxy_port, expected.proxy_port);
    assert!(p.proxy_password_saved);
    assert_eq!(p.profile_color, expected.profile_color);
    assert_eq!(p.webrtc_policy, expected.webrtc_policy);
    assert_eq!(p.webrtc_disabled, expected.webrtc_disabled);
    assert_eq!(p.startup_urls, expected.startup_urls);
    assert_eq!(p.launch_args, expected.launch_args);
    assert_eq!(p.created_at.seconds, 1714979289);
    assert!(p.last_launched_at.is_none());
}

use fingerbrow::profiles::proxy_row;
use fingerbrow::records::proxy_profile_from_row;

#[test]
fn a_saved_proxy_reads_back_as_entered() {
    let fields = normalize_proxy_fields(ProxyProfileInput {
        name: "Home".to_string(),
        scheme: "SOCKS5".to_string(),
        host: " 192.0.2.10 ".to_string(),
        port: 1080,
        username: Some("me".to_string()),
        password: Some("pw".to_string()),
        notes: None,
    })
    .ok()
    .unwrap();
    let row = proxy_row(
        "px1".to_string(),
        fields,
        Some("svc".to_string()),
        "2024-01-01T00:00:00Z".to_string(),
        "2024-01-01T00:00:00Z".to_string(),
    );
    let p = proxy_profile_from_row(row).ok().unwrap();
    assert_eq!(p.id, "px1");
    assert_eq!(p.scheme, "socks5");
    assert_eq!(p.host, "192.0.2.10");
    assert_eq!(p.port, 1080);
    assert_eq!(p.username, Some("me".to_string()));
    assert!(p.password_saved);
    assert_eq!(p.notes, "");
}

#[test]
fn head_errors_are_the_first_errors() {
    let mut i = input();
    i.proxy_port = Some(0);
    i.profile_color = Some("bad".to_string());
    assert_eq!(
        normalize_profile_head(&i).err(),
        Some("Proxy port must be between 1 and 65535, got 0.".to_string())
    );
    let mut i = input();
    i.profile_color = Some("bad".to_string());
    let h = normalize_profile_head(&i).ok().unwrap();
    assert_eq!(h.name, "Shop");
    assert_eq!(h.proxy_username, Some("bob".to_string()));
    assert_eq!(normalize_profile_fields(i).err(), Some("Profile color must use #RRGGBB format.".to_string()));
}
