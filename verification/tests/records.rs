use fingerbrow::launch::Timestamp;
use fingerbrow::records::{
    decode_json_vec, encode_json, parse_datetime, parse_optional_datetime, profile_from_row,
    proxy_profile_from_row, ProfileRow, ProxyProfileRow,
};

fn row() -> ProfileRow {
    ProfileRow {
        id: "id1".to_string(),
        name: "Work".to_string(),
        notes: "n".to_string(),
        tags_json: "[\"a\",\"b\"]".to_string(),
        browser_binary_path: None,
        user_data_dir: "/p/id1/chrome-user-data".to_string(),
        proxy_id: None,
        proxy_scheme: Some("http".to_string()),
        proxy_host: Some("h".to_string()),
        proxy_port: Some(8080),
        proxy_username: None,
        proxy_password_secret_ref: Some("svc".to_string()),
        user_agent: None,
        language: Some("fr".to_string()),
        timezone: None,
        profile_color: None,
        webrtc_policy: None,
        webrtc_disabled: 1,
        window_width: Some(1000),
        window_height: None,
        window_x: None,
        window_y: None,
        launch_args_json: "[]".to_string(),
        startup_urls_json: "[\"https://e.example\"]".to_string(),
        created_at: "2024-01-02T03:04:05Z".to_string(),
        updated_at: "2024-01-02T04:04:05.5+01:00".to_string(),
        last_launched_at: None,
    }
}

#[test]
fn datetimes_read_as_utc_instants() {
    assert_eq!(
        parse_datetime("1970-01-01T00:00:10Z".to_string()).ok().map(|t| (t.seconds, t.nanos)),
        Some((10, 0))
    );
    assert_eq!(
        parse_datetime("1970-01-01T01:00:00.25+01:00".to_string()).ok().map(|t| (t.seconds, t.nanos)),
        Some((0, 250_000_000))
    );
    let chrono_error = chrono::DateTime::parse_from_rfc3339("yesterday").unwrap_err().to_string();
    assert_eq!(parse_datetime("yesterday".to_string()).err(), Some(chrono_error));
    assert!(matches!(parse_optional_datetime(None), Ok(None)));
}

#[test]
fn string_lists_round_trip_through_json() {
    let values = vec!["a \"quoted\" one".to_string(), "π\n".to_string(), String::new()];
    let text = encode_json(&values).unwrap();
    assert_eq!(decode_json_vec(text), Ok(values));
    assert!(decode_json_vec("[1]".to_string()).is_err());
}

#[test]
fn profiles_read_back_from_rows() {
    let p = profile_from_row(row()).ok().unwrap();
    assert_eq!(p.id, "id1");
    assert_eq!(p.tags, vec!["a".to_string(), "b".to_string()]);
    assert_eq!(p.webrtc_policy, "proxy_only");
    assert!(p.webrtc_disabled);
    assert!(p.proxy_password_saved);
    assert_eq!(p.startup_urls, vec!["https://e.example".to_string()]);
    assert!(p.created_at == Timestamp { seconds: 1704164645, nanos: 0 });
    assert!(p.updated_at == Timestamp { seconds: 1704164645, nanos: 500_000_000 });
    assert!(!p.running);
    let mut kept = row();
    kept.webrtc_policy = Some("default".to_string());
    let p = profile_from_row(kept).ok().unwrap();
    assert_eq!(p.webrtc_policy, "default");
    assert!(!p.webrtc_disabled);
}

#[test]
fn unreadable_rows_report_the_first_bad_column() {
    let mut bad = row();
    bad.launch_args_json = "nope".to_string();
    bad.created_at = "never".to_string();
    let json_error = serde_json::from_str::<Vec<String>>("nope").unwrap_err().to_string();
    assert_eq!(profile_from_row(bad).err(), Some(json_error));
    let mut bad = row();
    bad.last_launched_at = Some("soon".to_string());
    let time_error = chrono::DateTime::parse_from_rfc3339("soon").unwrap_err().to_string();
    assert_eq!(profile_from_row(bad).err(), Some(time_error));
}

#[test]
fn proxies_read_back_from_rows() {
    let r = ProxyProfileRow {
        id: "px".to_string(),
        name: "P".to_string(),
        scheme: "socks5".to_string(),
        host: "h".to_string(),
        port: 1080,
        username: Some("u".to_string()),
        password_secret_ref: None,
        notes: String::new(),
        created_at: "2024-01-01T00:00:00Z".to_string(),
        updated_at: "2024-01-01T00:00:00Z".to_string(),
    };
    let p = proxy_profile_from_row(r).ok().unwrap();
    assert_eq!(p.scheme, "socks5");
    assert!(!p.password_saved);
    assert_eq!(p.username, Some("u".to_string()));
}
