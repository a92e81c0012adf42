use fingerbrow::launch::{Profile, Timestamp};
use fingerbrow::preferences::{merge_chrome_preferences, preferences_slots_fit, Json};

fn profile(color: Option<&str>) -> Profile {
    Profile {
        id: "p1".to_string(),
        name: "Work".to_string(),
        notes: String::new(),
        tags: vec![],
        browser_binary_path: None,
        user_data_dir: "/p/p1/chrome-user-data".to_string(),
        proxy_id: None,
        proxy_scheme: None,
        proxy_host: None,
        proxy_port: None,
        proxy_username: None,
        proxy_password_saved: false,
        user_agent: None,
        language: None,
        timezone: None,
        profile_color: color.map(|c| c.to_string()),
        webrtc_policy: "default".to_string(),
        webrtc_disabled: false,
        window_width: None,
        window_height: None,
        window_x: None,
        window_y: None,
        launch_args: vec![],
        startup_urls: vec![],
        created_at: Timestamp { seconds: 0, nanos: 0 },
        updated_at: Timestamp { seconds: 0, nanos: 0 },
        last_launched_at: None,
        running: false,
    }
}

fn obj(members: Vec<(&str, Json)>) -> Json {
    Json::Object(members.into_iter().map(|(k, v)| (k.to_string(), v)).collect())
}

fn get<'a>(j: &'a Json, key: &str) -> Option<&'a Json> {
    match j {
        Json::Object(es) => es.iter().find(|(k, _)| k == key).map(|(_, v)| v),
        _ => None,
    }
}

fn text(j: Option<&Json>) -> Option<String> {
    match j {
        Some(Json::Text(t)) | Some(Json::Number(t)) => Some(t.clone()),
        _ => None,
    }
}

#[test]
fn an_empty_document_gets_name_avatar_and_colour() {
    let out = merge_chrome_preferences(None, &profile(Some("#00B1FF"))).ok().unwrap();
    let p = get(&out, "profile").unwrap();
    assert_eq!(text(get(p, "name")), Some("Work".to_string()));
    assert_eq!(text(get(p, "avatar_index")), Some("26".to_string()));
    let theme = get(get(&out, "extensions").unwrap(), "theme").unwrap();
    assert_eq!(text(get(theme, "id")), Some("user_color_theme_id".to_string()));
    let browser_theme = get(get(&out, "browser").unwrap(), "theme").unwrap();
    assert_eq!(text(get(browser_theme, "user_color")), Some("-16731649".to_string()));
    assert_eq!(text(get(browser_theme, "user_color2")), Some("-16731649".to_string()));
    assert_eq!(text(get(browser_theme, "color_scheme")), Some("1".to_string()));
    assert!(matches!(get(browser_theme, "follows_system_colors"), Some(Json::Bool(false))));
}

#[test]
fn other_members_are_kept() {
    let existing = obj(vec![
        ("session", Json::Number("3".to_string())),
        ("profile", obj(vec![("exit_type", Json::Text("Normal".to_string()))])),
        ("browser", obj(vec![("window", Json::Null)])),
    ]);
    let out = merge_chrome_preferences(Some(existing), &profile(None)).ok().unwrap();
    assert_eq!(text(get(&out, "session")), Some("3".to_string()));
    let p = get(&out, "profile").unwrap();
    assert_eq!(text(get(p, "exit_type")), Some("Normal".to_string()));
    assert_eq!(text(get(p, "name")), Some("Work".to_string()));
    assert!(get(get(&out, "browser").unwrap(), "theme").is_none());
    assert!(get(get(&out, "browser").unwrap(), "window").is_some());
    assert!(get(&out, "extensions").is_none());
}

#[test]
fn invalid_documents_are_refused_in_order() {
    assert_eq!(
        merge_chrome_preferences(Some(Json::Array(vec![])), &profile(Some("bad"))).err(),
        Some("Chrome preferences root is invalid.".to_string())
    );
    assert_eq!(
        merge_chrome_preferences(Some(obj(vec![("profile", Json::Bool(true))])), &profile(Some("bad"))).err(),
        Some("Chrome profile preferences are invalid.".to_string())
    );
    assert_eq!(
        merge_chrome_preferences(None, &profile(Some("bad"))).err(),
        Some("Profile color must use #RRGGBB format.".to_string())
    );
}

#[test]
fn colour_slots_must_be_objects() {
    let clash = Some(obj(vec![("extensions", Json::Text("x".to_string()))]));
    assert!(!preferences_slots_fit(&clash, &profile(Some("#123456"))));
    assert!(preferences_slots_fit(&clash, &profile(None)));
    assert!(preferences_slots_fit(&None, &profile(Some("#123456"))));
}
