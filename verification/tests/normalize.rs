use fingerbrow::color::{default_profile_color, normalize_profile_color, parse_profile_color};
use fingerbrow::normalize::{
    is_webrtc_direct_udp_restricted, keychain_service, normalize_coordinate, normalize_dimension,
    normalize_optional_text, normalize_profile_name, normalize_proxy_host, normalize_proxy_port,
    normalize_proxy_scheme, normalize_proxy_settings, normalize_required_name,
    normalize_required_proxy_settings, normalize_webrtc_policy,
};

#[test]
fn profile_names_are_trimmed_and_required() {
    assert_eq!(normalize_profile_name("  Work  "), Ok("Work".to_string()));
    assert_eq!(normalize_profile_name(" \t\n"), Err("Profile name is required.".to_string()));
    assert_eq!(normalize_required_name("", "Proxy name"), Err("Proxy name is required.".to_string()));
    assert_eq!(normalize_required_name(" Home ", "Proxy name"), Ok("Home".to_string()));
}

#[test]
fn optional_text_drops_blank_values() {
    assert_eq!(normalize_optional_text(Some("  en-US ".to_string())), Some("en-US".to_string()));
    assert_eq!(normalize_optional_text(Some("   ".to_string())), None);
    assert_eq!(normalize_optional_text(None), None);
    assert_eq!(normalize_proxy_host(Some(" 10.0.0.1 ".to_string())), Some("10.0.0.1".to_string()));
}

#[test]
fn normalizing_optional_text_twice_changes_nothing() {
    let once = normalize_optional_text(Some("\u{3000} Europe/Paris \n".to_string()));
    let twice = normalize_optional_text(once.clone());
    assert_eq!(once, Some("Europe/Paris".to_string()));
    assert_eq!(twice, once);
}

#[test]
fn proxy_schemes_are_lowercased_and_checked() {
    assert_eq!(normalize_proxy_scheme(Some(" SOCKS5 ".to_string())), Ok(Some("socks5".to_string())));
    assert_eq!(normalize_proxy_scheme(Some("Https".to_string())), Ok(Some("https".to_string())));
    assert_eq!(normalize_proxy_scheme(Some("  ".to_string())), Ok(None));
    assert_eq!(normalize_proxy_scheme(None), Ok(None));
    assert_eq!(
        normalize_proxy_scheme(Some("FTP".to_string())),
        Err("Unsupported proxy scheme: ftp".to_string())
    );
}

#[test]
fn proxy_ports_must_fit() {
    assert_eq!(normalize_proxy_port(Some(1)), Ok(Some(1)));
    assert_eq!(normalize_proxy_port(Some(65535)), Ok(Some(65535)));
    assert_eq!(normalize_proxy_port(None), Ok(None));
    assert_eq!(
        normalize_proxy_port(Some(0)),
        Err("Proxy port must be between 1 and 65535, got 0.".to_string())
    );
    assert_eq!(
        normalize_proxy_port(Some(-70000)),
        Err("Proxy port must be between 1 and 65535, got -70000.".to_string())
    );
}

#[test]
fn proxy_settings_are_all_or_nothing() {
    assert_eq!(normalize_proxy_settings(None, None, None), Ok((None, None, None)));
    assert_eq!(
        normalize_proxy_settings(Some("HTTP".to_string()), Some(" proxy.local ".to_string()), Some(8080)),
        Ok((Some("http".to_string()), Some("proxy.local".to_string()), Some(8080)))
    );
    assert_eq!(
        normalize_proxy_settings(Some("http".to_string()), None, Some(8080)),
        Err("Proxy scheme, host, and port are all required when proxy is enabled.".to_string())
    );
    assert_eq!(
        normalize_proxy_settings(Some("gopher".to_string()), None, Some(0)),
        Err("Unsupported proxy scheme: gopher".to_string())
    );
    assert_eq!(
        normalize_proxy_settings(None, Some("h".to_string()), Some(0)),
        Err("Proxy port must be between 1 and 65535, got 0.".to_string())
    );
}

#[test]
fn saved_proxies_need_scheme_host_and_port() {
    assert_eq!(
        normalize_required_proxy_settings("Socks5".to_string(), " host ".to_string(), 1080),
        Ok(("socks5".to_string(), "host".to_string(), 1080))
    );
    assert_eq!(
        normalize_required_proxy_settings(" ".to_string(), "host".to_string(), 1080),
        Err("Proxy scheme is required.".to_string())
    );
    assert_eq!(
        normalize_required_proxy_settings("http".to_string(), "".to_string(), 1080),
        Err("Proxy host is required.".to_string())
    );
    assert_eq!(
        normalize_required_proxy_settings("http".to_string(), "h".to_string(), 70000),
        Err("Proxy port must be between 1 and 65535, got 70000.".to_string())
    );
}

#[test]
fn window_dimensions_and_coordinates_have_ranges() {
    assert_eq!(normalize_dimension(Some(1280), "Window width"), Ok(Some(1280)));
    assert_eq!(
        normalize_dimension(Some(0), "Window width"),
        Err("Window width must be between 1 and 10000, got 0.".to_string())
    );
    assert_eq!(normalize_coordinate(Some(-10000), "Window X"), Ok(Some(-10000)));
    assert_eq!(
        normalize_coordinate(Some(10001), "Window Y"),
        Err("Window Y must be between -10000 and 10000, got 10001.".to_string())
    );
    assert_eq!(normalize_coordinate(None, "Window Y"), Ok(None));
}

#[test]
fn webrtc_policies_normalise() {
    assert_eq!(normalize_webrtc_policy(Some(" Public_Only ".to_string()), None), Ok("public_only".to_string()));
    assert_eq!(normalize_webrtc_policy(None, Some(true)), Ok("proxy_only".to_string()));
    assert_eq!(normalize_webrtc_policy(Some("".to_string()), Some(false)), Ok("default".to_string()));
    assert_eq!(normalize_webrtc_policy(None, None), Ok("default".to_string()));
    assert_eq!(
        normalize_webrtc_policy(Some("Off".to_string()), None),
        Err("Unsupported WebRTC policy: off".to_string())
    );
    assert!(is_webrtc_direct_udp_restricted("public_only"));
    assert!(is_webrtc_direct_udp_restricted("proxy_only"));
    assert!(!is_webrtc_direct_udp_restricted("default"));
}

#[test]
fn keychain_service_names_the_profile() {
    assert_eq!(keychain_service("abc"), "com.xiaochi.local-chromium-manager.proxy.abc");
}

#[test]
fn profile_colors_are_uppercase_hex() {
    assert_eq!(normalize_profile_color(Some(" #a1b2c3 ".to_string())), Ok(Some("#A1B2C3".to_string())));
    assert_eq!(normalize_profile_color(Some("".to_string())), Ok(None));
    assert_eq!(
        normalize_profile_color(Some("#12345".to_string())),
        Err("Profile color must use #RRGGBB format.".to_string())
    );
    assert_eq!(
        normalize_profile_color(Some("#12345G".to_string())),
        Err("Profile color must use #RRGGBB format.".to_string())
    );
    let once = normalize_profile_color(Some("#ff00aa".to_string())).unwrap();
    assert_eq!(normalize_profile_color(once.clone()), Ok(once));
}

#[test]
fn profile_colors_parse_to_channels() {
    assert_eq!(parse_profile_color("#00B1FF"), Ok((0, 177, 255)));
    assert_eq!(parse_profile_color("#ff0080"), Ok((255, 0, 128)));
    assert_eq!(parse_profile_color("  "), Err("Profile color is required.".to_string()));
    assert_eq!(parse_profile_color("red"), Err("Profile color must use #RRGGBB format.".to_string()));
}

#[test]
fn default_colors_cycle_through_the_palette() {
    assert_eq!(default_profile_color(0), "#2563EB");
    assert_eq!(default_profile_color(9), "#0891B2");
    assert_eq!(default_profile_color(10), "#2563EB");
    assert_eq!(default_profile_color(13), "#7C3AED");
}

#[test]
fn hex_colors_parse_back_to_their_channels() {
    for (r, g, b) in [(0u8, 177u8, 255u8), (255, 0, 128), (16, 15, 1), (171, 205, 239)] {
        assert_eq!(parse_profile_color(&format!("#{:02x}{:02X}{:02x}", r, g, b)), Ok((r, g, b)));
        assert_eq!(parse_profile_color(&format!("#{:02X}{:02x}{:02X}", r, g, b)), Ok((r, g, b)));
    }
    assert_eq!(parse_profile_color("#00b1ff"), Ok((0, 177, 255)));
    assert!(parse_profile_color("#00b1fg").is_err());
    assert!(normalize_profile_color(Some("#00b1fg".to_string())).is_err());
}

#[test]
fn palette_colors_are_normal_and_distinct() {
    let colors: Vec<&str> = (0..10).map(default_profile_color).collect();
    for c in &colors {
        assert_eq!(normalize_profile_color(Some(c.to_string())), Ok(Some(c.to_string())));
    }
    for i in 0..10 {
        for j in (i + 1)..10 {
            assert_ne!(colors[i], colors[j]);
        }
    }
}

#[test]
fn blank_scheme_and_policy_fall_back() {
    assert_eq!(normalize_proxy_scheme(Some("\t".to_string())), Ok(None));
    assert_eq!(
        normalize_required_proxy_settings("\n".to_string(), "h".to_string(), 0),
        Err("Proxy scheme is required.".to_string())
    );
    assert_eq!(normalize_webrtc_policy(Some(" ".to_string()), Some(true)), Ok("proxy_only".to_string()));
}
