use fingerbrow::migrations::{migration, pending_migrations, profile_color_assignments, schema_setup_sql};

#[test]
fn all_migrations_are_pending_on_a_new_database() {
    let pending = pending_migrations(&vec![]);
    let versions: Vec<i64> = pending.iter().map(|m| m.version).collect();
    assert_eq!(versions, vec![1, 2, 3, 4, 5]);
    assert_eq!(pending[0].name, "initial_profile_and_proxy_schema");
    assert_eq!(pending[4].name, "profile_theme_color");
    assert!(pending[4].assigns_colors);
    assert!(!pending[0].assigns_colors);
    assert!(pending[0].sql.contains("CREATE TABLE profiles"));
    assert!(pending[1].sql.contains("ADD COLUMN proxy_scheme"));
}

#[test]
fn recorded_migrations_do_not_run_again() {
    let pending = pending_migrations(&vec![2, 1, 4, 99]);
    let versions: Vec<i64> = pending.iter().map(|m| m.version).collect();
    assert_eq!(versions, vec![3, 5]);
    let mut applied = vec![2, 1, 4, 99];
    applied.extend(versions);
    assert!(pending_migrations(&applied).is_empty());
}

#[test]
fn migration_texts() {
    assert_eq!(migration(2).sql, "ALTER TABLE profiles ADD COLUMN proxy_scheme TEXT;\nALTER TABLE profiles ADD COLUMN proxy_host TEXT;\nALTER TABLE profiles ADD COLUMN proxy_port INTEGER;\n");
    assert_eq!(migration(3).name, "profile_browser_controls_and_keychain_proxy");
    assert_eq!(migration(4).name, "profile_timezone_and_webrtc_policy");
    assert!(schema_setup_sql().starts_with("PRAGMA foreign_keys = ON;"));
}

#[test]
fn existing_profiles_take_the_palette_in_turn() {
    let ids: Vec<String> = (0..12).map(|i| format!("id{i}")).collect();
    let colors = profile_color_assignments(&ids);
    assert_eq!(colors.len(), 12);
    assert_eq!(colors[0], ("id0".to_string(), "#2563EB".to_string()));
    assert_eq!(colors[2], ("id2".to_string(), "#DC2626".to_string()));
    assert_eq!(colors[11], ("id11".to_string(), "#059669".to_string()));
}
