use fingerbrow::browser::{
    browser_candidates, chrome_for_testing_platform, deletable_root_given,
    detect_default_browser_binary, first_present_binary, managed_browser_binary_path,
    managed_browser_install_dir, managed_browser_layout, managed_browser_root,
    managed_browser_status, profile_dirs, profile_root_to_delete, AppPaths, BrowserCandidate,
};

fn paths() -> AppPaths {
    AppPaths::new("/data/app".to_string())
}

#[test]
fn app_paths_live_under_the_data_dir() {
    let p = paths();
    assert_eq!(p.app_data_dir, "/data/app");
    assert_eq!(p.database_path, "/data/app/app.db");
    assert_eq!(p.config_path, "/data/app/config.json");
    assert_eq!(p.credentials_path, "/data/app/credentials.enc");
    assert_eq!(p.profiles_dir, "/data/app/profiles");
    assert_eq!(p.backups_dir, "/data/app/backups");
    assert_eq!(p.browsers_dir, "/data/app/browsers");
    assert_eq!(AppPaths::new("/data/".to_string()).profiles_dir, "/data/profiles");
}

#[test]
fn platforms_are_known_for_mac_and_linux() {
    assert_eq!(chrome_for_testing_platform("macos", "aarch64"), Ok("mac-arm64".to_string()));
    assert_eq!(chrome_for_testing_platform("macos", "x86_64"), Ok("mac-x64".to_string()));
    assert_eq!(chrome_for_testing_platform("linux", "x86_64"), Ok("linux64".to_string()));
    assert_eq!(
        chrome_for_testing_platform("windows", "x86_64"),
        Err("Managed Chrome is not wired for this platform yet: windows/x86_64.".to_string())
    );
}

#[test]
fn managed_browser_paths() {
    let p = paths();
    assert_eq!(managed_browser_root(&p), "/data/app/browsers/chrome-for-testing");
    assert_eq!(
        managed_browser_install_dir(&p, "linux", "x86_64"),
        Ok("/data/app/browsers/chrome-for-testing/chrome-linux64".to_string())
    );
    assert_eq!(
        managed_browser_binary_path(&p, "linux", "x86_64"),
        Ok("/data/app/browsers/chrome-for-testing/chrome-linux64/chrome".to_string())
    );
    assert_eq!(
        managed_browser_binary_path(&p, "macos", "aarch64"),
        Ok("/data/app/browsers/chrome-for-testing/chrome-mac-arm64/Google Chrome for Testing.app/Contents/MacOS/Google Chrome for Testing".to_string())
    );
}

#[test]
fn managed_browser_status_reports_installation() {
    let p = paths();
    let installed = managed_browser_status(&p, "linux", "x86_64", true);
    assert!(installed.installed);
    assert_eq!(installed.install_dir, "/data/app/browsers/chrome-for-testing");
    assert_eq!(
        installed.binary_path,
        Some("/data/app/browsers/chrome-for-testing/chrome-linux64/chrome".to_string())
    );
    assert_eq!(installed.message, "Managed Chrome for Testing is installed and will be used by default.");
    let missing = managed_browser_status(&p, "linux", "x86_64", false);
    assert!(!missing.installed);
    assert_eq!(missing.binary_path, None);
    assert_eq!(missing.message, "Managed Chrome for Testing is not installed.");
    let unknown = managed_browser_status(&p, "freebsd", "x86_64", true);
    assert!(!unknown.installed);
    assert_eq!(unknown.message, "Managed Chrome is not wired for this platform yet: freebsd/x86_64.");
}

#[test]
fn install_layout_sits_beside_the_installations() {
    let layout = managed_browser_layout(&paths(), "macos", "x86_64").ok().unwrap();
    assert_eq!(layout.root, "/data/app/browsers/chrome-for-testing");
    assert_eq!(layout.extract_dir, "/data/app/browsers/chrome-for-testing/extracting");
    assert_eq!(layout.install_dir, "/data/app/browsers/chrome-for-testing/chrome-mac-x64");
    assert_eq!(layout.zip_path, "/data/app/browsers/chrome-for-testing/chrome-for-testing.zip");
    assert_eq!(layout.extracted_dir, "/data/app/browsers/chrome-for-testing/extracting/chrome-mac-x64");
}

#[test]
fn candidates_list_the_managed_browser_first() {
    let p = paths();
    let present = |path: &String| path.ends_with("/Chromium");
    let found = browser_candidates(Some(&p), "linux", "x86_64", &present);
    let names: Vec<&str> = found.iter().map(|c| c.name.as_str()).collect();
    assert_eq!(names, vec!["FingerBrow Managed Chrome", "Google Chrome", "Chromium"]);
    assert_eq!(found[0].app_path, "/data/app/browsers/chrome-for-testing");
    assert_eq!(found[1].binary_path, "/Applications/Google Chrome.app/Contents/MacOS/Google Chrome");
    assert_eq!(found.iter().map(|c| c.exists).collect::<Vec<_>>(), vec![false, false, true]);
    let none = |_: &String| false;
    assert_eq!(browser_candidates(None, "linux", "x86_64", &none).len(), 2);
    assert_eq!(browser_candidates(Some(&p), "windows", "x86_64", &none).len(), 2);
}

#[test]
fn default_browser_is_the_first_present() {
    let p = paths();
    let all = |_: &String| true;
    assert_eq!(
        detect_default_browser_binary(&p, "linux", "x86_64", &all),
        Some("/data/app/browsers/chrome-for-testing/chrome-linux64/chrome".to_string())
    );
    let chromium = |path: &String| path.contains("Chromium");
    assert_eq!(
        detect_default_browser_binary(&p, "linux", "x86_64", &chromium),
        Some("/Applications/Chromium.app/Contents/MacOS/Chromium".to_string())
    );
    let none = |_: &String| false;
    assert_eq!(detect_default_browser_binary(&p, "linux", "x86_64", &none), None);
    let listed = vec![BrowserCandidate {
        name: "A".to_string(),
        app_path: "/a".to_string(),
        binary_path: "/a/bin".to_string(),
        exists: false,
    }];
    assert_eq!(first_present_binary(&listed), None);
}

#[test]
fn each_profile_has_its_own_user_data_dir() {
    let p = paths();
    let (dir_a, data_a) = profile_dirs(&p, "a1");
    let (_, data_b) = profile_dirs(&p, "b2");
    assert_eq!(dir_a, "/data/app/profiles/profile_a1");
    assert_eq!(data_a, "/data/app/profiles/profile_a1/chrome-user-data");
    assert_ne!(data_a, data_b);
}

#[test]
fn only_profile_folders_are_deleted() {
    assert_eq!(
        profile_root_to_delete("/data/app/profiles/profile_a1/chrome-user-data", "/data/app/profiles"),
        Ok(Some("/data/app/profiles/profile_a1".to_string()))
    );
    assert_eq!(profile_root_to_delete("/elsewhere/chrome-user-data", "/data/app/profiles"), Ok(None));
    assert_eq!(
        profile_root_to_delete("/data/app/profiles-old/x/chrome-user-data", "/data/app/profiles"),
        Ok(None)
    );
    assert_eq!(profile_root_to_delete("/", "/data/app/profiles"), Err("Profile directory is invalid.".to_string()));
    assert_eq!(deletable_root_given(Some("/p".to_string()), false), Ok(None));
    assert_eq!(deletable_root_given(None, true), Err("Profile directory is invalid.".to_string()));
}
