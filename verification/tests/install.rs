use fingerbrow::install::{
    command_failure, download_command, download_url, download_url_in, extract_command,
    metadata_command, metadata_failure, missing_folder_message, missing_installed_binary_message,
};

const METADATA: &str = r#"{"channels":{"Stable":{"version":"1","downloads":{"chrome":[
  {"platform":"linux64","url":"https://x/linux64.zip"},
  {"platform":"mac-arm64","url":5},
  {"platform":"mac-arm64","url":"https://x/mac-arm64.zip"}
]}}}}"#;

#[test]
fn download_urls_come_from_the_metadata() {
    assert_eq!(download_url(METADATA.as_bytes(), "linux64"), Ok("https://x/linux64.zip".to_string()));
    assert_eq!(download_url(METADATA.as_bytes(), "mac-arm64"), Ok("https://x/mac-arm64.zip".to_string()));
    assert_eq!(
        download_url(METADATA.as_bytes(), "win64"),
        Err("Chrome for Testing download URL not found for win64.".to_string())
    );
    assert_eq!(
        download_url(br#"{"channels":{}}"#, "linux64"),
        Err("Chrome for Testing download URL not found for linux64.".to_string())
    );
    let parse_error = serde_json::from_slice::<serde_json::Value>(b"not json").unwrap_err().to_string();
    assert_eq!(download_url(b"not json", "linux64"), Err(parse_error));
    assert_eq!(
        download_url_in(Some(vec![(None, Some("u".to_string())), (Some("p".to_string()), Some("v".to_string()))]), "p"),
        Ok("v".to_string())
    );
}

#[test]
fn install_commands() {
    let m = metadata_command();
    assert_eq!(m.program, "curl");
    assert_eq!(
        m.args,
        vec!["-fsSL", "https://googlechromelabs.github.io/chrome-for-testing/last-known-good-versions-with-downloads.json"]
    );
    let d = download_command("/z.zip", "https://u");
    assert_eq!(d.args, vec!["-fL", "--progress-bar", "-o", "/z.zip", "https://u"]);
    let mac = extract_command("macos", "/z.zip", "/e");
    assert_eq!(mac.program, "ditto");
    assert_eq!(mac.args, vec!["-x", "-k", "/z.zip", "/e"]);
    let linux = extract_command("linux", "/z.zip", "/e");
    assert_eq!(linux.program, "unzip");
    assert_eq!(linux.args, vec!["-q", "-o", "/z.zip", "-d", "/e"]);
}

#[test]
fn install_messages() {
    assert_eq!(command_failure("download managed Chrome", "404"), "Failed to download managed Chrome: 404");
    assert_eq!(metadata_failure("boom"), "Failed to fetch Chrome for Testing metadata: boom");
    assert_eq!(missing_folder_message("/e/chrome-linux64"), "Downloaded Chrome archive did not contain expected folder: /e/chrome-linux64");
    assert_eq!(missing_installed_binary_message("/b"), "Managed Chrome installed, but binary was not found: /b");
}
