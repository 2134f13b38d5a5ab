use boxedmino::catalog::{
    collect_tags, get_available_offline_versions, get_cold_clear_download_url, parse_release_tags,
    CatalogError,
};
use boxedmino::text::same_text;

fn strings(v: &[&str]) -> Vec<String> {
    v.iter().map(|s| s.to_string()).collect()
}

#[test]
fn tags_come_in_index_order_skipping_untagged_releases() {
    let body = r#"[{"tag_name":"11.4.2","id":3},{"id":2},{"tag_name":7},{"tag_name":"11.4.1"}]"#;
    assert_eq!(parse_release_tags(body), Ok(strings(&["11.4.2", "11.4.1"])));
}

#[test]
fn an_empty_index_has_no_tags() {
    assert_eq!(parse_release_tags("  [ ]\n"), Ok(Vec::new()));
}

#[test]
fn an_index_that_is_no_array_is_refused() {
    assert_eq!(parse_release_tags(r#"{"message":"rate limited"}"#), Err(CatalogError::NotAnArray));
    assert_eq!(parse_release_tags("\"v1\""), Err(CatalogError::NotAnArray));
}

#[test]
fn an_index_that_is_no_json_is_refused() {
    assert_eq!(parse_release_tags("<html>"), Err(CatalogError::InvalidJson));
    assert_eq!(parse_release_tags("[1,"), Err(CatalogError::InvalidJson));
    assert_eq!(parse_release_tags(""), Err(CatalogError::InvalidJson));
}

#[test]
fn collecting_keeps_present_tags() {
    let tags = vec![None, Some("b".to_string()), None, Some("a".to_string())];
    assert_eq!(collect_tags(tags), strings(&["b", "a"]));
    assert!(collect_tags(Vec::new()).is_empty());
}

#[test]
fn cached_versions_drop_the_suffix() {
    let names = strings(&["11.4.1.zip", "notes.txt", ".zip", "zip", "11.4.2.zip", "a.zip.bak", "v.zip.zip"]);
    assert_eq!(
        get_available_offline_versions(&names),
        strings(&["11.4.1", "", "11.4.2", "v.zip"])
    );
    assert!(get_available_offline_versions(&Vec::new()).is_empty());
}

#[test]
fn download_url_per_system() {
    assert_eq!(
        get_cold_clear_download_url("11.4.2", "linux"),
        Ok("https://github.com/26F-Studio/cold_clear_ai_love2d_wrapper/releases/download/11.4.2/Linux.zip".to_string())
    );
    assert_eq!(
        get_cold_clear_download_url("11.4.1", "windows"),
        Ok("https://github.com/26F-Studio/cold_clear_ai_love2d_wrapper/releases/download/11.4.1/Windows.zip".to_string())
    );
    assert!(get_cold_clear_download_url("v", "macos").unwrap().ends_with("/v/macOS.zip"));
    assert!(get_cold_clear_download_url("v", "android").unwrap().ends_with("/v/Android.zip"));
    assert!(get_cold_clear_download_url("v", "ios").unwrap().ends_with("/v/iOS.zip"));
}

#[test]
fn download_url_for_an_unsupported_system() {
    assert_eq!(get_cold_clear_download_url("11.4.2", "freebsd"), Err(CatalogError::UnsupportedPlatform));
    assert_eq!(get_cold_clear_download_url("11.4.2", "Linux"), Err(CatalogError::UnsupportedPlatform));
}

#[test]
fn text_equality() {
    assert!(same_text("abc", "abc"));
    assert!(!same_text("abc", "abd"));
    assert!(!same_text("", "a"));
}

#[test]
fn tags_are_read_from_objects_only() {
    let body = r#"[["tag_name","x"],{"name":"v","tag_name":"v2","assets":[{"tag_name":"no"}]},null,{"tag_name":null},"v3"]"#;
    assert_eq!(parse_release_tags(body), Ok(strings(&["v2"])));
}

#[test]
fn top_level_values_that_are_no_array() {
    assert_eq!(parse_release_tags("null"), Err(CatalogError::NotAnArray));
    assert_eq!(parse_release_tags("12.5"), Err(CatalogError::NotAnArray));
    assert_eq!(parse_release_tags("true"), Err(CatalogError::NotAnArray));
}
