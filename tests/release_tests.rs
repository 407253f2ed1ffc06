use moonlight_launcher::json::json_string_member;
use moonlight_launcher::release::{
    parse_nightly_release, parse_stable_release, release_from_manifest, ReleaseIdentity,
    ResolverError, NIGHTLY_DOWNLOAD_URL,
};

const MANIFEST: &str = r#"{
  "tag_name": "v1.3.9",
  "name": "moonlight v1.3.9",
  "draft": false,
  "assets": [
    {"name": "dist.tar.gz", "browser_download_url": "https://example.com/dist.tar.gz", "size": 12},
    {"name": "unrelated.exe", "browser_download_url": "https://example.com/unrelated.exe"}
  ]
}"#;

#[test]
fn stable_manifest_keeps_only_allowed_assets() {
    let rel = parse_stable_release(MANIFEST).unwrap();
    assert_eq!(rel.identity.tag_name, "v1.3.9");
    assert_eq!(rel.identity.name, "moonlight v1.3.9");
    assert_eq!(rel.assets.len(), 1);
    assert_eq!(rel.assets[0].name, "dist.tar.gz");
    assert_eq!(rel.assets[0].browser_download_url, "https://example.com/dist.tar.gz");
}

#[test]
fn stable_manifest_with_malformed_asset_entry_fails() {
    let bodies = [
        r#"{"tag_name": "t", "name": "n", "assets": [{"name": 5, "browser_download_url": "u1"}]}"#,
        r#"{"tag_name": "t", "name": "n", "assets": ["dist.tar.gz"]}"#,
        r#"{"tag_name": "t", "name": "n", "assets": [{"name": "dist.tar.gz"}]}"#,
        r#"{"tag_name": "t", "name": "n", "assets": [
            {"name": "dist.tar.gz", "browser_download_url": "u2"},
            {"name": "other.zip"}
        ]}"#,
    ];
    for body in bodies {
        assert_eq!(parse_stable_release(body).unwrap_err(), ResolverError::Malformed);
    }
}

#[test]
fn stable_manifest_without_matching_assets_is_empty() {
    let body = r#"{"tag_name": "t", "name": "n", "assets": []}"#;
    let rel = parse_stable_release(body).unwrap();
    assert!(rel.assets.is_empty());
}

#[test]
fn stable_manifest_errors() {
    assert_eq!(parse_stable_release("not json").unwrap_err(), ResolverError::Malformed);
    assert_eq!(
        parse_stable_release(r#"{"name": "n", "assets": []}"#).unwrap_err(),
        ResolverError::Malformed
    );
    assert_eq!(
        parse_stable_release(r#"{"tag_name": 1, "name": "n", "assets": []}"#).unwrap_err(),
        ResolverError::Malformed
    );
    assert_eq!(
        parse_stable_release(r#"{"tag_name": "t", "name": "n", "assets": {}}"#).unwrap_err(),
        ResolverError::Malformed
    );
    assert_eq!(parse_stable_release("[1, 2]").unwrap_err(), ResolverError::Malformed);
}

#[test]
fn manifest_from_parsed_value() {
    let v: tinyjson::JsonValue = MANIFEST.parse().unwrap();
    let rel = release_from_manifest(&v).unwrap();
    assert_eq!(rel.identity.tag_name, "v1.3.9");
    assert_eq!(rel.assets.len(), 1);
    let s: tinyjson::JsonValue = "\"just a string\"".parse().unwrap();
    assert_eq!(release_from_manifest(&s).unwrap_err(), ResolverError::Malformed);
}

#[test]
fn string_member_reads_strings_only() {
    let v: tinyjson::JsonValue = r#"{"a": "x\"y", "b": 3}"#.parse().unwrap();
    assert_eq!(json_string_member(&v, "a"), Some("x\"y".to_string()));
    assert_eq!(json_string_member(&v, "b"), None);
    assert_eq!(json_string_member(&v, "c"), None);
}

#[test]
fn nightly_reference_file() {
    let rel = parse_nightly_release("0123abcd\nrefs/heads/develop\n").unwrap();
    assert_eq!(rel.identity.tag_name, "0123abcd");
    assert_eq!(rel.identity.name, "refs/heads/develop");
    assert_eq!(rel.assets.len(), 1);
    assert_eq!(rel.assets[0].name, "dist.tar.gz");
    assert_eq!(rel.assets[0].browser_download_url, NIGHTLY_DOWNLOAD_URL);
}

#[test]
fn nightly_reference_file_line_endings() {
    let rel = parse_nightly_release("abc\r\nrefs/heads/develop\r\nextra").unwrap();
    assert_eq!(rel.identity.tag_name, "abc");
    assert_eq!(rel.identity.name, "refs/heads/develop");
    let rel = parse_nightly_release("abc\nlast\r").unwrap();
    assert_eq!(rel.identity.name, "last\r");
    let rel = parse_nightly_release("\n\n").unwrap();
    assert_eq!(rel.identity.tag_name, "");
    assert_eq!(rel.identity.name, "");
}

#[test]
fn nightly_reference_file_needs_two_lines() {
    assert_eq!(parse_nightly_release("").unwrap_err(), ResolverError::Malformed);
    assert_eq!(parse_nightly_release("abc").unwrap_err(), ResolverError::Malformed);
    assert_eq!(parse_nightly_release("abc\n").unwrap_err(), ResolverError::Malformed);
}

#[test]
fn identities_compare_exactly() {
    let a = ReleaseIdentity { tag_name: "v1".to_string(), name: "Name".to_string() };
    let b = ReleaseIdentity { tag_name: "v1".to_string(), name: "name".to_string() };
    assert!(a.same_as(&a.clone()));
    assert!(!a.same_as(&b));
}
