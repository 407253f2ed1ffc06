use moonlight_launcher::json::{nesting_within_limit, MAX_JSON_DEPTH};
use moonlight_launcher::record::read_cached;
use moonlight_launcher::release::{parse_stable_release, ResolverError};

fn nested(depth: usize) -> String {
    format!("{}{}", "[".repeat(depth), "]".repeat(depth))
}

#[test]
fn nesting_limit_counts_brackets_outside_strings() {
    assert!(nesting_within_limit(&nested(MAX_JSON_DEPTH)));
    assert!(!nesting_within_limit(&nested(MAX_JSON_DEPTH + 1)));
    assert!(!nesting_within_limit(&"[".repeat(MAX_JSON_DEPTH + 1)));
    let in_string = format!("[\"{}\"]", "[{".repeat(5 * MAX_JSON_DEPTH));
    assert!(nesting_within_limit(&in_string));
    let escaped_quote = format!("[\"\\\"{}\"]", "[".repeat(MAX_JSON_DEPTH + 1));
    assert!(nesting_within_limit(&escaped_quote));
    assert!(nesting_within_limit(&"]".repeat(10)));
    assert!(nesting_within_limit(""));
}

#[test]
fn deeply_nested_record_is_no_cached_version() {
    assert!(read_cached(&Some("[".repeat(100_000))).is_none());
    assert!(read_cached(&Some(nested(MAX_JSON_DEPTH))).is_none());
}

#[test]
fn deeply_nested_manifest_is_malformed() {
    let body = format!(
        "{{\"tag_name\": \"t\", \"name\": \"n\", \"assets\": [], \"x\": {}}}",
        "[".repeat(100_000)
    );
    assert_eq!(parse_stable_release(&body).unwrap_err(), ResolverError::Malformed);
    let ok = format!(
        "{{\"tag_name\": \"t\", \"name\": \"n\", \"assets\": [], \"x\": {}}}",
        nested(MAX_JSON_DEPTH - 1)
    );
    assert!(parse_stable_release(&ok).is_ok());
}
