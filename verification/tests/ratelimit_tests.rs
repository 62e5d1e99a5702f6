//! The rate-limit key extractor: total, and empty for anything that is
//! not a well-formed bearer value.

use hookgate::ratelimit::extract_key;

#[test]
fn absent_header_gives_empty_key() {
    assert_eq!(extract_key(None), "");
}

#[test]
fn plain_bearer_value_is_extracted() {
    assert_eq!(extract_key(Some("Bearer tok-123")), "tok-123");
}

#[test]
fn surrounding_whitespace_is_trimmed() {
    assert_eq!(extract_key(Some("Bearer   tok-123\t ")), "tok-123");
}

#[test]
fn missing_prefix_gives_empty_key() {
    assert_eq!(extract_key(Some("tok-123")), "");
}

#[test]
fn lowercase_prefix_gives_empty_key() {
    assert_eq!(extract_key(Some("bearer tok-123")), "");
}

#[test]
fn other_scheme_gives_empty_key() {
    assert_eq!(extract_key(Some("Basic dXNlcjpwdw==")), "");
}

#[test]
fn bearer_with_only_whitespace_gives_empty_key() {
    assert_eq!(extract_key(Some("Bearer    ")), "");
}

#[test]
fn extraction_is_idempotent() {
    let key = extract_key(Some("Bearer  tok-9  "));
    let again = extract_key(Some(&format!("Bearer {}", key)));
    assert_eq!(again, key);
}

#[test]
fn non_ascii_token_is_kept() {
    assert_eq!(extract_key(Some("Bearer héllo")), "héllo");
}

#[test]
fn unicode_whitespace_is_trimmed() {
    assert_eq!(extract_key(Some("Bearer x\u{00A0}")), "x");
}

#[test]
fn unicode_space_does_not_satisfy_the_prefix() {
    assert_eq!(extract_key(Some("Bearer\u{00A0}x")), "");
}
