use link_guardian::resolve::{is_checkable_link, is_http_link, resolve_link, resolve_url};

#[test]
fn test_resolve_absolute_link() {
    let result = resolve_link("https://example.com/page", "https://other.com");
    assert_eq!(result, Some("https://other.com/".to_string()));
}

#[test]
fn queue_test_resolve_relative_link() {
    let result = resolve_link("https://example.com/page", "/docs");
    assert_eq!(result, Some("https://example.com/docs".to_string()));
}

#[test]
fn test_skip_anchor() {
    let result = resolve_link("https://example.com/page", "#section");
    assert_eq!(result, None);
}

#[test]
fn queue_test_skip_mailto() {
    let result = resolve_link("https://example.com/page", "mailto:test@example.com");
    assert_eq!(result, None);
}

#[test]
fn resolve_skips_tel_and_javascript() {
    assert_eq!(resolve_link("https://example.com/page", "tel:+123456"), None);
    assert_eq!(resolve_link("https://example.com/page", "javascript:void(0)"), None);
}

#[test]
fn resolve_link_is_idempotent_on_web_urls() {
    let first = resolve_link("https://example.com/a/b", "../docs").unwrap();
    let second = resolve_link("https://example.com/a/b", first.as_str()).unwrap();
    assert_eq!(first, second);
}

#[test]
fn resolve_url_is_idempotent() {
    let first = resolve_url("https://example.com/a/b", "https://other.com/x?q=1").unwrap();
    let second = resolve_url("https://example.com/a/b", first.as_str()).unwrap();
    assert_eq!(first, second);
}

#[test]
fn checkable_links_are_web_schemes_only() {
    assert!(is_checkable_link("https://example.com/"));
    assert!(is_checkable_link("http://example.com/"));
    assert!(!is_checkable_link("ftp://example.com/"));
    assert!(!is_checkable_link("mailto:test@example.com"));
    assert!(is_http_link("https://www.rust-lang.org"));
    assert!(!is_http_link("./docs/README.md"));
}
