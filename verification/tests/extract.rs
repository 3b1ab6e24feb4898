use link_guardian::html::extract_html_links;
use link_guardian::markdown::extract_markdown_links;

#[test]
fn test_extract_absolute_link() {
    let html = r#"<a href="https://www.rust-lang.org">Rust</a>"#;
    let links = extract_html_links(html, "https://example.com");
    assert_eq!(links, vec!["https://www.rust-lang.org/"]);
}

#[test]
fn html_test_resolve_relative_link() {
    let html = r#"<a href="/docs">Docs</a>"#;
    let links = extract_html_links(html, "https://example.com/page");
    assert_eq!(links, vec!["https://example.com/docs"]);
}

#[test]
fn html_test_skip_mailto() {
    let html = r#"<a href="mailto:test@example.com">Email</a>"#;
    let links = extract_html_links(html, "https://example.com");
    assert_eq!(links.len(), 0);
}

#[test]
fn test_multiple_links() {
    let html = r#"
        <a href="https://rust-lang.org">Rust</a>
        <a href="/docs">Docs</a>
        <a href="../about">About</a>
    "#;
    let links = extract_html_links(html, "https://example.com/page/");
    assert_eq!(links.len(), 3);
}

#[test]
fn html_invalid_base_yields_nothing() {
    let html = r#"<a href="https://www.rust-lang.org">Rust</a>"#;
    let links = extract_html_links(html, "not a url");
    assert_eq!(links.len(), 0);
}

#[test]
fn test_extract_simple_link() {
    let markdown = "Check out [Rust](https://www.rust-lang.org)!";
    let links = extract_markdown_links(markdown);
    assert_eq!(links, vec!["https://www.rust-lang.org"]);
}

#[test]
fn test_extract_multiple_links() {
    let markdown = r#"
# Resources

- [Rust](https://www.rust-lang.org)
- [Cargo](https://doc.rust-lang.org/cargo/)
- [Docs](https://doc.rust-lang.org/)
    "#;
    let links = extract_markdown_links(markdown);
    assert_eq!(links.len(), 3);
    assert!(links.contains(&"https://www.rust-lang.org".to_string()));
}

#[test]
fn test_skip_mailto_links() {
    let markdown = "Email me at [email](mailto:test@example.com)";
    let links = extract_markdown_links(markdown);
    assert_eq!(links.len(), 0);
}

#[test]
fn test_skip_relative_links() {
    let markdown = "See [docs](./docs/README.md)";
    let links = extract_markdown_links(markdown);
    assert_eq!(links.len(), 0);
}
