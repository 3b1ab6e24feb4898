use link_guardian::crawl::{extract_same_domain_links, CrawlError, CrawlState};

#[test]
fn invalid_start_url_is_rejected() {
    match CrawlState::new("not a url", 2) {
        Err(CrawlError::InvalidStartUrl) => {},
        other => panic!("expected InvalidStartUrl, got {:?}", other.map(|_| ())),
    }
}

#[test]
fn start_url_without_domain_is_rejected() {
    match CrawlState::new("mailto:rms@example.net", 2) {
        Err(CrawlError::NoDomain) => {},
        other => panic!("expected NoDomain, got {:?}", other.map(|_| ())),
    }
}

#[test]
fn depth_one_crawls_only_the_seed() {
    let mut st = CrawlState::new("https://example.com/page", 1).unwrap();
    let first = st.next_to_fetch().expect("the seed is queued");
    assert_eq!(first, "https://example.com/page");
    // the page links elsewhere, but the depth limit stops every expansion
    st.record_success(r#"<a href="/docs">Docs</a>"#.to_string());
    assert!(st.next_to_fetch().is_none());
    assert_eq!(st.pages.len(), 1);
    assert_eq!(st.pages[0].0, "https://example.com/page");
}

#[test]
fn crawl_stays_on_the_seed_domain() {
    let mut st = CrawlState::new("https://example.com/page", 2).unwrap();

    let first = st.next_to_fetch().expect("the seed is queued");
    assert_eq!(first, "https://example.com/page");
    st.record_success(
        r#"<a href="/docs">Docs</a><a href="https://other.com">Other</a>"#.to_string(),
    );

    let second = st.next_to_fetch().expect("the docs page was discovered");
    assert_eq!(second, "https://example.com/docs");
    st.record_success("<p>done</p>".to_string());

    assert!(st.next_to_fetch().is_none());
    let urls: Vec<&str> = st.pages.iter().map(|p| p.0.as_str()).collect();
    assert_eq!(urls, vec!["https://example.com/page", "https://example.com/docs"]);
}

#[test]
fn visited_pages_are_not_fetched_twice() {
    let mut st = CrawlState::new("https://example.com/page", 3).unwrap();
    let first = st.next_to_fetch().unwrap();
    // the page links back to itself; the link is dropped as visited
    st.record_success(format!(r#"<a href="{}">self</a>"#, first));
    assert!(st.next_to_fetch().is_none());
    assert_eq!(st.pages.len(), 1);
}

#[test]
fn failed_fetches_are_skipped_and_the_crawl_goes_on() {
    let mut st = CrawlState::new("https://example.com/", 2).unwrap();
    st.next_to_fetch().unwrap();
    st.record_success(r#"<a href="/a">A</a><a href="/b">B</a>"#.to_string());
    let a = st.next_to_fetch().unwrap();
    assert_eq!(a, "https://example.com/a");
    st.record_failure();
    let b = st.next_to_fetch().unwrap();
    assert_eq!(b, "https://example.com/b");
    st.record_success("<p>b</p>".to_string());
    assert!(st.next_to_fetch().is_none());
    // the failed page is omitted from the results
    let urls: Vec<&str> = st.pages.iter().map(|p| p.0.as_str()).collect();
    assert_eq!(urls, vec!["https://example.com/", "https://example.com/b"]);
}

#[test]
fn same_domain_filter_drops_foreign_domains() {
    let html = r##"
        <a href="/keep">Keep</a>
        <a href="https://example.com/also">Also</a>
        <a href="https://other.com/drop">Drop</a>
        <a href="mailto:x@example.com">Mail</a>
        <a href="#frag">Frag</a>
    "##;
    let links = extract_same_domain_links(html, "https://example.com/page", "example.com");
    assert_eq!(
        links,
        vec!["https://example.com/keep", "https://example.com/also"],
    );
}

#[test]
fn breadth_first_order_is_kept() {
    let mut st = CrawlState::new("https://example.com/", 3).unwrap();
    st.next_to_fetch().unwrap();
    st.record_success(r#"<a href="/a">A</a><a href="/b">B</a>"#.to_string());
    // both depth-2 pages come before anything they link to
    let a = st.next_to_fetch().unwrap();
    st.record_success(r#"<a href="/a/deep">Deep</a>"#.to_string());
    let b = st.next_to_fetch().unwrap();
    st.record_success("<p>b</p>".to_string());
    let deep = st.next_to_fetch().unwrap();
    st.record_success("<p>deep</p>".to_string());
    assert_eq!(a, "https://example.com/a");
    assert_eq!(b, "https://example.com/b");
    assert_eq!(deep, "https://example.com/a/deep");
    assert!(st.next_to_fetch().is_none());
}
