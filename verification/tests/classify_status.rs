use link_guardian::classify::{classify_outcome, ProbeOutcome};
use link_guardian::status::{
    format_status, LinkCheckResult, LinkStatus, VerifierConfig,
};

fn response(status: u16, location: Option<&str>) -> ProbeOutcome {
    ProbeOutcome::Response { status, location: location.map(|s| s.to_string()) }
}

#[test]
fn status_200_is_ok() {
    let r = classify_outcome("https://x".to_string(), response(200, None));
    assert!(matches!(r.status, LinkStatus::Okay));
    assert_eq!(r.message.as_deref(), Some("HTTP 200"));
}

#[test]
fn status_301_is_redirect_with_location() {
    let r = classify_outcome("https://a".to_string(), response(301, Some("https://x")));
    match &r.status {
        LinkStatus::Redirect(target) => assert_eq!(target, "https://x"),
        other => panic!("expected a redirect, got {:?}", other),
    }
    assert_eq!(r.message.as_deref(), Some("HTTP 301 -> https://x"));
}

#[test]
fn status_302_without_location_is_redirect_unknown() {
    let r = classify_outcome("https://a".to_string(), response(302, None));
    match &r.status {
        LinkStatus::Redirect(target) => assert_eq!(target, "unknown"),
        other => panic!("expected a redirect, got {:?}", other),
    }
}

#[test]
fn status_404_and_410_are_broken() {
    let r = classify_outcome("https://a".to_string(), response(404, None));
    assert!(matches!(r.status, LinkStatus::Broken));
    let r = classify_outcome("https://a".to_string(), response(410, None));
    assert!(matches!(r.status, LinkStatus::Broken));
}

#[test]
fn status_503_is_error() {
    let r = classify_outcome("https://a".to_string(), response(503, None));
    assert!(matches!(r.status, LinkStatus::Error));
    assert_eq!(r.message.as_deref(), Some("HTTP 503"));
}

fn failure(timeout: bool, redirect_loop: bool, connect: bool, description: &str) -> ProbeOutcome {
    ProbeOutcome::Failure {
        timeout,
        redirect_loop,
        connect,
        description: description.to_string(),
    }
}

#[test]
fn timeout_flag_wins() {
    let r = classify_outcome("https://a".to_string(), failure(true, true, true, "dns ssl"));
    assert!(matches!(r.status, LinkStatus::Timeout));
    assert_eq!(r.message.as_deref(), Some("Request timed out"));
}

#[test]
fn redirect_loop_flag_is_too_many_redirects() {
    let r = classify_outcome("https://a".to_string(), failure(false, true, false, ""));
    assert!(matches!(r.status, LinkStatus::TooManyRedirects));
}

#[test]
fn connect_failure_with_dns_marker_is_dns_error() {
    let r = classify_outcome(
        "https://a".to_string(),
        failure(false, false, true, "error trying to connect: dns error"),
    );
    assert!(matches!(r.status, LinkStatus::DnsError));
    assert_eq!(r.message.as_deref(), Some("Could not resolve hostname"));
}

#[test]
fn connect_failure_without_dns_marker_is_error() {
    let r = classify_outcome(
        "https://a".to_string(),
        failure(false, false, true, "connection refused"),
    );
    assert!(matches!(r.status, LinkStatus::Error));
    assert_eq!(r.message.as_deref(), Some("Connection failed"));
}

#[test]
fn certificate_marker_is_ssl_error() {
    let r = classify_outcome(
        "https://a".to_string(),
        failure(false, false, false, "invalid peer certificate"),
    );
    assert!(matches!(r.status, LinkStatus::SslError));
    let r = classify_outcome("https://a".to_string(), failure(false, false, false, "bad ssl"));
    assert!(matches!(r.status, LinkStatus::SslError));
}

#[test]
fn other_failure_keeps_its_description() {
    let r = classify_outcome(
        "https://a".to_string(),
        failure(false, false, false, "something odd"),
    );
    assert!(matches!(r.status, LinkStatus::Error));
    assert_eq!(r.message.as_deref(), Some("something odd"));
}

#[test]
fn test_link_result_is_ok() {
    let ok_result = LinkCheckResult {
        url: "https://example.com".to_string(),
        status: LinkStatus::Okay,
        message: None,
    };
    assert!(ok_result.is_ok());

    let broken_result = LinkCheckResult {
        url: "https://example.com".to_string(),
        status: LinkStatus::Broken,
        message: None,
    };
    assert!(!broken_result.is_ok());
}

#[test]
fn redirect_counts_as_ok() {
    let r = LinkCheckResult {
        url: "https://example.com".to_string(),
        status: LinkStatus::Redirect("https://x".to_string()),
        message: None,
    };
    assert!(r.is_ok());
}

#[test]
fn status_labels() {
    assert_eq!(format_status(&LinkStatus::Okay), "OK");
    assert_eq!(format_status(&LinkStatus::Redirect("t".to_string())), "REDIRECT");
    assert_eq!(format_status(&LinkStatus::Broken), "BROKEN");
    assert_eq!(format_status(&LinkStatus::Timeout), "TIMEOUT");
    assert_eq!(format_status(&LinkStatus::SslError), "SSL ERROR");
    assert_eq!(format_status(&LinkStatus::TooManyRedirects), "TOO MANY REDIRECTS");
    assert_eq!(format_status(&LinkStatus::DnsError), "DNS ERROR");
    assert_eq!(format_status(&LinkStatus::Error), "ERROR");
}

#[test]
fn default_verifier_config() {
    let c = VerifierConfig::default();
    assert_eq!(c.concurrency_limit, 50);
    assert_eq!(c.per_request_timeout_secs, 10);
    assert_eq!(c.max_redirects, 5);
}
