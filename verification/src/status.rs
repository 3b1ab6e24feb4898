//! The shared data model: the status of a checked link, the result record
//! that the verifier emits for every input URL, and the verifier's
//! configuration.

use vstd::prelude::*;
use vstd::string::StringExecFns;

verus! {

/// The outcome of checking one link.
#[derive(Debug, Clone)]
pub enum LinkStatus {
    /// The link answered with a success status code.
    Okay,
    /// The link redirects; carries the redirect target, or `"unknown"` when
    /// the response had no usable `Location` header.
    Redirect(String),
    /// The link is gone (404 or 410).
    Broken,
    /// The request timed out.
    Timeout,
    /// The transport reported a certificate or TLS failure.
    SslError,
    /// The transport gave up after too many redirects.
    TooManyRedirects,
    /// The host name could not be resolved.
    DnsError,
    /// Any other failure.
    Error,
}

/// The mathematical shape of a `LinkStatus`: the same variants, with the
/// redirect target as a sequence of characters.
pub enum LinkStatusView {
    Okay,
    Redirect(Seq<char>),
    Broken,
    Timeout,
    SslError,
    TooManyRedirects,
    DnsError,
    Error,
}

impl View for LinkStatus {
    type V = LinkStatusView;

    open spec fn view(&self) -> LinkStatusView {
        match self {
            LinkStatus::Okay => LinkStatusView::Okay,
            LinkStatus::Redirect(t) => LinkStatusView::Redirect(t@),
            LinkStatus::Broken => LinkStatusView::Broken,
            LinkStatus::Timeout => LinkStatusView::Timeout,
            LinkStatus::SslError => LinkStatusView::SslError,
            LinkStatus::TooManyRedirects => LinkStatusView::TooManyRedirects,
            LinkStatus::DnsError => LinkStatusView::DnsError,
            LinkStatus::Error => LinkStatusView::Error,
        }
    }
}

/// The result of checking a single URL: the URL itself, its status, and an
/// optional human-readable message.
#[derive(Debug, Clone)]
pub struct LinkCheckResult {
    pub url: String,
    pub status: LinkStatus,
    pub message: Option<String>,
}

impl LinkCheckResult {
    /// A link counts as alive when it answered successfully or redirects.
    pub fn is_ok(&self) -> (r: bool)
        ensures
            r == (self.status matches LinkStatus::Okay || self.status matches LinkStatus::Redirect(
                _,
            )),
    {
        match &self.status {
            LinkStatus::Okay => true,
            LinkStatus::Redirect(_) => true,
            _ => false,
        }
    }
}

/// The display label of each status, as a sequence of characters.
pub open spec fn format_status_spec(status: LinkStatus) -> Seq<char> {
    match status {
        LinkStatus::Okay => "OK"@,
        LinkStatus::Redirect(_) => "REDIRECT"@,
        LinkStatus::Broken => "BROKEN"@,
        LinkStatus::Timeout => "TIMEOUT"@,
        LinkStatus::SslError => "SSL ERROR"@,
        LinkStatus::TooManyRedirects => "TOO MANY REDIRECTS"@,
        LinkStatus::DnsError => "DNS ERROR"@,
        LinkStatus::Error => "ERROR"@,
    }
}

/// Renders a status as a short upper-case label for tabular output.
pub fn format_status(status: &LinkStatus) -> (r: String)
    ensures
        r@ == format_status_spec(*status),
{
    match status {
        LinkStatus::Okay => String::from_str("OK"),
        LinkStatus::Redirect(_) => String::from_str("REDIRECT"),
        LinkStatus::Broken => String::from_str("BROKEN"),
        LinkStatus::Timeout => String::from_str("TIMEOUT"),
        LinkStatus::SslError => String::from_str("SSL ERROR"),
        LinkStatus::TooManyRedirects => String::from_str("TOO MANY REDIRECTS"),
        LinkStatus::DnsError => String::from_str("DNS ERROR"),
        LinkStatus::Error => String::from_str("ERROR"),
    }
}

/// Configuration of one verification call: how many checks may run at once,
/// the per-request timeout, and how many redirects the transport may follow.
#[derive(Debug, Clone)]
pub struct VerifierConfig {
    pub concurrency_limit: usize,
    pub per_request_timeout_secs: u64,
    pub max_redirects: u32,
}

impl VerifierConfig {
    /// A configuration is usable only with room for at least one check.
    pub open spec fn wf(self) -> bool {
        self.concurrency_limit >= 1
    }
}

impl Default for VerifierConfig {
    /// The process-wide defaults: 50 concurrent checks, a 10 s timeout,
    /// at most 5 redirects followed.
    fn default() -> (r: Self)
        ensures
            r.concurrency_limit == 50,
            r.per_request_timeout_secs == 10,
            r.max_redirects == 5,
            r.wf(),
    {
        VerifierConfig { concurrency_limit: 50, per_request_timeout_secs: 10, max_redirects: 5 }
    }
}

} // verus!
