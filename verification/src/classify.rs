//! The link classifier: a pure mapping from a raw transport outcome — a
//! completed response, or a transport-level failure — to a `LinkStatus` and
//! a human-readable message. The DNS and TLS cases rest on substring
//! heuristics over the transport's free-text description, isolated here so
//! they can be swapped for structured error categories.

use crate::status::{LinkCheckResult, LinkStatus, LinkStatusView};
use crate::strutil::{contains_seq, dec_rep, str_contains, u16_to_dec};
use crate::weburl::opt_view;
use vstd::prelude::*;
use vstd::string::StringExecFns;

verus! {

/// A raw transport outcome for one URL: either a completed response (its
/// status code and optional `Location` header) or a transport-level failure
/// (its category flags and free-text description).
pub enum ProbeOutcome {
    Response { status: u16, location: Option<String> },
    Failure { timeout: bool, redirect_loop: bool, connect: bool, description: String },
}

/// The status a completed response classifies to: 2xx is alive, 3xx is a
/// redirect carrying the `Location` value (or `"unknown"`), 404 and 410 are
/// broken, anything else is an error.
pub open spec fn classify_response_spec(status: int, location: Option<Seq<char>>) -> LinkStatusView {
    if 200 <= status < 300 {
        LinkStatusView::Okay
    } else if 300 <= status < 400 {
        match location {
            Some(l) => LinkStatusView::Redirect(l),
            None => LinkStatusView::Redirect("unknown"@),
        }
    } else if status == 404 || status == 410 {
        LinkStatusView::Broken
    } else {
        LinkStatusView::Error
    }
}

/// The status a transport failure classifies to, in priority order: the
/// timeout flag, then the redirect-loop flag, then a connect failure (a DNS
/// marker in the description distinguishes resolution failures), then a
/// certificate or TLS marker, then a plain error.
pub open spec fn classify_failure_spec(
    timeout: bool,
    redirect_loop: bool,
    connect: bool,
    description: Seq<char>,
) -> LinkStatusView {
    if timeout {
        LinkStatusView::Timeout
    } else if redirect_loop {
        LinkStatusView::TooManyRedirects
    } else if connect {
        if contains_seq(description, "dns"@) {
            LinkStatusView::DnsError
        } else {
            LinkStatusView::Error
        }
    } else if contains_seq(description, "certificate"@) || contains_seq(description, "ssl"@) {
        LinkStatusView::SslError
    } else {
        LinkStatusView::Error
    }
}

/// The status any transport outcome classifies to.
pub open spec fn classify_outcome_spec(outcome: ProbeOutcome) -> LinkStatusView {
    match outcome {
        ProbeOutcome::Response { status, location } => classify_response_spec(
            status as int,
            opt_view(location),
        ),
        ProbeOutcome::Failure { timeout, redirect_loop, connect, description } => classify_failure_spec(
            timeout,
            redirect_loop,
            connect,
            description@,
        ),
    }
}

/// The message that accompanies each classification.
pub open spec fn outcome_message_spec(outcome: ProbeOutcome) -> Seq<char> {
    match outcome {
        ProbeOutcome::Response { status, location } => {
            if 300 <= status < 400 {
                let target = match opt_view(location) {
                    Some(l) => l,
                    None => "unknown"@,
                };
                "HTTP "@ + dec_rep(status as nat) + " -> "@ + target
            } else {
                "HTTP "@ + dec_rep(status as nat)
            }
        },
        ProbeOutcome::Failure { timeout, redirect_loop, connect, description } => {
            if timeout {
                "Request timed out"@
            } else if redirect_loop {
                "Too many redirects"@
            } else if connect {
                if contains_seq(description@, "dns"@) {
                    "Could not resolve hostname"@
                } else {
                    "Connection failed"@
                }
            } else if contains_seq(description@, "certificate"@) || contains_seq(
                description@,
                "ssl"@,
            ) {
                "SSL certificate error"@
            } else {
                description@
            }
        },
    }
}

/// `"HTTP "` followed by the decimal status code.
fn http_code_message(status: u16) -> (r: String)
    ensures
        r@ == "HTTP "@ + dec_rep(status as nat),
{
    let mut s = String::from_str("HTTP ");
    let d = u16_to_dec(status);
    s.append(d.as_str());
    s
}

/// Classifies one transport outcome into the result record for `url`:
/// the status follows `classify_outcome_spec`, and the message follows
/// `outcome_message_spec`. Every outcome yields a result; classification
/// cannot fail.
pub fn classify_outcome(url: String, outcome: ProbeOutcome) -> (r: LinkCheckResult)
    ensures
        r.url@ == url@,
        r.status@ == classify_outcome_spec(outcome),
        r.message is Some,
        r.message matches Some(m) ==> m@ == outcome_message_spec(outcome),
{
    match outcome {
        ProbeOutcome::Response { status, location } => {
            if 200 <= status && status < 300 {
                LinkCheckResult {
                    url,
                    status: LinkStatus::Okay,
                    message: Some(http_code_message(status)),
                }
            } else if 300 <= status && status < 400 {
                let target = match location {
                    Some(l) => l,
                    None => String::from_str("unknown"),
                };
                let mut m = http_code_message(status);
                m.append(" -> ");
                m.append(target.as_str());
                LinkCheckResult { url, status: LinkStatus::Redirect(target), message: Some(m) }
            } else if status == 404 || status == 410 {
                LinkCheckResult {
                    url,
                    status: LinkStatus::Broken,
                    message: Some(http_code_message(status)),
                }
            } else {
                LinkCheckResult {
                    url,
                    status: LinkStatus::Error,
                    message: Some(http_code_message(status)),
                }
            }
        },
        ProbeOutcome::Failure { timeout, redirect_loop, connect, description } => {
            if timeout {
                LinkCheckResult {
                    url,
                    status: LinkStatus::Timeout,
                    message: Some(String::from_str("Request timed out")),
                }
            } else if redirect_loop {
                LinkCheckResult {
                    url,
                    status: LinkStatus::TooManyRedirects,
                    message: Some(String::from_str("Too many redirects")),
                }
            } else if connect {
                if str_contains(description.as_str(), "dns") {
                    LinkCheckResult {
                        url,
                        status: LinkStatus::DnsError,
                        message: Some(String::from_str("Could not resolve hostname")),
                    }
                } else {
                    LinkCheckResult {
                        url,
                        status: LinkStatus::Error,
                        message: Some(String::from_str("Connection failed")),
                    }
                }
            } else if str_contains(description.as_str(), "certificate") || str_contains(
                description.as_str(),
                "ssl",
            ) {
                LinkCheckResult {
                    url,
                    status: LinkStatus::SslError,
                    message: Some(String::from_str("SSL certificate error")),
                }
            } else {
                LinkCheckResult { url, status: LinkStatus::Error, message: Some(description) }
            }
        },
    }
}

} // verus!
