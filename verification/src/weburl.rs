//! Trusted boundary to the `url` crate: parsing a string as an absolute URL,
//! and resolving a reference against a base URL.
//!
//! What parsing returns is a pure function of the input string, so it is
//! given names here (`url_parses`, `url_norm`, `url_scheme`, `url_domain`,
//! `url_join_norm`); the wrappers state how the crate's results relate to
//! those names, together with the round-trip facts the crate documents: the
//! serialization of a URL parses back to the same serialization, with the
//! same scheme and domain, and it begins with the lower-cased scheme followed
//! by `':'`.

use crate::strutil::starts_with;
use url::Url;
use vstd::prelude::*;

verus! {

/// Whether `Url::parse` accepts `s` as an absolute URL.
pub uninterp spec fn url_parses(s: Seq<char>) -> bool;

/// The serialization (`Url::as_str`) of the URL parsed from `s`;
/// meaningful only when `url_parses(s)`.
pub uninterp spec fn url_norm(s: Seq<char>) -> Seq<char>;

/// The lower-cased scheme (`Url::scheme`) of the URL parsed from `s`,
/// without the `':'`; meaningful only when `url_parses(s)`.
pub uninterp spec fn url_scheme(s: Seq<char>) -> Seq<char>;

/// The domain (`Url::domain`) of the URL parsed from `s`: `None` when the
/// host is absent or an IP address; meaningful only when `url_parses(s)`.
pub uninterp spec fn url_domain(s: Seq<char>) -> Option<Seq<char>>;

/// The serialization of `Url::join(base, href)`: `None` when the join
/// fails; meaningful only when `url_parses(base)`.
pub uninterp spec fn url_join_norm(base: Seq<char>, href: Seq<char>) -> Option<Seq<char>>;

/// What one parsed URL yields in plain values: its serialization, scheme,
/// and domain.
pub struct UrlInfo {
    pub normalized: String,
    pub scheme: String,
    pub domain: Option<String>,
}

/// The view of an optional string.
pub open spec fn opt_view(o: Option<String>) -> Option<Seq<char>> {
    match o {
        Some(s) => Some(s@),
        None => None,
    }
}

/// Relies on `Url::parse`, `Url::as_str`, `Url::scheme` and `Url::domain` of
/// the `url` crate: parsing succeeds exactly on absolute URLs; `as_str` is
/// the stored serialization, which parses back to itself with the same
/// scheme and domain; the serialization begins with the lower-cased scheme
/// followed by `':'`.
#[verifier::external_body]
pub fn parse_url(s: &str) -> (r: Option<UrlInfo>)
    ensures
        r is Some <==> url_parses(s@),
        r matches Some(info) ==> {
            &&& info.normalized@ == url_norm(s@)
            &&& info.scheme@ == url_scheme(s@)
            &&& opt_view(info.domain) == url_domain(s@)
        },
        r is Some ==> url_parses(url_norm(s@)),
        r is Some ==> url_norm(url_norm(s@)) == url_norm(s@),
        r is Some ==> url_scheme(url_norm(s@)) == url_scheme(s@),
        r is Some ==> url_domain(url_norm(s@)) == url_domain(s@),
        r is Some ==> starts_with(url_norm(s@), url_scheme(s@).push(':')),
{
    match Url::parse(s) {
        Ok(u) => Some(
            UrlInfo {
                normalized: u.as_str().to_string(),
                scheme: u.scheme().to_string(),
                domain: u.domain().map(|d| d.to_string()),
            },
        ),
        Err(_) => None,
    }
}

/// Relies on `Url::parse` and `Url::join` of the `url` crate: `join` parses
/// `href` with `base` as the base URL; the result's serialization is itself
/// an absolute URL that parses back to itself and, carrying either an
/// explicit authority or an opaque path, never borrows from a base again —
/// so joining it against the same base returns it unchanged.
#[verifier::external_body]
pub fn join_url(base: &str, href: &str) -> (r: Option<String>)
    ensures
        url_parses(base@) ==> (r is Some <==> url_join_norm(base@, href@) is Some),
        !url_parses(base@) ==> r is None,
        r matches Some(u) ==> {
            &&& url_join_norm(base@, href@) == Some(u@)
            &&& url_parses(u@)
            &&& url_norm(u@) == u@
            &&& url_join_norm(base@, u@) == Some(u@)
        },
{
    match Url::parse(base) {
        Ok(b) => match b.join(href) {
            Ok(u) => Some(u.as_str().to_string()),
            Err(_) => None,
        },
        Err(_) => None,
    }
}

} // verus!
