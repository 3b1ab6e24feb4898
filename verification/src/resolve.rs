//! Resolution of `href` values found in documents against the URL of the
//! page that holds them, and the scheme filters that decide which resolved
//! URLs are worth checking.
//!
//! Resolution is idempotent: feeding a resolved web URL back through
//! resolution against the same base returns it unchanged. That law is part
//! of the contracts of `resolve_link` and `resolve_url` below.

use crate::strutil::{starts_with, str_starts_with};
use crate::weburl::{join_url, opt_view, parse_url, url_join_norm, url_norm, url_parses};
use vstd::prelude::*;

verus! {

/// Whether an `href` is a fragment or a non-web scheme that a crawler never
/// follows.
pub open spec fn skipped_href(href: Seq<char>) -> bool {
    ||| starts_with(href, "#"@)
    ||| starts_with(href, "mailto:"@)
    ||| starts_with(href, "tel:"@)
    ||| starts_with(href, "javascript:"@)
}

/// Only `http://` and `https://` URLs are worth a network check.
pub open spec fn checkable_spec(url: Seq<char>) -> bool {
    starts_with(url, "http://"@) || starts_with(url, "https://"@)
}

/// A URL that starts with a web scheme cannot also start with any of the
/// skipped prefixes: the first character already differs.
pub proof fn lemma_checkable_not_skipped(u: Seq<char>)
    requires
        checkable_spec(u),
    ensures
        !skipped_href(u),
{
    reveal_strlit("http://");
    reveal_strlit("https://");
    reveal_strlit("#");
    reveal_strlit("mailto:");
    reveal_strlit("tel:");
    reveal_strlit("javascript:");
    assert(u[0] == 'h') by {
        if starts_with(u, "http://"@) {
            assert(u.take(7)[0] == 'h');
        } else {
            assert(u.take(8)[0] == 'h');
        }
    }
    if starts_with(u, "#"@) {
        assert(u.take(1)[0] == '#');
    }
    if starts_with(u, "mailto:"@) {
        assert(u.take(7)[0] == 'm');
    }
    if starts_with(u, "tel:"@) {
        assert(u.take(4)[0] == 't');
    }
    if starts_with(u, "javascript:"@) {
        assert(u.take(11)[0] == 'j');
    }
}

/// What resolving an `href` against the URL of its page yields: nothing for
/// fragment-only and non-web targets, otherwise the serialization of the
/// joined URL.
pub open spec fn resolve_link_spec(base: Seq<char>, href: Seq<char>) -> Option<Seq<char>> {
    if skipped_href(href) {
        None
    } else if url_parses(base) {
        url_join_norm(base, href)
    } else {
        None
    }
}

/// Resolves a link found on the page `base` to an absolute URL, dropping
/// fragment-only, `mailto:`, `tel:` and `javascript:` targets, and anything
/// that does not resolve. Resolution of a resolved web URL is idempotent.
pub fn resolve_link(base: &str, href: &str) -> (r: Option<String>)
    ensures
        opt_view(r) == resolve_link_spec(base@, href@),
        skipped_href(href@) ==> r is None,
        r matches Some(u) ==> (checkable_spec(u@) ==> resolve_link_spec(base@, u@) == Some(u@)),
{
    if str_starts_with(href, "#") || str_starts_with(href, "mailto:") || str_starts_with(
        href,
        "tel:",
    ) || str_starts_with(href, "javascript:") {
        return None;
    }
    let r = join_url(base, href);
    proof {
        match &r {
            Some(u) => {
                if checkable_spec(u@) {
                    lemma_checkable_not_skipped(u@);
                }
            },
            None => {},
        }
    }
    r
}

/// What resolving an `href` yields when an absolute `href` is taken as it
/// stands (normalized) and only a relative one is joined with the base.
pub open spec fn resolve_url_spec(base: Seq<char>, href: Seq<char>) -> Option<Seq<char>> {
    if url_parses(href) {
        Some(url_norm(href))
    } else if url_parses(base) {
        url_join_norm(base, href)
    } else {
        None
    }
}

/// Resolves a possibly-relative `href`: an absolute one is normalized, a
/// relative one is joined with `base`. Resolution of a resolved URL is
/// idempotent: the second clause below feeds the result back in.
pub fn resolve_url(base: &str, href: &str) -> (r: Option<String>)
    ensures
        opt_view(r) == resolve_url_spec(base@, href@),
        r matches Some(u) ==> resolve_url_spec(base@, u@) == Some(u@),
{
    match parse_url(href) {
        Some(info) => Some(info.normalized),
        None => join_url(base, href),
    }
}

/// Whether a resolved URL should be checked: web schemes only.
pub fn is_checkable_link(url: &str) -> (r: bool)
    ensures
        r == checkable_spec(url@),
{
    str_starts_with(url, "http://") || str_starts_with(url, "https://")
}

/// Whether a raw link target is an `http://` or `https://` URL.
pub fn is_http_link(url: &str) -> (r: bool)
    ensures
        r == checkable_spec(url@),
{
    str_starts_with(url, "http://") || str_starts_with(url, "https://")
}

} // verus!
