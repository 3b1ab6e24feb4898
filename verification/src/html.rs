//! Link extraction from HTML pages: the `scraper` crate reads the raw
//! `href` values out of the document, and verified code resolves each one
//! against the page's URL and keeps the checkable web URLs.

use crate::resolve::{checkable_spec, is_checkable_link, resolve_url, resolve_url_spec};
use crate::strutil::str_views;
use crate::weburl::{parse_url, url_parses};
use scraper::{Html, Selector};
use vstd::prelude::*;

verus! {

/// The `href` attribute values of the `<a>` elements of an HTML document,
/// in document order: a pure function of the document text.
pub uninterp spec fn html_href_list(html: Seq<char>) -> Seq<Seq<char>>;

/// Relies on `Html::parse_document`, `Html::select` with the selector
/// `a[href]`, and `ElementRef::attr` of the `scraper` crate: together they
/// list the `href` values of the document's anchor elements, a function of
/// the document text alone.
#[verifier::external_body]
pub(crate) fn html_hrefs(html: &str) -> (r: Vec<String>)
    ensures
        str_views(r@) == html_href_list(html@),
{
    let document = Html::parse_document(html);
    let selector = Selector::parse("a[href]").unwrap();
    let mut out = Vec::new();
    for element in document.select(&selector) {
        if let Some(href) = element.value().attr("href") {
            out.push(href.to_string());
        }
    }
    out
}

/// The checkable absolute URLs that a list of `href`s yields against a base
/// URL: each `href` resolved, keeping those that resolved to a web URL.
pub open spec fn extract_links_spec(hrefs: Seq<Seq<char>>, base: Seq<char>) -> Seq<Seq<char>>
    decreases hrefs.len(),
{
    if hrefs.len() == 0 {
        Seq::empty()
    } else {
        let rest = extract_links_spec(hrefs.drop_last(), base);
        match resolve_url_spec(base, hrefs.last()) {
            Some(u) => if checkable_spec(u) {
                rest.push(u)
            } else {
                rest
            },
            None => rest,
        }
    }
}

/// What extracting from a whole document yields: nothing when the page's own
/// URL does not parse, otherwise each `href` resolved and filtered.
pub open spec fn extract_html_links_spec(html: Seq<char>, base: Seq<char>) -> Seq<Seq<char>> {
    if url_parses(base) {
        extract_links_spec(html_href_list(html), base)
    } else {
        Seq::empty()
    }
}

/// Extracts every checkable link of an HTML page: each `href` of an anchor
/// element, resolved against `base_url`, keeping `http`/`https` URLs.
/// An unparseable `base_url` yields no links.
pub fn extract_html_links(html: &str, base_url: &str) -> (r: Vec<String>)
    ensures
        str_views(r@) == extract_html_links_spec(html@, base_url@),
{
    let mut links: Vec<String> = Vec::new();
    if parse_url(base_url).is_none() {
        proof {
            assert(str_views(links@) =~= Seq::<Seq<char>>::empty());
        }
        return links;
    }
    let hrefs = html_hrefs(html);
    let n = hrefs.len();
    let mut i: usize = 0;
    while i < n
        invariant
            n == hrefs@.len(),
            i <= n,
            url_parses(base_url@),
            str_views(links@) == extract_links_spec(str_views(hrefs@).take(i as int), base_url@),
        decreases n - i,
    {
        let ghost prev = str_views(links@);
        match resolve_url(base_url, hrefs[i].as_str()) {
            Some(u) => {
                if is_checkable_link(u.as_str()) {
                    let ghost uv = u@;
                    links.push(u);
                    proof {
                        assert(str_views(links@) =~= prev.push(uv));
                    }
                }
            },
            None => {},
        }
        proof {
            let hs = str_views(hrefs@);
            assert(hs.take(i + 1).drop_last() =~= hs.take(i as int));
            assert(hs.take(i + 1).last() == hs[i as int]);
        }
        i += 1;
    }
    proof {
        assert(str_views(hrefs@).take(n as int) =~= str_views(hrefs@));
    }
    links
}

} // verus!
