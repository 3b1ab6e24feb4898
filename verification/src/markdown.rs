//! Link extraction from Markdown text: the `pulldown-cmark` crate reads the
//! link destinations out of the document, and verified code keeps the
//! absolute `http`/`https` URLs.

use crate::resolve::{checkable_spec, is_http_link};
use crate::strutil::str_views;
use pulldown_cmark::{Event, Parser, Tag};
use vstd::prelude::*;

verus! {

/// The destination URLs of the links of a Markdown document, in document
/// order: a pure function of the document text.
pub uninterp spec fn md_link_dests(md: Seq<char>) -> Seq<Seq<char>>;

/// Relies on `Parser::new` of the `pulldown-cmark` crate and its
/// `Event::Start(Tag::Link(..))` events: their destination fields list the
/// link destinations of the document, a function of the document text alone.
#[verifier::external_body]
fn markdown_link_destinations(md: &str) -> (r: Vec<String>)
    ensures
        str_views(r@) == md_link_dests(md@),
{
    let mut out = Vec::new();
    for event in Parser::new(md) {
        if let Event::Start(Tag::Link(_, dest, _)) = event {
            out.push(dest.to_string());
        }
    }
    out
}

/// The `http`/`https` destinations among a list of link destinations.
pub open spec fn http_links_spec(dests: Seq<Seq<char>>) -> Seq<Seq<char>>
    decreases dests.len(),
{
    if dests.len() == 0 {
        Seq::empty()
    } else {
        let rest = http_links_spec(dests.drop_last());
        if checkable_spec(dests.last()) {
            rest.push(dests.last())
        } else {
            rest
        }
    }
}

/// Extracts every absolute `http`/`https` link destination of a Markdown
/// document; `mailto:`, `tel:`, relative and other non-web destinations are
/// dropped.
pub fn extract_markdown_links(markdown: &str) -> (r: Vec<String>)
    ensures
        str_views(r@) == http_links_spec(md_link_dests(markdown@)),
{
    let mut links: Vec<String> = Vec::new();
    proof {
        assert(str_views(links@) =~= Seq::<Seq<char>>::empty());
    }
    let dests = markdown_link_destinations(markdown);
    let n = dests.len();
    let mut i: usize = 0;
    while i < n
        invariant
            n == dests@.len(),
            i <= n,
            str_views(links@) == http_links_spec(str_views(dests@).take(i as int)),
        decreases n - i,
    {
        let ghost prev = str_views(links@);
        if is_http_link(dests[i].as_str()) {
            let ghost dv = dests@[i as int]@;
            let d = dests[i].clone();
            links.push(d);
            proof {
                assert(str_views(links@) =~= prev.push(dv));
            }
        }
        proof {
            let ds = str_views(dests@);
            assert(ds.take(i + 1).drop_last() =~= ds.take(i as int));
            assert(ds.take(i + 1).last() == ds[i as int]);
        }
        i += 1;
    }
    proof {
        assert(str_views(dests@).take(n as int) =~= str_views(dests@));
    }
    links
}

} // verus!
