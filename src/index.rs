//! The index page: one link per page of the site, in build order.
use vstd::prelude::*;
use vstd::string::StringExecFns;
use crate::paths::PAGE_EXT;
use crate::template::{compose_page, page_of};
use crate::text::{drop_prefix, drop_suffix, strip_prefix, strip_suffix};

verus! {

/// What stands between two links of the index.
pub const LINK_SEP: &'static str = "<br />\n";

/// The href of the page at `page`: its path relative to the output root `output`.
pub open spec fn href_of(page: Seq<char>, output: Seq<char>) -> Seq<char> {
    drop_prefix(page, output)
}

/// The link text of the page whose href is `href`: without the leading
/// separator and without the page extension.
pub open spec fn title_of(href: Seq<char>) -> Seq<char> {
    drop_suffix(drop_prefix(href, "/"@), PAGE_EXT@)
}

/// The anchor that links to the page at `page`.
pub open spec fn link_of(page: Seq<char>, output: Seq<char>) -> Seq<char> {
    "<a href=\""@ + href_of(page, output) + "\">"@ + title_of(href_of(page, output)) + "</a>"@
}

/// The anchors of `pages`, one for each, in order.
pub open spec fn links_of(pages: Seq<Seq<char>>, output: Seq<char>) -> Seq<Seq<char>> {
    pages.map_values(|p: Seq<char>| link_of(p, output))
}

/// The items of `parts` one after another, with `sep` between each two.
pub open spec fn joined(parts: Seq<Seq<char>>, sep: Seq<char>) -> Seq<char>
    decreases parts.len(),
{
    if parts.len() == 0 {
        Seq::empty()
    } else if parts.len() == 1 {
        parts[0]
    } else {
        joined(parts.drop_last(), sep) + sep + parts.last()
    }
}

/// The body of the index page for `pages`.
pub open spec fn index_body_of(pages: Seq<Seq<char>>, output: Seq<char>) -> Seq<char> {
    joined(links_of(pages, output), LINK_SEP@)
}

/// The index page for `pages`.
pub open spec fn index_page_of(pages: Seq<Seq<char>>, output: Seq<char>) -> Seq<char> {
    page_of(index_body_of(pages, output))
}

/// The anchor that links to the page at `page` under `output_root`.
pub fn index_link(page: &str, output_root: &str) -> (r: String)
    ensures
        r@ == link_of(page@, output_root@),
{
    let href = strip_prefix(page, output_root);
    let bare = strip_prefix(href.as_str(), "/");
    let title = strip_suffix(bare.as_str(), PAGE_EXT);
    let mut s = String::from_str("<a href=\"");
    s.append(href.as_str());
    s.append("\">");
    s.append(title.as_str());
    s.append("</a>");
    s
}

/// The body of the index page: the links to `pages`, in order, with a line break between each two.
pub fn index_body(pages: &Vec<String>, output_root: &str) -> (r: String)
    ensures
        r@ == index_body_of(pages.deep_view(), output_root@),
{
    let ghost o = output_root@;
    let mut s = String::new();
    let mut i: usize = 0;
    while i < pages.len()
        invariant
            i <= pages.len(),
            o == output_root@,
            s@ == joined(links_of(pages.deep_view().take(i as int), o), LINK_SEP@),
        decreases pages.len() - i,
    {
        let ghost prev = links_of(pages.deep_view().take(i as int), o);
        let link = index_link(pages[i].as_str(), output_root);
        let ghost next = links_of(pages.deep_view().take(i + 1), o);
        assert(next.drop_last() =~= prev);
        assert(next.last() == link@);
        if i > 0 {
            s.append(LINK_SEP);
        } else {
            assert(next =~= seq![link@]);
        }
        s.append(link.as_str());
        i = i + 1;
    }
    assert(pages.deep_view().take(i as int) =~= pages.deep_view());
    s
}

/// The index page of the site whose pages are `pages`, in build order.
pub fn index_page(pages: &Vec<String>, output_root: &str) -> (r: String)
    ensures
        r@ == index_page_of(pages.deep_view(), output_root@),
{
    let body = index_body(pages, output_root);
    compose_page(body.as_str())
}

} // verus!
