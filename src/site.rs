//! One build pass: every document becomes a page under the output root, and
//! the index page lists them all.
use vstd::prelude::*;
use crate::index::{index_page, index_page_of};
use crate::paths::{dest_of, destination_path, index_path, index_path_of};
use crate::template::{compose_page, page_of};

verus! {

/// A document found under the content root: its path and its raw text.
pub struct Document {
    pub path: String,
    pub text: String,
}

impl View for Document {
    type V = (Seq<char>, Seq<char>);

    open spec fn view(&self) -> (Seq<char>, Seq<char>) {
        (self.path@, self.text@)
    }
}

/// A file of the output tree: where it is written and what it holds.
pub struct Page {
    pub path: String,
    pub html: String,
}

impl View for Page {
    type V = (Seq<char>, Seq<char>);

    open spec fn view(&self) -> (Seq<char>, Seq<char>) {
        (self.path@, self.html@)
    }
}

/// The HTML fragment that the markdown renderer makes of `text`.
pub uninterp spec fn markdown_html(text: Seq<char>) -> Seq<char>;

/// Relies on pulldown_cmark::html::push_html, fed by pulldown_cmark::Parser::new_ext
/// with every extension on: the fragment depends on the text alone, and the
/// renderer never fails.
#[verifier::external_body]
fn markdown_to_html(text: &str) -> (r: String)
    ensures
        r@ == markdown_html(text@),
{
    let parser = pulldown_cmark::Parser::new_ext(text, pulldown_cmark::Options::all());
    let mut html = String::new();
    pulldown_cmark::html::push_html(&mut html, parser);
    html
}

/// The page made of a document whose text is `text`.
pub open spec fn page_html_of(text: Seq<char>) -> Seq<char> {
    page_of(markdown_html(text))
}

/// The views of `docs`.
pub open spec fn docs_view(docs: Seq<Document>) -> Seq<(Seq<char>, Seq<char>)> {
    docs.map_values(|d: Document| d@)
}

/// The views of `pages`.
pub open spec fn pages_view(pages: Seq<Page>) -> Seq<(Seq<char>, Seq<char>)> {
    pages.map_values(|p: Page| p@)
}

/// The destinations of `docs`, in order: the build manifest.
pub open spec fn dests_of(
    docs: Seq<(Seq<char>, Seq<char>)>,
    content: Seq<char>,
    output: Seq<char>,
) -> Seq<Seq<char>> {
    docs.map_values(|d: (Seq<char>, Seq<char>)| dest_of(d.0, content, output))
}

/// The page of each document, in order.
pub open spec fn doc_pages_of(
    docs: Seq<(Seq<char>, Seq<char>)>,
    content: Seq<char>,
    output: Seq<char>,
) -> Seq<(Seq<char>, Seq<char>)> {
    docs.map_values(|d: (Seq<char>, Seq<char>)| (dest_of(d.0, content, output), page_html_of(d.1)))
}

/// The files that a build of `docs` writes, in the order written: each
/// document's page, then the index page.
pub open spec fn site_of(
    content: Seq<char>,
    output: Seq<char>,
    docs: Seq<(Seq<char>, Seq<char>)>,
) -> Seq<(Seq<char>, Seq<char>)> {
    doc_pages_of(docs, content, output).push(
        (index_path_of(output), index_page_of(dests_of(docs, content, output), output)),
    )
}

/// Renders the markdown `text` and wraps the fragment in the page shell.
pub fn render_page(text: &str) -> (r: String)
    ensures
        r@ == page_html_of(text@),
{
    let body = markdown_to_html(text);
    compose_page(body.as_str())
}

/// Builds the site: for each document, in the given order, its page at the
/// mirrored destination; after them, the index page linking to all of them.
pub fn build_site(content_root: &str, output_root: &str, documents: &Vec<Document>) -> (r: Vec<Page>)
    ensures
        pages_view(r@) == site_of(content_root@, output_root@, docs_view(documents@)),
{
    let ghost c = content_root@;
    let ghost o = output_root@;
    let ghost docs = docs_view(documents@);
    let mut pages: Vec<Page> = Vec::new();
    let mut manifest: Vec<String> = Vec::new();
    let mut i: usize = 0;
    while i < documents.len()
        invariant
            i <= documents.len(),
            c == content_root@,
            o == output_root@,
            docs == docs_view(documents@),
            pages_view(pages@) == doc_pages_of(docs.take(i as int), c, o),
            manifest.deep_view() == dests_of(docs.take(i as int), c, o),
        decreases documents.len() - i,
    {
        let doc = &documents[i];
        let dest = destination_path(doc.path.as_str(), content_root, output_root);
        let html = render_page(doc.text.as_str());
        let ghost before = pages_view(pages@);
        let ghost listed = manifest.deep_view();
        manifest.push(dest.clone());
        pages.push(Page { path: dest, html });
        proof {
            assert(docs.take(i + 1).drop_last() =~= docs.take(i as int));
            assert(docs[i as int] == doc@);
            assert(pages_view(pages@) =~= before.push((dest_of(doc.path@, c, o), page_html_of(doc.text@))));
            assert(pages_view(pages@) =~= doc_pages_of(docs.take(i + 1), c, o));
            assert(manifest.deep_view() =~= listed.push(dest_of(doc.path@, c, o)));
            assert(manifest.deep_view() =~= dests_of(docs.take(i + 1), c, o));
        }
        i = i + 1;
    }
    proof {
        assert(docs.take(i as int) =~= docs);
    }
    let index = index_page(&manifest, output_root);
    let ghost before = pages_view(pages@);
    pages.push(Page { path: index_path(output_root), html: index });
    assert(pages_view(pages@) =~= before.push((index_path_of(o), index_page_of(dests_of(docs, c, o), o))));
    pages
}

} // verus!
