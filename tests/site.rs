use static_generator::index::{index_body, index_link, index_page};
use static_generator::paths::{destination_path, index_path, is_document, join_path, select_documents};
use static_generator::site::{build_site, render_page, Document, Page};
use static_generator::template::{compose_page, render_body, FOOTER, HEADER};
use static_generator::text::{ends_with, starts_with, strip_prefix, strip_suffix};
use static_generator::watch::{step, WorkerAction, WorkerEvent, WorkerState};

fn doc(path: &str, text: &str) -> Document {
    Document { path: path.to_string(), text: text.to_string() }
}

fn find<'a>(pages: &'a [Page], path: &str) -> Option<&'a Page> {
    pages.iter().find(|p| p.path == path)
}

fn shell(body: &str) -> String {
    format!("{}{}{}", HEADER, render_body(body), FOOTER)
}

#[test]
fn render_body_wraps_fragment() {
    let r = render_body("<p>x</p>");
    assert!(r.starts_with("  <body>\n    <header>"));
    assert!(r.contains("<a href=\"/\">Home</a>\n        <br />\n        <p>x</p>\n      </section>"));
    assert!(r.ends_with("  </body>"));
}

#[test]
fn compose_page_adds_header_and_footer() {
    let r = compose_page("hello");
    assert!(r.starts_with("<!DOCTYPE html>\n<html lang=\"en\">"));
    assert!(r.ends_with("\n\n</html>\n"));
    assert_eq!(r, shell("hello"));
}

#[test]
fn render_page_renders_markdown() {
    let r = render_page("# Hi");
    assert!(r.contains("<h1>Hi</h1>"));
    assert!(!r.contains("# Hi"));
    assert_eq!(r, shell("<h1>Hi</h1>\n"));
}

#[test]
fn render_page_never_fails_on_malformed_text() {
    let r = render_page("*[unclosed `code");
    assert!(r.starts_with(HEADER));
    assert!(r.ends_with(FOOTER));
}

#[test]
fn text_prefix_and_suffix() {
    assert!(starts_with("content/a.md", "content"));
    assert!(!starts_with("cont", "content"));
    assert!(ends_with("a.md", ".md"));
    assert!(!ends_with("a.mdx", ".md"));
    assert!(ends_with("", ""));
    assert_eq!(strip_prefix("public/a.html", "public"), "/a.html");
    assert_eq!(strip_prefix("other/a.html", "public"), "other/a.html");
    assert_eq!(strip_suffix("a.html", ".html"), "a");
    assert_eq!(strip_suffix("a.htm", ".html"), "a.htm");
    assert_eq!(strip_prefix("żółw/ą", "żółw"), "/ą");
}

#[test]
fn documents_are_md_files() {
    assert!(is_document("content/a.md"));
    assert!(!is_document("content/a.txt"));
    assert!(!is_document("content/sub"));
    assert!(!is_document("content/a.md.bak"));
}

#[test]
fn select_documents_keeps_scan_order() {
    let paths = vec![
        "content".to_string(),
        "content/z.md".to_string(),
        "content/img.png".to_string(),
        "content/sub".to_string(),
        "content/sub/a.md".to_string(),
        "content/notes.txt".to_string(),
    ];
    let docs = select_documents(&paths);
    assert_eq!(docs, vec!["content/z.md".to_string(), "content/sub/a.md".to_string()]);
    assert!(select_documents(&Vec::new()).is_empty());
}

#[test]
fn destination_mirrors_content_tree() {
    assert_eq!(destination_path("content/a.md", "content", "public"), "public/a.html");
    assert_eq!(destination_path("content/sub/b.md", "content", "public"), "public/sub/b.html");
    assert_eq!(destination_path("content/a.md.md", "content", "out"), "out/a.md.html");
    assert_eq!(destination_path("elsewhere/a.md", "content", "public"), "elsewhere/a.html");
}

#[test]
fn index_path_joins_output_root() {
    assert_eq!(index_path("public"), "public/index.html");
    assert_eq!(index_path("public/"), "public/index.html");
    assert_eq!(index_path(""), "index.html");
    assert_eq!(join_path("a/b", "c"), "a/b/c");
}

#[test]
fn index_link_has_href_and_title() {
    assert_eq!(index_link("public/a.html", "public"), "<a href=\"/a.html\">a</a>");
    assert_eq!(index_link("public/sub/b.html", "public"), "<a href=\"/sub/b.html\">sub/b</a>");
}

#[test]
fn index_body_joins_with_line_breaks() {
    let pages = vec!["public/b.html".to_string(), "public/a.html".to_string()];
    assert_eq!(
        index_body(&pages, "public"),
        "<a href=\"/b.html\">b</a><br />\n<a href=\"/a.html\">a</a>"
    );
    assert_eq!(index_body(&Vec::new(), "public"), "");
    assert_eq!(index_page(&pages, "public"), shell(&index_body(&pages, "public")));
}

#[test]
fn concrete_site_of_two_documents() {
    let docs = vec![doc("content/a.md", "# Hi"), doc("content/sub/b.md", "text")];
    let pages = build_site("content", "public", &docs);
    assert_eq!(pages.len(), 3);
    let a = find(&pages, "public/a.html").unwrap();
    assert!(a.html.contains("<h1>Hi</h1>"));
    assert!(a.html.starts_with(HEADER) && a.html.ends_with(FOOTER));
    let b = find(&pages, "public/sub/b.html").unwrap();
    assert!(b.html.contains("<p>text</p>"));
    let index = find(&pages, "public/index.html").unwrap();
    assert!(index.html.contains(
        "<a href=\"/a.html\">a</a><br />\n<a href=\"/sub/b.html\">sub/b</a>"
    ));
    assert_eq!(index.html.matches("<a href=\"/a.html\">").count(), 1);
    assert_eq!(index.html.matches("<a href=\"/sub/b.html\">").count(), 1);
}

#[test]
fn empty_content_gives_only_index() {
    let pages = build_site("content", "public", &Vec::new());
    assert_eq!(pages.len(), 1);
    assert_eq!(pages[0].path, "public/index.html");
    assert_eq!(pages[0].html, shell(""));
}

#[test]
fn rebuild_with_same_content_is_identical() {
    let docs = vec![doc("content/x.md", "- one\n- two"), doc("content/y.md", "`code`")];
    let first = build_site("content", "public", &docs);
    let second = build_site("content", "public", &docs);
    assert_eq!(first.len(), second.len());
    for (p, q) in first.iter().zip(second.iter()) {
        assert_eq!(p.path, q.path);
        assert_eq!(p.html, q.html);
    }
}

#[test]
fn every_document_gets_its_rendered_page() {
    let docs = vec![doc("content/one.md", "## Two"), doc("content/d/e/f.md", "> quote")];
    let pages = build_site("content", "public", &docs);
    for d in &docs {
        let dest = destination_path(&d.path, "content", "public");
        let matching: Vec<&Page> = pages.iter().filter(|p| p.path == dest).collect();
        assert_eq!(matching.len(), 1);
        assert_eq!(matching[0].html, render_page(&d.text));
    }
}

#[test]
fn index_links_resolve_to_pages_in_order() {
    let docs = vec![doc("content/z.md", "z"), doc("content/a.md", "a"), doc("content/m/n.md", "n")];
    let pages = build_site("content", "public", &docs);
    let index = &pages[pages.len() - 1];
    assert_eq!(index.path, "public/index.html");
    let hrefs: Vec<&str> = index
        .html
        .split("<a href=\"")
        .skip(1)
        .map(|s| &s[..s.find('"').unwrap()])
        .filter(|h| *h != "/" && !h.starts_with("https:"))
        .collect();
    assert_eq!(hrefs, vec!["/z.html", "/a.html", "/m/n.html"]);
    for h in hrefs {
        assert!(find(&pages, &format!("public{}", h)).is_some());
    }
}

#[test]
fn removed_document_leaves_no_page() {
    let before = vec![doc("content/a.md", "a"), doc("content/b.md", "b")];
    let after = vec![doc("content/a.md", "a")];
    assert!(find(&build_site("content", "public", &before), "public/b.html").is_some());
    let pages = build_site("content", "public", &after);
    assert!(find(&pages, "public/b.html").is_none());
    assert!(!pages[pages.len() - 1].html.contains("b.html"));
}

#[test]
fn non_documents_produce_no_page() {
    let scanned = vec!["content/a.md".to_string(), "content/logo.png".to_string()];
    let selected = select_documents(&scanned);
    let docs: Vec<Document> = selected.iter().map(|p| doc(p, "x")).collect();
    let pages = build_site("content", "public", &docs);
    assert_eq!(pages.len(), 2);
    assert!(pages.iter().all(|p| !p.path.contains("logo")));
}

#[test]
fn worker_starts_build_on_change() {
    assert_eq!(
        step(WorkerState::Idle, WorkerEvent::Changed),
        (WorkerState::Building { pending: false }, WorkerAction::StartBuild)
    );
    assert_eq!(step(WorkerState::Idle, WorkerEvent::BuildSucceeded), (WorkerState::Idle, WorkerAction::Wait));
}

#[test]
fn worker_coalesces_changes_during_build() {
    let mut s = WorkerState::Idle;
    let mut starts = 0;
    let events = [
        WorkerEvent::Changed,
        WorkerEvent::Changed,
        WorkerEvent::Changed,
        WorkerEvent::BuildSucceeded,
        WorkerEvent::BuildSucceeded,
    ];
    for e in events {
        let (n, a) = step(s, e);
        if a == WorkerAction::StartBuild {
            starts += 1;
        }
        s = n;
    }
    assert_eq!(starts, 2);
    assert_eq!(s, WorkerState::Idle);
}

#[test]
fn worker_stops_on_failed_build() {
    let (s, a) = step(WorkerState::Building { pending: true }, WorkerEvent::BuildFailed);
    assert_eq!((s, a), (WorkerState::Stopped, WorkerAction::Stop));
    assert_eq!(step(s, WorkerEvent::Changed), (WorkerState::Stopped, WorkerAction::Stop));
}
