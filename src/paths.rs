//! Which paths are documents, and where each page of the site is placed.
use vstd::prelude::*;
use vstd::string::StringExecFns;
use crate::text::{drop_suffix, ends_with, has_prefix, has_suffix, starts_with, strip_prefix};

verus! {

/// The extension that marks a document.
pub const DOC_EXT: &'static str = ".md";

/// The extension of a rendered page.
pub const PAGE_EXT: &'static str = ".html";

/// The file name of the index page.
pub const INDEX_NAME: &'static str = "index.html";

/// `path` names a document.
pub open spec fn is_doc(path: Seq<char>) -> bool {
    has_suffix(path, DOC_EXT@)
}

/// The documents among `paths`, in their order.
pub open spec fn documents_of(paths: Seq<Seq<char>>) -> Seq<Seq<char>>
    decreases paths.len(),
{
    if paths.len() == 0 {
        Seq::empty()
    } else {
        let rest = documents_of(paths.drop_last());
        if is_doc(paths.last()) {
            rest.push(paths.last())
        } else {
            rest
        }
    }
}

/// `path` with the content root `content` in front replaced by the output root `output`.
pub open spec fn reroot(path: Seq<char>, content: Seq<char>, output: Seq<char>) -> Seq<char> {
    if has_prefix(path, content) {
        output + path.skip(content.len() as int)
    } else {
        path
    }
}

/// `path` with the document extension at its end replaced by the page extension.
pub open spec fn page_ext(path: Seq<char>) -> Seq<char> {
    if is_doc(path) {
        drop_suffix(path, DOC_EXT@) + PAGE_EXT@
    } else {
        path
    }
}

/// Where the page of the document at `path` is written.
pub open spec fn dest_of(path: Seq<char>, content: Seq<char>, output: Seq<char>) -> Seq<char> {
    page_ext(reroot(path, content, output))
}

/// `dir` joined with `name`, with a separator between them where `dir` does not end in one.
pub open spec fn join_of(dir: Seq<char>, name: Seq<char>) -> Seq<char> {
    if dir.len() == 0 || dir.last() == '/' {
        dir + name
    } else {
        dir + seq!['/'] + name
    }
}

/// Where the index page of the output root `output` is written.
pub open spec fn index_path_of(output: Seq<char>) -> Seq<char> {
    join_of(output, INDEX_NAME@)
}

/// Tells whether `path` names a document.
pub fn is_document(path: &str) -> (r: bool)
    ensures
        r == is_doc(path@),
{
    ends_with(path, DOC_EXT)
}

/// The documents among the scanned `paths`, in scan order; every other path is left out.
pub fn select_documents(paths: &Vec<String>) -> (r: Vec<String>)
    ensures
        r.deep_view() == documents_of(paths.deep_view()),
{
    let mut r: Vec<String> = Vec::new();
    let mut i: usize = 0;
    while i < paths.len()
        invariant
            i <= paths.len(),
            r.deep_view() == documents_of(paths.deep_view().take(i as int)),
        decreases paths.len() - i,
    {
        let ghost before = r.deep_view();
        let p = &paths[i];
        assert(paths.deep_view().take(i + 1).drop_last() =~= paths.deep_view().take(i as int));
        if is_document(p.as_str()) {
            r.push(p.clone());
            assert(r.deep_view() =~= before.push(p@));
        }
        i = i + 1;
    }
    assert(paths.deep_view().take(i as int) =~= paths.deep_view());
    r
}

/// `dir` joined with the file name `name`.
pub fn join_path(dir: &str, name: &str) -> (r: String)
    ensures
        r@ == join_of(dir@, name@),
{
    proof {
        reveal_strlit("/");
        if dir@.len() > 0 {
            assert(has_suffix(dir@, "/"@) <==> dir@.last() == '/') by {
                if dir@.last() == '/' {
                    assert(dir@.skip(dir@.len() - 1) =~= "/"@);
                }
                if has_suffix(dir@, "/"@) {
                    assert(dir@.skip(dir@.len() - 1)[0] == dir@.last());
                }
            }
        }
    }
    let mut s = String::from_str(dir);
    if !(dir.unicode_len() == 0 || ends_with(dir, "/")) {
        s.append("/");
    }
    s.append(name);
    s
}

/// Where the page of the document at `path` is written: the content root in
/// front becomes the output root, and the document extension becomes the page
/// extension.
pub fn destination_path(path: &str, content_root: &str, output_root: &str) -> (r: String)
    ensures
        r@ == dest_of(path@, content_root@, output_root@),
{
    let mut moved = String::from_str(output_root);
    if starts_with(path, content_root) {
        let rest = strip_prefix(path, content_root);
        moved.append(rest.as_str());
    } else {
        moved = String::from_str(path);
    }
    if is_document(moved.as_str()) {
        let mut r = crate::text::strip_suffix(moved.as_str(), DOC_EXT);
        r.append(PAGE_EXT);
        r
    } else {
        moved
    }
}

/// Where the index page of `output_root` is written.
pub fn index_path(output_root: &str) -> (r: String)
    ensures
        r@ == index_path_of(output_root@),
{
    join_path(output_root, INDEX_NAME)
}

} // verus!
