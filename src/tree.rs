//! The output tree that a build pass leaves behind, and what holds of it.
use vstd::prelude::*;
use crate::index::{href_of, joined, link_of, links_of, LINK_SEP};
use crate::paths::{dest_of, documents_of, index_path_of, is_doc, DOC_EXT, PAGE_EXT};
use crate::site::{dests_of, page_html_of, site_of};
use crate::template::page_of;
use crate::text::has_prefix;

verus! {

/// The tree after `files` are written onto `tree` in order; a later file
/// replaces an earlier one at the same path.
pub open spec fn written(
    tree: Map<Seq<char>, Seq<char>>,
    files: Seq<(Seq<char>, Seq<char>)>,
) -> Map<Seq<char>, Seq<char>>
    decreases files.len(),
{
    if files.len() == 0 {
        tree
    } else {
        written(tree, files.drop_last()).insert(files.last().0, files.last().1)
    }
}

/// The output tree after a build pass over `docs`, whatever the tree `prior`
/// held before: the pass wipes it, then writes every file of the site.
pub open spec fn tree_after_build(
    prior: Map<Seq<char>, Seq<char>>,
    content: Seq<char>,
    output: Seq<char>,
    docs: Seq<(Seq<char>, Seq<char>)>,
) -> Map<Seq<char>, Seq<char>> {
    written(Map::empty(), site_of(content, output, docs))
}

/// `path` lies under the content root `content`, and what follows the root is a document name.
pub open spec fn under_root(path: Seq<char>, content: Seq<char>) -> bool {
    has_prefix(path, content) && is_doc(path.skip(content.len() as int))
}

/// Every document of `docs` lies under the content root.
pub open spec fn docs_under_root(docs: Seq<(Seq<char>, Seq<char>)>, content: Seq<char>) -> bool {
    forall|i: int| 0 <= i < docs.len() ==> under_root(#[trigger] docs[i].0, content)
}

/// No two documents of `docs` share a path.
pub open spec fn distinct_paths(docs: Seq<(Seq<char>, Seq<char>)>) -> bool {
    forall|i: int, j: int|
        0 <= i < docs.len() && 0 <= j < docs.len() && i != j ==> #[trigger] docs[i].0 != #[trigger] docs[j].0
}

/// What lies between the content root and the document extension of `path`.
pub open spec fn stem_of(path: Seq<char>, content: Seq<char>) -> Seq<char> {
    path.subrange(content.len() as int, path.len() - DOC_EXT@.len())
}

proof fn lemma_written_dom(tree: Map<Seq<char>, Seq<char>>, files: Seq<(Seq<char>, Seq<char>)>)
    ensures
        forall|k: Seq<char>|
            #[trigger] written(tree, files).contains_key(k) <==> (tree.contains_key(k) || exists|i: int|
                0 <= i < files.len() && files[i].0 == k),
    decreases files.len(),
{
    if files.len() > 0 {
        lemma_written_dom(tree, files.drop_last());
        assert forall|k: Seq<char>|
            #[trigger] written(tree, files).contains_key(k) <==> (tree.contains_key(k) || exists|i: int|
                0 <= i < files.len() && files[i].0 == k) by {
            let rest = files.drop_last();
            assert(written(tree, files) == written(tree, rest).insert(files.last().0, files.last().1));
            assert(written(tree, rest).contains_key(k) <==> (tree.contains_key(k) || exists|i: int|
                0 <= i < rest.len() && rest[i].0 == k));
            if k == files.last().0 {
                assert(files[files.len() - 1].0 == k);
            }
            if exists|i: int| 0 <= i < files.len() && files[i].0 == k {
                let i = choose|i: int| 0 <= i < files.len() && files[i].0 == k;
                if i < files.len() - 1 {
                    assert(files.drop_last()[i].0 == k);
                }
            }
            if exists|i: int| 0 <= i < files.drop_last().len() && files.drop_last()[i].0 == k {
                let i = choose|i: int| 0 <= i < files.drop_last().len() && files.drop_last()[i].0 == k;
                assert(files[i].0 == k);
            }
        }
    }
}

proof fn lemma_written_last(
    tree: Map<Seq<char>, Seq<char>>,
    files: Seq<(Seq<char>, Seq<char>)>,
    i: int,
)
    requires
        0 <= i < files.len(),
        forall|j: int| i < j < files.len() ==> #[trigger] files[j].0 != files[i].0,
    ensures
        written(tree, files).contains_key(files[i].0),
        written(tree, files)[files[i].0] == files[i].1,
    decreases files.len(),
{
    if i < files.len() - 1 {
        let rest = files.drop_last();
        assert forall|j: int| i < j < rest.len() implies #[trigger] rest[j].0 != rest[i].0 by {
            assert(files[j].0 != files[i].0);
        }
        lemma_written_last(tree, rest, i);
    }
}

proof fn lemma_dest_shape(path: Seq<char>, content: Seq<char>, output: Seq<char>)
    requires
        under_root(path, content),
    ensures
        dest_of(path, content, output) == output + stem_of(path, content) + PAGE_EXT@,
        path == content + stem_of(path, content) + DOC_EXT@,
{
    reveal_strlit(".md");
    let rest = path.skip(content.len() as int);
    let moved = output + rest;
    let stem = stem_of(path, content);
    assert(rest =~= stem + DOC_EXT@);
    assert(moved.skip(moved.len() - DOC_EXT@.len()) =~= DOC_EXT@);
    assert(moved.take(moved.len() - DOC_EXT@.len()) =~= output + stem);
    assert(path =~= content + stem + DOC_EXT@);
}

proof fn lemma_dest_injective(a: Seq<char>, b: Seq<char>, content: Seq<char>, output: Seq<char>)
    requires
        under_root(a, content),
        under_root(b, content),
        dest_of(a, content, output) == dest_of(b, content, output),
    ensures
        a == b,
{
    lemma_dest_shape(a, content, output);
    lemma_dest_shape(b, content, output);
    let sa = stem_of(a, content);
    let sb = stem_of(b, content);
    let d = dest_of(a, content, output);
    assert(sa =~= d.subrange(output.len() as int, (output.len() + sa.len()) as int));
    assert(sb =~= d.subrange(output.len() as int, (output.len() + sb.len()) as int));
}

proof fn lemma_site_keys(
    prior: Map<Seq<char>, Seq<char>>,
    content: Seq<char>,
    output: Seq<char>,
    docs: Seq<(Seq<char>, Seq<char>)>,
)
    ensures
        forall|k: Seq<char>|
            #[trigger] tree_after_build(prior, content, output, docs).contains_key(k) <==> (k
                == index_path_of(output) || exists|i: int|
                0 <= i < docs.len() && k == dest_of(docs[i].0, content, output)),
{
    let files = site_of(content, output, docs);
    lemma_written_dom(Map::empty(), files);
    assert forall|k: Seq<char>|
        #[trigger] tree_after_build(prior, content, output, docs).contains_key(k) <==> (k
            == index_path_of(output) || exists|i: int|
            0 <= i < docs.len() && k == dest_of(docs[i].0, content, output)) by {
        if exists|i: int| 0 <= i < files.len() && files[i].0 == k {
            let i = choose|i: int| 0 <= i < files.len() && files[i].0 == k;
            if i < docs.len() {
                assert(k == dest_of(docs[i].0, content, output));
            }
        }
        if exists|i: int| 0 <= i < docs.len() && k == dest_of(docs[i].0, content, output) {
            let i = choose|i: int| 0 <= i < docs.len() && k == dest_of(docs[i].0, content, output);
            assert(files[i].0 == k);
        }
        if k == index_path_of(output) {
            assert(files[docs.len() as int].0 == k);
        }
    }
}

/// A build over unchanged content leaves the same tree whatever the tree held
/// before, so a second build in a row changes nothing.
pub proof fn lemma_build_idempotent(
    prior: Map<Seq<char>, Seq<char>>,
    content: Seq<char>,
    output: Seq<char>,
    docs: Seq<(Seq<char>, Seq<char>)>,
)
    ensures
        tree_after_build(tree_after_build(prior, content, output, docs), content, output, docs)
            == tree_after_build(prior, content, output, docs),
        tree_after_build(prior, content, output, docs) == tree_after_build(
            Map::empty(),
            content,
            output,
            docs,
        ),
{
}

/// After a build, each document under the content root has exactly one page,
/// at its mirrored destination, holding its rendered text in the shell; the
/// one exception is a document whose destination is the index page's path.
pub proof fn lemma_every_document_has_its_page(
    prior: Map<Seq<char>, Seq<char>>,
    content: Seq<char>,
    output: Seq<char>,
    docs: Seq<(Seq<char>, Seq<char>)>,
    i: int,
)
    requires
        docs_under_root(docs, content),
        distinct_paths(docs),
        0 <= i < docs.len(),
        dest_of(docs[i].0, content, output) != index_path_of(output),
    ensures
        tree_after_build(prior, content, output, docs).contains_key(dest_of(docs[i].0, content, output)),
        tree_after_build(prior, content, output, docs)[dest_of(docs[i].0, content, output)]
            == page_html_of(docs[i].1),
{
    let files = site_of(content, output, docs);
    assert forall|j: int| i < j < files.len() implies #[trigger] files[j].0 != files[i].0 by {
        if j < docs.len() {
            if files[j].0 == files[i].0 {
                lemma_dest_injective(docs[i].0, docs[j].0, content, output);
            }
        }
    }
    lemma_written_last(Map::empty(), files, i);
}

/// The index page holds one link per page of the documents, in build order;
/// each href, appended to the output root, names a file of the tree.
pub proof fn lemma_index_lists_every_page(
    prior: Map<Seq<char>, Seq<char>>,
    content: Seq<char>,
    output: Seq<char>,
    docs: Seq<(Seq<char>, Seq<char>)>,
)
    requires
        docs_under_root(docs, content),
    ensures
        ({
            let tree = tree_after_build(prior, content, output, docs);
            let dests = dests_of(docs, content, output);
            let links = links_of(dests, output);
            &&& tree.contains_key(index_path_of(output))
            &&& tree[index_path_of(output)] == page_of(joined(links, LINK_SEP@))
            &&& links.len() == docs.len()
            &&& forall|i: int|
                0 <= i < docs.len() ==> {
                    &&& #[trigger] links[i] == link_of(dest_of(docs[i].0, content, output), output)
                    &&& output + href_of(dests[i], output) == dests[i]
                    &&& tree.contains_key(output + href_of(dests[i], output))
                }
        }),
{
    let files = site_of(content, output, docs);
    let n = docs.len() as int;
    let dests = dests_of(docs, content, output);
    lemma_written_last(Map::empty(), files, n);
    lemma_site_keys(prior, content, output, docs);
    assert forall|i: int| 0 <= i < docs.len() implies output + href_of(dests[i], output) == dests[i] by {
        lemma_dest_shape(docs[i].0, content, output);
        let d = dests[i];
        assert(d.take(output.len() as int) =~= output);
        assert(output + d.skip(output.len() as int) =~= d);
    }
}

/// A document removed from the content root has no page after the next build,
/// unless its destination is the index page's path.
pub proof fn lemma_removed_document_leaves_no_page(
    prior: Map<Seq<char>, Seq<char>>,
    content: Seq<char>,
    output: Seq<char>,
    docs: Seq<(Seq<char>, Seq<char>)>,
    removed: Seq<char>,
)
    requires
        docs_under_root(docs, content),
        under_root(removed, content),
        forall|i: int| 0 <= i < docs.len() ==> #[trigger] docs[i].0 != removed,
        dest_of(removed, content, output) != index_path_of(output),
    ensures
        !tree_after_build(prior, content, output, docs).contains_key(dest_of(removed, content, output)),
{
    lemma_site_keys(prior, content, output, docs);
    let k = dest_of(removed, content, output);
    if exists|i: int| 0 <= i < docs.len() && k == dest_of(docs[i].0, content, output) {
        let i = choose|i: int| 0 <= i < docs.len() && k == dest_of(docs[i].0, content, output);
        lemma_dest_injective(removed, docs[i].0, content, output);
    }
}

proof fn lemma_documents_of_are_documents(paths: Seq<Seq<char>>)
    ensures
        forall|p: Seq<char>| #[trigger] documents_of(paths).contains(p) ==> is_doc(p) && paths.contains(p),
    decreases paths.len(),
{
    if paths.len() > 0 {
        lemma_documents_of_are_documents(paths.drop_last());
        assert forall|p: Seq<char>| #[trigger] documents_of(paths).contains(p) implies is_doc(p)
            && paths.contains(p) by {
            if documents_of(paths.drop_last()).contains(p) {
                let j = choose|j: int| 0 <= j < paths.drop_last().len() && paths.drop_last()[j] == p;
                assert(paths[j] == p);
            } else {
                assert(p == paths.last());
                assert(paths[paths.len() - 1] == p);
            }
        }
    }
}

/// Of the scanned `paths`, only documents are built: a path without the
/// document extension is never selected, and every file of the tree is the
/// index page or the page of a selected document.
pub proof fn lemma_only_documents_have_pages(
    prior: Map<Seq<char>, Seq<char>>,
    content: Seq<char>,
    output: Seq<char>,
    paths: Seq<Seq<char>>,
    docs: Seq<(Seq<char>, Seq<char>)>,
)
    requires
        docs.map_values(|d: (Seq<char>, Seq<char>)| d.0) == documents_of(paths),
    ensures
        forall|p: Seq<char>| !is_doc(p) ==> !(#[trigger] documents_of(paths).contains(p)),
        forall|k: Seq<char>|
            #[trigger] tree_after_build(prior, content, output, docs).contains_key(k) ==> k
                == index_path_of(output) || exists|p: Seq<char>|
                documents_of(paths).contains(p) && paths.contains(p) && is_doc(p) && k == dest_of(
                    p,
                    content,
                    output,
                ),
{
    lemma_documents_of_are_documents(paths);
    lemma_site_keys(prior, content, output, docs);
    let selected = documents_of(paths);
    assert forall|k: Seq<char>|
        #[trigger] tree_after_build(prior, content, output, docs).contains_key(k) implies k
            == index_path_of(output) || exists|p: Seq<char>|
            selected.contains(p) && paths.contains(p) && is_doc(p) && k == dest_of(p, content, output) by {
        if k != index_path_of(output) {
            let i = choose|i: int| 0 <= i < docs.len() && k == dest_of(docs[i].0, content, output);
            let p = docs[i].0;
            assert(docs.map_values(|d: (Seq<char>, Seq<char>)| d.0)[i] == p);
            assert(selected[i] == p);
            assert(selected.contains(p));
        }
    }
}

/// A build over an empty content root leaves only the index page, with no links.
pub proof fn lemma_empty_content_gives_bare_index(
    prior: Map<Seq<char>, Seq<char>>,
    content: Seq<char>,
    output: Seq<char>,
)
    ensures
        tree_after_build(prior, content, output, Seq::empty()) == map![index_path_of(output) => page_of(Seq::empty())],
{
    let docs = Seq::<(Seq<char>, Seq<char>)>::empty();
    let files = site_of(content, output, docs);
    let links = links_of(dests_of(docs, content, output), output);
    assert(links =~= Seq::empty());
    assert(joined(links, LINK_SEP@) == Seq::<char>::empty());
    assert(files.drop_last() =~= Seq::empty());
    assert(written(Map::empty(), files.drop_last()) == Map::<Seq<char>, Seq<char>>::empty());
    assert(files.last() == (index_path_of(output), page_of(Seq::empty())));
    assert(tree_after_build(prior, content, output, docs) =~= map![index_path_of(output) => page_of(Seq::empty())]);
}

} // verus!
