//! Properties of the scan that relate several calls or hold of every input.

use vstd::prelude::*;
use crate::editor_json::{UriEntry, ElementRule, apply_entries, editor_items, elements_entries, element_entries, later_entries, recent_list, document_entries};
use crate::json::{Json, field, opt_text, opt_elements};
use crate::jetbrains::apply_paths;
use crate::order::{is_ordered, goes_before};
use crate::project::{ProjectKind, EditorSource, ItemView, has_item, pushed};
use crate::scan::{SourceScan, SourceDocument, scan_items};
use crate::uri::file_uri_path;

verus! {

/// No two items share both their path and their source.
pub open spec fn keys_unique(s: Seq<ItemView>) -> bool {
    forall|i: int, j: int|
        0 <= i < j < s.len() ==> !(#[trigger] s[i].path == #[trigger] s[j].path && s[i].source == s[j].source)
}

/// Offering a candidate keeps the (path, source) pairs unique.
pub proof fn law_push_keeps_keys_unique(
    s: Seq<ItemView>,
    label: Option<Seq<char>>,
    path: Seq<char>,
    kind: ProjectKind,
    source: EditorSource,
    sep: char,
)
    requires
        keys_unique(s),
    ensures
        keys_unique(pushed(s, label, path, kind, source, sep)),
{
    let r = pushed(s, label, path, kind, source, sep);
    if !has_item(s, path, source) {
        assert forall|i: int, j: int| 0 <= i < j < r.len() implies !(#[trigger] r[i].path == #[trigger] r[j].path
            && r[i].source == r[j].source) by {
            if j == s.len() {
                assert(!(s[i].path == path && s[i].source == source));
            } else {
                assert(r[i] == s[i] && r[j] == s[j]);
            }
        }
    }
}

/// Offering a document's entries keeps the (path, source) pairs unique.
pub proof fn law_entries_keep_keys_unique(s: Seq<ItemView>, es: Seq<UriEntry>, source: EditorSource, sep: char)
    requires
        keys_unique(s),
    ensures
        keys_unique(apply_entries(s, es, source, sep)),
    decreases es.len(),
{
    if es.len() > 0 {
        law_entries_keep_keys_unique(s, es.drop_last(), source, sep);
        let prev = apply_entries(s, es.drop_last(), source, sep);
        let e = es.last();
        match file_uri_path(e.uri, sep) {
            Some(p) => law_push_keeps_keys_unique(prev, e.label, p, e.kind, source, sep),
            None => {},
        }
    }
}

/// Offering the paths of a `recentProjects.xml` keeps the pairs unique.
pub proof fn law_paths_keep_keys_unique(
    s: Seq<ItemView>,
    paths: Seq<Seq<char>>,
    present: Seq<Seq<char>>,
    source: EditorSource,
    sep: char,
)
    requires
        keys_unique(s),
    ensures
        keys_unique(apply_paths(s, paths, present, source, sep)),
    decreases paths.len(),
{
    if paths.len() > 0 {
        law_paths_keep_keys_unique(s, paths.drop_last(), present, source, sep);
        let prev = apply_paths(s, paths.drop_last(), present, source, sep);
        if present.contains(paths.last()) {
            law_push_keeps_keys_unique(prev, None, paths.last(), ProjectKind::Folder, source, sep);
        }
    }
}

/// In the result of any scan, no two items share both path and source.
pub proof fn law_scan_keys_unique(ss: Seq<SourceScan>, sep: char)
    ensures
        keys_unique(scan_items(ss, sep)),
    decreases ss.len(),
{
    if ss.len() > 0 {
        law_scan_keys_unique(ss.drop_last(), sep);
        let prev = scan_items(ss.drop_last(), sep);
        let last = ss.last();
        match last.document {
            SourceDocument::Unavailable => {},
            SourceDocument::Editor(doc) => {
                law_entries_keep_keys_unique(prev, crate::editor_json::document_entries(doc), last.source, sep);
            },
            SourceDocument::JetBrains { content, present } => {
                law_paths_keep_keys_unique(
                    prev,
                    crate::jetbrains::xml_paths(content@, sep),
                    crate::jetbrains::string_views(present@),
                    last.source,
                    sep,
                );
            },
        }
    }
}

proof fn lemma_apply_keeps_items(s: Seq<ItemView>, es: Seq<UriEntry>, source: EditorSource, sep: char, path: Seq<char>)
    requires
        has_item(s, path, source),
    ensures
        has_item(apply_entries(s, es, source, sep), path, source),
    decreases es.len(),
{
    if es.len() > 0 {
        lemma_apply_keeps_items(s, es.drop_last(), source, sep, path);
        let prev = apply_entries(s, es.drop_last(), source, sep);
        let i = choose|i: int| 0 <= i < prev.len() && prev[i].path == path && prev[i].source == source;
        let r = apply_entries(s, es, source, sep);
        assert(r[i] == prev[i]);
    }
}

proof fn lemma_apply_holds_entry(s: Seq<ItemView>, es: Seq<UriEntry>, source: EditorSource, sep: char, i: int)
    requires
        0 <= i < es.len(),
        file_uri_path(es[i].uri, sep) is Some,
    ensures
        has_item(apply_entries(s, es, source, sep), file_uri_path(es[i].uri, sep)->0, source),
    decreases es.len(),
{
    let p = file_uri_path(es[i].uri, sep)->0;
    let prev = apply_entries(s, es.drop_last(), source, sep);
    let r = apply_entries(s, es, source, sep);
    if i == es.len() - 1 {
        if !has_item(prev, p, source) {
            assert(r[prev.len() as int].path == p && r[prev.len() as int].source == source);
        }
    } else {
        lemma_apply_holds_entry(s, es.drop_last(), source, sep, i);
        assert(es.drop_last()[i] == es[i]);
        let k = choose|k: int| 0 <= k < prev.len() && prev[k].path == p && prev[k].source == source;
        assert(r[k] == prev[k]);
    }
}

/// An entry whose URI decodes to the path of an earlier entry adds nothing,
/// wherever in the document the two stand: the first one's item, its label
/// included, is kept as it was.
pub proof fn law_repeated_path_adds_nothing(
    s: Seq<ItemView>,
    es: Seq<UriEntry>,
    i: int,
    e: UriEntry,
    source: EditorSource,
    sep: char,
)
    requires
        0 <= i < es.len(),
        file_uri_path(es[i].uri, sep) is Some,
        file_uri_path(e.uri, sep) == file_uri_path(es[i].uri, sep),
    ensures
        apply_entries(s, es.push(e), source, sep) == apply_entries(s, es, source, sep),
{
    lemma_apply_holds_entry(s, es, source, sep, i);
    assert(es.push(e).drop_last() =~= es);
}

/// The same path offered under two different sources gives two items, one
/// for each source.
pub proof fn law_same_path_two_sources(
    s: Seq<ItemView>,
    path: Seq<char>,
    first: (Option<Seq<char>>, ProjectKind, EditorSource),
    second: (Option<Seq<char>>, ProjectKind, EditorSource),
    sep: char,
)
    requires
        first.2 != second.2,
        !has_item(s, path, first.2),
        !has_item(s, path, second.2),
    ensures
        ({
            let r = pushed(pushed(s, first.0, path, first.1, first.2, sep), second.0, path, second.1, second.2, sep);
            &&& r.len() == s.len() + 2
            &&& r.subrange(0, s.len() as int) == s
            &&& r[s.len() as int].path == path && r[s.len() as int].source == first.2
            &&& r[s.len() as int + 1].path == path && r[s.len() as int + 1].source == second.2
        }),
{
    let a = pushed(s, first.0, path, first.1, first.2, sep);
    assert(!has_item(a, path, second.2)) by {
        assert forall|i: int| 0 <= i < a.len() implies !(a[i].path == path && a[i].source == second.2) by {
            if i < s.len() {
                assert(a[i] == s[i]);
            }
        }
    }
    let r = pushed(a, second.0, path, second.1, second.2, sep);
    assert(r.subrange(0, s.len() as int) =~= s);
}

/// A document whose one entry is a folder of `workspaces3`'s recent list,
/// with a `file://` URI, gives exactly one item: a folder of the scanned
/// source at the decoded path.
pub proof fn law_single_recent_folder(doc: Json, e: Json, source: EditorSource, sep: char)
    requires
        opt_elements(recent_list(doc)) == seq![e],
        opt_text(field(e, "folderUri"@)) is Some,
        file_uri_path(opt_text(field(e, "folderUri"@))->0, sep) is Some,
        later_entries(doc).len() == 0,
    ensures
        ({
            let r = editor_items(Seq::empty(), doc, source, sep);
            &&& r.len() == 1
            &&& r[0].path == file_uri_path(opt_text(field(e, "folderUri"@))->0, sep)->0
            &&& r[0].kind == ProjectKind::Folder
            &&& r[0].source == source
            &&& r[0].mtime is None
        }),
{
    let one = seq![e];
    assert(one.drop_last() =~= Seq::<Json>::empty());
    assert(one.last() == e);
    assert(elements_entries(Seq::<Json>::empty(), ElementRule::Recent) =~= Seq::<UriEntry>::empty());
    assert(elements_entries(one, ElementRule::Recent) =~= element_entries(ElementRule::Recent, e));
    let es = document_entries(doc);
    assert(es =~= element_entries(ElementRule::Recent, e));
    assert(es.len() == 1);
    assert(es.drop_last() =~= Seq::<UriEntry>::empty());
    let empty = Seq::<ItemView>::empty();
    assert(apply_entries(empty, es.drop_last(), source, sep) == empty);
    let p = file_uri_path(es.last().uri, sep)->0;
    assert(!has_item(empty, p, source));
    let r = editor_items(empty, doc, source, sep);
    assert(r == pushed(empty, es.last().label, p, es.last().kind, source, sep));
}

/// Paths that are not on disk add nothing.
pub proof fn law_absent_paths_add_nothing(
    s: Seq<ItemView>,
    paths: Seq<Seq<char>>,
    present: Seq<Seq<char>>,
    source: EditorSource,
    sep: char,
)
    requires
        forall|i: int| 0 <= i < paths.len() ==> !present.contains(#[trigger] paths[i]),
    ensures
        apply_paths(s, paths, present, source, sep) == s,
    decreases paths.len(),
{
    if paths.len() > 0 {
        law_absent_paths_add_nothing(s, paths.drop_last(), present, source, sep);
        assert(!present.contains(paths[paths.len() - 1]));
    }
}

/// In a sorted result, newer items come first, and the items without a
/// time come after all those with one.
pub proof fn law_sorted_newest_first(out: Seq<ItemView>)
    requires
        is_ordered(out),
    ensures
        forall|i: int, j: int|
            0 <= i < j < out.len() ==> {
                &&& (#[trigger] out[i]).mtime is None ==> (#[trigger] out[j]).mtime is None
                &&& (out[i].mtime is Some && out[j].mtime is Some) ==> out[i].mtime->0 >= out[j].mtime->0
            },
{
    assert forall|i: int, j: int| 0 <= i < j < out.len() implies {
        &&& (#[trigger] out[i]).mtime is None ==> (#[trigger] out[j]).mtime is None
        &&& (out[i].mtime is Some && out[j].mtime is Some) ==> out[i].mtime->0 >= out[j].mtime->0
    } by {
        assert(!goes_before(out[j], out[i]));
    }
}

} // verus!
