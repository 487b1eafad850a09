//! Recent projects in the `storage.json` of VS Code and its forks. The file
//! records them under several shapes, each read by a rule of its own; all
//! rules apply to the same document, in a fixed order.

use vstd::prelude::*;
use crate::json::{Json, field, opt_field, opt_text, opt_elements, opt_members, deref_opt};
use crate::project::{ProjectKind, EditorSource, RecentProjectItem, ItemView, item_views, pushed, push_item};
use crate::uri::{decode_file_uri_with, file_uri_path, opt_chars};

verus! {

/// A URI found in a document, with the label recorded beside it, if any.
pub struct UriEntry {
    pub label: Option<Seq<char>>,
    pub uri: Seq<char>,
    pub kind: ProjectKind,
}

/// `s` after offering it, in order, the entries whose URI names a local
/// path; the others are passed over.
pub open spec fn apply_entries(s: Seq<ItemView>, es: Seq<UriEntry>, source: EditorSource, sep: char) -> Seq<ItemView>
    decreases es.len(),
{
    if es.len() == 0 {
        s
    } else {
        let prev = apply_entries(s, es.drop_last(), source, sep);
        let e = es.last();
        match file_uri_path(e.uri, sep) {
            Some(p) => pushed(prev, e.label, p, e.kind, source, sep),
            None => prev,
        }
    }
}

pub proof fn lemma_apply_concat(s: Seq<ItemView>, a: Seq<UriEntry>, b: Seq<UriEntry>, source: EditorSource, sep: char)
    ensures
        apply_entries(s, a + b, source, sep) == apply_entries(apply_entries(s, a, source, sep), b, source, sep),
    decreases b.len(),
{
    if b.len() == 0 {
        assert(a + b =~= a);
    } else {
        assert((a + b).drop_last() =~= a + b.drop_last());
        lemma_apply_concat(s, a, b.drop_last(), source, sep);
    }
}

/// How the elements of a list are read.
#[derive(Clone, Copy, Debug, PartialEq, Eq, Structural)]
pub enum ElementRule {
    /// `{folderUri, label?}` or `{workspace: {configPath}, label?}`.
    Recent,
    /// `{folder?, workspace?: {configPath}}`.
    Window,
    /// `{folderUri}`.
    Backup,
    /// A bare URI string.
    Root,
}

pub open spec fn folder(label: Option<Seq<char>>, uri: Seq<char>) -> Seq<UriEntry> {
    seq![UriEntry { label, uri, kind: ProjectKind::Folder }]
}

pub open spec fn workspace(label: Option<Seq<char>>, uri: Seq<char>) -> Seq<UriEntry> {
    seq![UriEntry { label, uri, kind: ProjectKind::Workspace }]
}

/// The entries of one list element under a rule.
pub open spec fn element_entries(rule: ElementRule, e: Json) -> Seq<UriEntry> {
    let label = opt_text(field(e, "label"@));
    let config = opt_text(opt_field(field(e, "workspace"@), "configPath"@));
    match rule {
        ElementRule::Recent => match opt_text(field(e, "folderUri"@)) {
            Some(u) => folder(label, u),
            None => match config {
                Some(c) => workspace(label, c),
                None => Seq::empty(),
            },
        },
        ElementRule::Window => {
            let f = match opt_text(field(e, "folder"@)) {
                Some(u) => folder(None, u),
                None => Seq::empty(),
            };
            let w = match config {
                Some(c) => workspace(None, c),
                None => Seq::empty(),
            };
            f + w
        },
        ElementRule::Backup => match opt_text(field(e, "folderUri"@)) {
            Some(u) => folder(None, u),
            None => Seq::empty(),
        },
        ElementRule::Root => match opt_text(Some(e)) {
            Some(u) => folder(None, u),
            None => Seq::empty(),
        },
    }
}

/// The entries of a list, element by element.
pub open spec fn elements_entries(es: Seq<Json>, rule: ElementRule) -> Seq<UriEntry>
    decreases es.len(),
{
    if es.len() == 0 {
        Seq::empty()
    } else {
        elements_entries(es.drop_last(), rule) + element_entries(rule, es.last())
    }
}

/// The entries of an object whose member names are URIs, as folders.
pub open spec fn members_entries(ms: Seq<(String, Json)>) -> Seq<UriEntry>
    decreases ms.len(),
{
    if ms.len() == 0 {
        Seq::empty()
    } else {
        let k = ms.last().0@;
        members_entries(ms.drop_last()) + folder(None, k)
    }
}

/// A single folder URI.
pub open spec fn single_entry(u: Option<Seq<char>>) -> Seq<UriEntry> {
    match u {
        Some(t) => folder(None, t),
        None => Seq::empty(),
    }
}

/// The recent list of `workspaces3`: `recentWorkspaces`, or `recent` where
/// the first is absent.
pub open spec fn recent_list(doc: Json) -> Option<Json> {
    let w3 = field(doc, "workspaces3"@);
    match opt_field(w3, "recentWorkspaces"@) {
        Some(r) => Some(r),
        None => opt_field(w3, "recent"@),
    }
}

/// The entries of every rule after the first: `profileAssociations.workspaces`,
/// `windowsState.lastActiveWindow.folder`, `windowsState.openedWindows`,
/// `backupWorkspaces.folders`, `openedPathsList` and `recentRoots`.
pub open spec fn later_entries(doc: Json) -> Seq<UriEntry> {
    let ws = field(doc, "windowsState"@);
    members_entries(opt_members(opt_field(field(doc, "profileAssociations"@), "workspaces"@)))
        + single_entry(opt_text(opt_field(opt_field(ws, "lastActiveWindow"@), "folder"@)))
        + elements_entries(opt_elements(opt_field(ws, "openedWindows"@)), ElementRule::Window)
        + elements_entries(opt_elements(opt_field(field(doc, "backupWorkspaces"@), "folders"@)), ElementRule::Backup)
        + elements_entries(opt_elements(field(doc, "openedPathsList"@)), ElementRule::Recent)
        + elements_entries(opt_elements(field(doc, "recentRoots"@)), ElementRule::Root)
}

/// Every entry of a document, rule after rule, starting with the recent
/// list of `workspaces3`.
pub open spec fn document_entries(doc: Json) -> Seq<UriEntry> {
    elements_entries(opt_elements(recent_list(doc)), ElementRule::Recent) + later_entries(doc)
}

/// The items that a document contributes for `source`, after those in `s`.
pub open spec fn editor_items(s: Seq<ItemView>, doc: Json, source: EditorSource, sep: char) -> Seq<ItemView> {
    apply_entries(s, document_entries(doc), source, sep)
}

pub open spec fn ref_text(r: Option<&String>) -> Option<Seq<char>> {
    match r {
        Some(s) => Some(s@),
        None => None,
    }
}

/// The text of an optional value that is a string.
fn text_in(j: Option<&Json>) -> (r: Option<&String>)
    ensures
        ref_text(r) == opt_text(deref_opt(j)),
{
    match j {
        Some(v) => v.as_str(),
        None => None,
    }
}

/// The member `key` of an optional value.
fn member_in<'a>(j: Option<&'a Json>, key: &str) -> (r: Option<&'a Json>)
    ensures
        deref_opt(r) == opt_field(deref_opt(j), key@),
{
    match j {
        Some(v) => v.get(key),
        None => None,
    }
}

fn owned_text(r: Option<&String>) -> (o: Option<String>)
    ensures
        opt_chars(o) == ref_text(r),
{
    match r {
        Some(s) => Some(s.clone()),
        None => None,
    }
}

/// Offers one entry to `items`.
fn offer(
    items: &mut Vec<RecentProjectItem>,
    label: Option<String>,
    uri: &String,
    kind: ProjectKind,
    source: EditorSource,
    sep: char,
)
    ensures
        item_views(final(items)@) == apply_entries(
            item_views(old(items)@),
            seq![UriEntry { label: opt_chars(label), uri: uri@, kind }],
            source,
            sep,
        ),
{
    let ghost es = seq![UriEntry { label: opt_chars(label), uri: uri@, kind }];
    let ghost s0 = item_views(items@);
    assert(es.drop_last() =~= Seq::<UriEntry>::empty());
    assert(apply_entries(s0, es.drop_last(), source, sep) == s0);
    let ghost e = es.last();
    assert(e.uri == uri@ && e.kind == kind && e.label == opt_chars(label));
    match decode_file_uri_with(uri.as_str(), sep) {
        Some(p) => {
            assert(file_uri_path(e.uri, sep) == Some(p@));
            push_item(items, label, p, kind, source, sep);
        },
        None => {
            assert(file_uri_path(e.uri, sep) is None);
        },
    }
}

proof fn lemma_apply_empty(s: Seq<ItemView>, source: EditorSource, sep: char)
    ensures
        apply_entries(s, Seq::empty(), source, sep) == s,
{
}

/// Offers the entries of one list element.
fn take_element(rule: ElementRule, e: &Json, items: &mut Vec<RecentProjectItem>, source: EditorSource, sep: char)
    ensures
        item_views(final(items)@) == apply_entries(item_views(old(items)@), element_entries(rule, *e), source, sep),
{
    let ghost s0 = item_views(items@);
    proof {
        lemma_apply_empty(s0, source, sep);
    }
    let config = text_in(member_in(e.get("workspace"), "configPath"));
    match rule {
        ElementRule::Recent => {
            let label = owned_text(text_in(e.get("label")));
            match text_in(e.get("folderUri")) {
                Some(u) => offer(items, label, u, ProjectKind::Folder, source, sep),
                None => match config {
                    Some(c) => offer(items, label, c, ProjectKind::Workspace, source, sep),
                    None => {},
                },
            }
        },
        ElementRule::Window => {
            let ghost f = match opt_text(field(*e, "folder"@)) {
                Some(u) => folder(None, u),
                None => Seq::empty(),
            };
            let ghost w = match opt_text(opt_field(field(*e, "workspace"@), "configPath"@)) {
                Some(c) => workspace(None, c),
                None => Seq::empty(),
            };
            match text_in(e.get("folder")) {
                Some(u) => offer(items, None, u, ProjectKind::Folder, source, sep),
                None => {},
            }
            let ghost s1 = item_views(items@);
            assert(s1 == apply_entries(s0, f, source, sep));
            proof {
                lemma_apply_empty(s1, source, sep);
            }
            match config {
                Some(c) => offer(items, None, c, ProjectKind::Workspace, source, sep),
                None => {},
            }
            proof {
                lemma_apply_concat(s0, f, w, source, sep);
            }
        },
        ElementRule::Backup => {
            match text_in(e.get("folderUri")) {
                Some(u) => offer(items, None, u, ProjectKind::Folder, source, sep),
                None => {},
            }
        },
        ElementRule::Root => {
            match e.as_str() {
                Some(u) => offer(items, None, u, ProjectKind::Folder, source, sep),
                None => {},
            }
        },
    }
}

/// Offers the entries of every element of an optional list.
fn take_elements(list: Option<&Json>, rule: ElementRule, items: &mut Vec<RecentProjectItem>, source: EditorSource, sep: char)
    ensures
        item_views(final(items)@) == apply_entries(
            item_views(old(items)@),
            elements_entries(opt_elements(deref_opt(list)), rule),
            source,
            sep,
        ),
{
    let ghost s0 = item_views(items@);
    let empty: Vec<Json> = Vec::new();
    let arr: &Vec<Json> = match list {
        Some(v) => match v.as_array() {
            Some(a) => a,
            None => &empty,
        },
        None => &empty,
    };
    assert(arr@ == opt_elements(deref_opt(list)));
    let mut i: usize = 0;
    assert(arr@.subrange(0, 0) =~= Seq::<Json>::empty());
    proof {
        lemma_apply_empty(s0, source, sep);
    }
    while i < arr.len()
        invariant
            i <= arr@.len(),
            item_views(items@) == apply_entries(s0, elements_entries(arr@.subrange(0, i as int), rule), source, sep),
        decreases arr@.len() - i,
    {
        let ghost before = elements_entries(arr@.subrange(0, i as int), rule);
        take_element(rule, &arr[i], items, source, sep);
        proof {
            let next = arr@.subrange(0, i + 1);
            assert(next.drop_last() =~= arr@.subrange(0, i as int));
            assert(elements_entries(next, rule) == before + element_entries(rule, arr@[i as int]));
            lemma_apply_concat(s0, before, element_entries(rule, arr@[i as int]), source, sep);
        }
        i = i + 1;
    }
    assert(arr@.subrange(0, arr@.len() as int) =~= arr@);
}

/// Offers, as folders, the member names of an optional object that start
/// with `file://`.
fn take_member_names(obj: Option<&Json>, items: &mut Vec<RecentProjectItem>, source: EditorSource, sep: char)
    ensures
        item_views(final(items)@) == apply_entries(
            item_views(old(items)@),
            members_entries(opt_members(deref_opt(obj))),
            source,
            sep,
        ),
{
    let ghost s0 = item_views(items@);
    let empty: Vec<(String, Json)> = Vec::new();
    let ms: &Vec<(String, Json)> = match obj {
        Some(v) => match v.as_object() {
            Some(m) => m,
            None => &empty,
        },
        None => &empty,
    };
    assert(ms@ == opt_members(deref_opt(obj)));
    let mut i: usize = 0;
    assert(ms@.subrange(0, 0) =~= Seq::<(String, Json)>::empty());
    proof {
        lemma_apply_empty(s0, source, sep);
    }
    while i < ms.len()
        invariant
            i <= ms@.len(),
            item_views(items@) == apply_entries(s0, members_entries(ms@.subrange(0, i as int)), source, sep),
        decreases ms@.len() - i,
    {
        let ghost before = members_entries(ms@.subrange(0, i as int));
        let name = &ms[i].0;
        proof {
            let next = ms@.subrange(0, i + 1);
            assert(next.drop_last() =~= ms@.subrange(0, i as int));
        }
        offer(items, None, name, ProjectKind::Folder, source, sep);
        proof {
            lemma_apply_concat(s0, before, folder(None, name@), source, sep);
        }
        i = i + 1;
    }
    assert(ms@.subrange(0, ms@.len() as int) =~= ms@);
}

/// Offers the folder URI of a single optional value.
fn take_single(value: Option<&String>, items: &mut Vec<RecentProjectItem>, source: EditorSource, sep: char)
    ensures
        item_views(final(items)@) == apply_entries(item_views(old(items)@), single_entry(ref_text(value)), source, sep),
{
    proof {
        lemma_apply_empty(item_views(items@), source, sep);
    }
    match value {
        Some(u) => offer(items, None, u, ProjectKind::Folder, source, sep),
        None => {},
    }
}

/// Reads the recent projects that a VS Code-family `storage.json` records
/// for `source` and offers each to `items` (see `push_item`). Every shape
/// present contributes; URIs of other schemes than `file` are passed over.
pub fn parse_editor_json(doc: &Json, source: EditorSource, sep: char, items: &mut Vec<RecentProjectItem>)
    ensures
        item_views(final(items)@) == editor_items(item_views(old(items)@), *doc, source, sep),
{
    let ghost s0 = item_views(items@);
    let ghost e1 = elements_entries(opt_elements(recent_list(*doc)), ElementRule::Recent);
    let ghost e2 = members_entries(opt_members(opt_field(field(*doc, "profileAssociations"@), "workspaces"@)));
    let ghost ws = field(*doc, "windowsState"@);
    let ghost e3 = single_entry(opt_text(opt_field(opt_field(ws, "lastActiveWindow"@), "folder"@)));
    let ghost e4 = elements_entries(opt_elements(opt_field(ws, "openedWindows"@)), ElementRule::Window);
    let ghost e5 = elements_entries(opt_elements(opt_field(field(*doc, "backupWorkspaces"@), "folders"@)), ElementRule::Backup);
    let ghost e6 = elements_entries(opt_elements(field(*doc, "openedPathsList"@)), ElementRule::Recent);
    let ghost e7 = elements_entries(opt_elements(field(*doc, "recentRoots"@)), ElementRule::Root);

    let w3 = doc.get("workspaces3");
    let recent = match member_in(w3, "recentWorkspaces") {
        Some(r) => Some(r),
        None => member_in(w3, "recent"),
    };
    assert(deref_opt(recent) == recent_list(*doc));
    take_elements(recent, ElementRule::Recent, items, source, sep);

    take_member_names(member_in(doc.get("profileAssociations"), "workspaces"), items, source, sep);
    proof {
        lemma_apply_concat(s0, e1, e2, source, sep);
    }

    let windows = doc.get("windowsState");
    take_single(text_in(member_in(member_in(windows, "lastActiveWindow"), "folder")), items, source, sep);
    proof {
        lemma_apply_concat(s0, e1 + e2, e3, source, sep);
    }
    take_elements(member_in(windows, "openedWindows"), ElementRule::Window, items, source, sep);
    proof {
        lemma_apply_concat(s0, e1 + e2 + e3, e4, source, sep);
    }
    take_elements(member_in(doc.get("backupWorkspaces"), "folders"), ElementRule::Backup, items, source, sep);
    proof {
        lemma_apply_concat(s0, e1 + e2 + e3 + e4, e5, source, sep);
    }
    take_elements(doc.get("openedPathsList"), ElementRule::Recent, items, source, sep);
    proof {
        lemma_apply_concat(s0, e1 + e2 + e3 + e4 + e5, e6, source, sep);
    }
    take_elements(doc.get("recentRoots"), ElementRule::Root, items, source, sep);
    proof {
        lemma_apply_concat(s0, e1 + e2 + e3 + e4 + e5 + e6, e7, source, sep);
        assert(e2 + e3 + e4 + e5 + e6 + e7 == later_entries(*doc));
        assert(e1 + e2 + e3 + e4 + e5 + e6 + e7 =~= e1 + (e2 + e3 + e4 + e5 + e6 + e7));
    }
}

} // verus!
