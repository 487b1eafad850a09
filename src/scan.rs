//! Locating each editor's storage file, and the scan that merges what every
//! source contributes.

use vstd::prelude::*;
use crate::json::Json;
use crate::paths::{join_all, join_parts, texts};
use crate::project::{EditorSource, RecentProjectItem, ItemView, item_views};
use crate::editor_json::{editor_items, parse_editor_json};
use crate::jetbrains::{apply_paths, xml_paths, string_views, parse_jetbrains_xml};

verus! {

/// Why a scan failed.
#[derive(Debug)]
pub enum ScanError {
    /// The storage file that the caller named for a source does not exist.
    ConfigNotFound { source: EditorSource, path: String },
}

/// What a missing storage file of `source` is called in messages.
pub open spec fn storage_label(source: EditorSource) -> Seq<char> {
    match source {
        EditorSource::Vscode => "storage.json"@,
        EditorSource::Trae => "Trae storage.json"@,
        EditorSource::Qoder => "Qoder storage.json"@,
        EditorSource::Idea => "IDEA recentProjects.xml"@,
        EditorSource::Webstorm => "WebStorm recentProjects.xml"@,
        EditorSource::Pycharm => "PyCharm recentProjects.xml"@,
    }
}

fn storage_label_of(source: EditorSource) -> (r: &'static str)
    ensures
        r@ == storage_label(source),
{
    match source {
        EditorSource::Vscode => "storage.json",
        EditorSource::Trae => "Trae storage.json",
        EditorSource::Qoder => "Qoder storage.json",
        EditorSource::Idea => "IDEA recentProjects.xml",
        EditorSource::Webstorm => "WebStorm recentProjects.xml",
        EditorSource::Pycharm => "PyCharm recentProjects.xml",
    }
}

pub open spec fn not_found_message(source: EditorSource, path: Seq<char>) -> Seq<char> {
    "指定的 "@ + storage_label(source) + " 不存在: "@ + path
}

impl ScanError {
    /// A sentence for the user, naming the missing file.
    pub fn message(&self) -> (r: String)
        ensures
            match self {
                ScanError::ConfigNotFound { source, path } => r@ == not_found_message(*source, path@),
            },
    {
        match self {
            ScanError::ConfigNotFound { source, path } => {
                let mut m = String::from_str("指定的 ");
                m.append(storage_label_of(*source));
                m.append(" 不存在: ");
                m.append(path.as_str());
                m
            },
        }
    }
}

/// The directory of a VS Code-family editor under the user data directory.
pub open spec fn vendor_dir(source: EditorSource) -> Option<Seq<char>> {
    match source {
        EditorSource::Vscode => Some("Code"@),
        EditorSource::Trae => Some("Trae"@),
        EditorSource::Qoder => Some("Qoder"@),
        _ => None,
    }
}

/// Where a VS Code-family editor keeps its `storage.json` under `data`: the
/// current place first, then the older one. None for the JetBrains family.
pub open spec fn storage_candidates(source: EditorSource, data: Seq<char>, sep: char) -> Seq<Seq<char>> {
    match vendor_dir(source) {
        Some(v) => seq![
            join_all(data, seq![v, "User"@, "globalStorage"@, "storage.json"@], sep),
            join_all(data, seq![v, "User"@, "storage.json"@], sep),
        ],
        None => Seq::empty(),
    }
}

/// The places to look for the `storage.json` of a VS Code-family editor,
/// in order of preference, under the user data directory `data_dir`.
pub fn editor_storage_candidates(source: EditorSource, data_dir: &str, sep: char) -> (r: Vec<String>)
    ensures
        texts(r@) == storage_candidates(source, data_dir@, sep),
{
    let vendor = match source {
        EditorSource::Vscode => "Code",
        EditorSource::Trae => "Trae",
        EditorSource::Qoder => "Qoder",
        _ => {
            let r: Vec<String> = Vec::new();
            assert(texts(r@) =~= Seq::<Seq<char>>::empty());
            return r;
        },
    };
    let current: Vec<&str> = vec![vendor, "User", "globalStorage", "storage.json"];
    let older: Vec<&str> = vec![vendor, "User", "storage.json"];
    assert(current@.map_values(|p: &str| p@) =~= seq![vendor@, "User"@, "globalStorage"@, "storage.json"@]);
    assert(older@.map_values(|p: &str| p@) =~= seq![vendor@, "User"@, "storage.json"@]);
    let r = vec![join_parts(data_dir, &current, sep), join_parts(data_dir, &older, sep)];
    assert(texts(r@) =~= storage_candidates(source, data_dir@, sep));
    r
}

/// The first candidate that is marked as existing.
pub open spec fn first_marked(cs: Seq<(String, bool)>) -> Option<Seq<char>>
    decreases cs.len(),
{
    if cs.len() == 0 {
        None
    } else if cs[0].1 {
        Some(cs[0].0@)
    } else {
        first_marked(cs.drop_first())
    }
}

pub open spec fn opt_view(r: Option<String>) -> Option<Seq<char>> {
    match r {
        Some(s) => Some(s@),
        None => None,
    }
}

/// The first of `candidates` whose flag says that it exists.
pub fn first_existing(candidates: &Vec<(String, bool)>) -> (r: Option<String>)
    ensures
        opt_view(r) == first_marked(candidates@),
{
    let mut i: usize = 0;
    assert(candidates@.subrange(0, candidates@.len() as int) =~= candidates@);
    while i < candidates.len()
        invariant
            i <= candidates@.len(),
            first_marked(candidates@) == first_marked(candidates@.subrange(i as int, candidates@.len() as int)),
        decreases candidates@.len() - i,
    {
        let ghost rest = candidates@.subrange(i as int, candidates@.len() as int);
        assert(rest[0] == candidates@[i as int]);
        if candidates[i].1 {
            return Some(candidates[i].0.clone());
        }
        assert(rest.drop_first() =~= candidates@.subrange(i + 1, candidates@.len() as int));
        i = i + 1;
    }
    None
}

/// The storage file to read for a source: the caller's own path if it gave
/// one and it exists, an error if it gave one that does not exist, else what
/// was found in the default places (possibly nothing).
pub fn resolve_storage(
    source: EditorSource,
    override_path: Option<String>,
    override_exists: bool,
    discovered: Option<String>,
) -> (r: Result<Option<String>, ScanError>)
    ensures
        match override_path {
            Some(p) => if override_exists {
                r == Ok::<Option<String>, ScanError>(Some(p))
            } else {
                r == Err::<Option<String>, ScanError>(ScanError::ConfigNotFound { source, path: p })
            },
            None => r == Ok::<Option<String>, ScanError>(discovered),
        },
{
    match override_path {
        Some(p) => if override_exists {
            Ok(Some(p))
        } else {
            Err(ScanError::ConfigNotFound { source, path: p })
        },
        None => Ok(discovered),
    }
}

/// What was read from a source's storage file.
pub enum SourceDocument {
    /// No file, or one that could not be read or parsed: nothing to add.
    Unavailable,
    /// A VS Code-family `storage.json`.
    Editor(Json),
    /// A JetBrains `recentProjects.xml`, with the entry paths found on disk.
    JetBrains { content: String, present: Vec<String> },
}

/// One source of a scan.
pub struct SourceScan {
    pub source: EditorSource,
    /// The storage file that the caller named, if any.
    pub override_path: Option<String>,
    /// Whether that file exists.
    pub override_exists: bool,
    pub document: SourceDocument,
}

pub open spec fn missing_override(s: SourceScan) -> bool {
    s.override_path is Some && !s.override_exists
}

/// `s` after the contribution of one source.
pub open spec fn contribute(s: Seq<ItemView>, scan: SourceScan, sep: char) -> Seq<ItemView> {
    match scan.document {
        SourceDocument::Unavailable => s,
        SourceDocument::Editor(doc) => editor_items(s, doc, scan.source, sep),
        SourceDocument::JetBrains { content, present } => apply_paths(
            s,
            xml_paths(content@, sep),
            string_views(present@),
            scan.source,
            sep,
        ),
    }
}

/// The items of all sources, in their order, before sorting.
pub open spec fn scan_items(ss: Seq<SourceScan>, sep: char) -> Seq<ItemView>
    decreases ss.len(),
{
    if ss.len() == 0 {
        Seq::empty()
    } else {
        contribute(scan_items(ss.drop_last(), sep), ss.last(), sep)
    }
}

/// Merges what every source contributes, in order, each item offered to
/// those before it (see `push_item`). Any source whose named storage file is
/// missing fails the whole scan, the first such source giving the error, and
/// no item is returned. Modification times are left for the caller to fill
/// in, and the order for `sort_recent_projects` to settle.
pub fn collect_recent_projects(scans: &Vec<SourceScan>, sep: char) -> (r: Result<Vec<RecentProjectItem>, ScanError>)
    ensures
        r is Err <==> exists|i: int| 0 <= i < scans@.len() && missing_override(#[trigger] scans@[i]),
        r matches Err(ScanError::ConfigNotFound { source, path }) ==> exists|i: int|
            0 <= i < scans@.len() && missing_override(#[trigger] scans@[i])
                && (forall|j: int| 0 <= j < i ==> !missing_override(#[trigger] scans@[j]))
                && source == scans@[i].source && scans@[i].override_path == Some(path),
        r matches Ok(v) ==> item_views(v@) == scan_items(scans@, sep),
{
    let mut i: usize = 0;
    while i < scans.len()
        invariant
            i <= scans@.len(),
            forall|j: int| 0 <= j < i ==> !missing_override(#[trigger] scans@[j]),
        decreases scans@.len() - i,
    {
        match &scans[i].override_path {
            Some(p) => {
                if !scans[i].override_exists {
                    let e = ScanError::ConfigNotFound { source: scans[i].source, path: p.clone() };
                    assert(missing_override(scans@[i as int]));
                    return Err(e);
                }
            },
            None => {},
        }
        i = i + 1;
    }
    let mut items: Vec<RecentProjectItem> = Vec::new();
    let mut k: usize = 0;
    assert(item_views(items@) =~= Seq::<ItemView>::empty());
    assert(scans@.subrange(0, 0) =~= Seq::<SourceScan>::empty());
    while k < scans.len()
        invariant
            k <= scans@.len(),
            item_views(items@) == scan_items(scans@.subrange(0, k as int), sep),
        decreases scans@.len() - k,
    {
        let scan = &scans[k];
        assert(scans@.subrange(0, k + 1).drop_last() =~= scans@.subrange(0, k as int));
        match &scan.document {
            SourceDocument::Unavailable => {},
            SourceDocument::Editor(doc) => parse_editor_json(doc, scan.source, sep, &mut items),
            SourceDocument::JetBrains { content, present } => parse_jetbrains_xml(
                content.as_str(),
                scan.source,
                sep,
                present,
                &mut items,
            ),
        }
        k = k + 1;
    }
    assert(scans@.subrange(0, scans@.len() as int) =~= scans@);
    Ok(items)
}

} // verus!
