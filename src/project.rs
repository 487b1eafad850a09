//! The recent-project item, its abstract view, label inference and the
//! de-duplicating insertion that every source goes through.

use vstd::prelude::*;
use crate::text::{chars_of, string_of, slice_chars, same_text};

verus! {

/// Whether a recent entry is a plain directory or a multi-root workspace file.
#[derive(Clone, Copy, Debug, PartialEq, Eq, Structural)]
pub enum ProjectKind {
    Folder,
    Workspace,
}

/// The editor whose history recorded an entry.
#[derive(Clone, Copy, Debug, PartialEq, Eq, Structural)]
pub enum EditorSource {
    Vscode,
    Trae,
    Qoder,
    Idea,
    Webstorm,
    Pycharm,
}

impl ProjectKind {
    /// The kind's name: `folder` or `workspace`.
    pub fn name(&self) -> (r: String)
        ensures
            r@ == kind_name(*self),
    {
        match self {
            ProjectKind::Folder => String::from_str("folder"),
            ProjectKind::Workspace => String::from_str("workspace"),
        }
    }
}

impl EditorSource {
    /// The source's name, in lower case (`vscode`, `idea`, ...).
    pub fn name(&self) -> (r: String)
        ensures
            r@ == source_name(*self),
    {
        match self {
            EditorSource::Vscode => String::from_str("vscode"),
            EditorSource::Trae => String::from_str("trae"),
            EditorSource::Qoder => String::from_str("qoder"),
            EditorSource::Idea => String::from_str("idea"),
            EditorSource::Webstorm => String::from_str("webstorm"),
            EditorSource::Pycharm => String::from_str("pycharm"),
        }
    }

    /// The position of the source's name in alphabetical order.
    pub fn rank(&self) -> (r: u8)
        ensures
            r as int == source_rank(*self),
    {
        match self {
            EditorSource::Idea => 0,
            EditorSource::Pycharm => 1,
            EditorSource::Qoder => 2,
            EditorSource::Trae => 3,
            EditorSource::Vscode => 4,
            EditorSource::Webstorm => 5,
        }
    }
}

pub open spec fn kind_name(k: ProjectKind) -> Seq<char> {
    match k {
        ProjectKind::Folder => "folder"@,
        ProjectKind::Workspace => "workspace"@,
    }
}

pub open spec fn source_name(s: EditorSource) -> Seq<char> {
    match s {
        EditorSource::Vscode => "vscode"@,
        EditorSource::Trae => "trae"@,
        EditorSource::Qoder => "qoder"@,
        EditorSource::Idea => "idea"@,
        EditorSource::Webstorm => "webstorm"@,
        EditorSource::Pycharm => "pycharm"@,
    }
}

/// Sources ordered by name: idea, pycharm, qoder, trae, vscode, webstorm.
pub open spec fn source_rank(s: EditorSource) -> int {
    match s {
        EditorSource::Idea => 0,
        EditorSource::Pycharm => 1,
        EditorSource::Qoder => 2,
        EditorSource::Trae => 3,
        EditorSource::Vscode => 4,
        EditorSource::Webstorm => 5,
    }
}

/// One project that an editor opened recently.
#[derive(Debug)]
pub struct RecentProjectItem {
    /// Display name: the entry's own label, else the path's last segment.
    pub label: String,
    /// Native absolute path; with `source` it identifies the item.
    pub path: String,
    pub kind: ProjectKind,
    /// Last modification, in seconds since the Unix epoch; `None` when the
    /// path is gone or its metadata cannot be read.
    pub mtime: Option<u64>,
    pub source: EditorSource,
}

/// The abstract value of an item.
pub struct ItemView {
    pub label: Seq<char>,
    pub path: Seq<char>,
    pub kind: ProjectKind,
    pub mtime: Option<u64>,
    pub source: EditorSource,
}

impl View for RecentProjectItem {
    type V = ItemView;

    open spec fn view(&self) -> ItemView {
        ItemView {
            label: self.label@,
            path: self.path@,
            kind: self.kind,
            mtime: self.mtime,
            source: self.source,
        }
    }
}

pub open spec fn item_views(s: Seq<RecentProjectItem>) -> Seq<ItemView> {
    s.map_values(|it: RecentProjectItem| it@)
}

/// `p` without what ends it and names no file: separators, and `.`
/// segments after a separator.
pub open spec fn trim_trailing(p: Seq<char>, sep: char) -> Seq<char>
    decreases p.len(),
{
    if p.len() > 0 && p.last() == sep {
        trim_trailing(p.drop_last(), sep)
    } else if p.len() >= 2 && p.last() == '.' && p[p.len() - 2] == sep {
        trim_trailing(p.drop_last(), sep)
    } else {
        p
    }
}

/// What follows the last separator of `p`.
pub open spec fn last_segment(p: Seq<char>, sep: char) -> Seq<char>
    decreases p.len(),
{
    if p.len() == 0 || p.last() == sep {
        Seq::empty()
    } else {
        last_segment(p.drop_last(), sep).push(p.last())
    }
}

/// The label inferred for a path: its final segment, trailing separators
/// and `.` segments ignored; the whole path when that segment is empty, `.`
/// or `..`, as with `Path::file_name`.
pub open spec fn inferred_label(p: Seq<char>, sep: char) -> Seq<char> {
    let seg = last_segment(trim_trailing(p, sep), sep);
    if seg.len() == 0 || seg == seq!['.'] || seg == seq!['.', '.'] {
        p
    } else {
        seg
    }
}

/// The display label of a path that carries none of its own: its final
/// segment, or the whole path if it has none.
pub fn infer_label(path: &str, sep: char) -> (r: String)
    ensures
        r@ == inferred_label(path@, sep),
{
    let p = chars_of(path);
    let mut e: usize = p.len();
    assert(p@.subrange(0, e as int) =~= p@);
    while e > 0 && (p[e - 1] == sep || (e >= 2 && p[e - 1] == '.' && p[e - 2] == sep))
        invariant
            e <= p@.len(),
            trim_trailing(p@, sep) == trim_trailing(p@.subrange(0, e as int), sep),
        decreases e,
    {
        assert(p@.subrange(0, e as int).drop_last() =~= p@.subrange(0, e - 1));
        e = e - 1;
    }
    let mut b: usize = e;
    assert(p@.subrange(b as int, e as int) =~= Seq::<char>::empty());
    assert(last_segment(p@.subrange(0, e as int), sep) =~= last_segment(p@.subrange(0, b as int), sep) + p@.subrange(b as int, e as int));
    while b > 0 && p[b - 1] != sep
        invariant
            b <= e <= p@.len(),
            last_segment(p@.subrange(0, e as int), sep) == last_segment(p@.subrange(0, b as int), sep) + p@.subrange(b as int, e as int),
        decreases b,
    {
        let ghost pre = p@.subrange(0, b as int);
        assert(pre.drop_last() =~= p@.subrange(0, b - 1));
        assert(p@.subrange(b - 1, e as int) =~= seq![p@[b - 1]] + p@.subrange(b as int, e as int));
        assert(last_segment(pre, sep) == last_segment(p@.subrange(0, b - 1), sep).push(p@[b - 1]));
        assert(last_segment(pre, sep) + p@.subrange(b as int, e as int) =~= last_segment(p@.subrange(0, b - 1), sep) + p@.subrange(b - 1, e as int));
        b = b - 1;
    }
    assert(last_segment(p@.subrange(0, b as int), sep) =~= Seq::<char>::empty());
    assert(last_segment(p@.subrange(0, e as int), sep) =~= p@.subrange(b as int, e as int));
    let dots = (e - b == 1 && p[b] == '.') || (e - b == 2 && p[b] == '.' && p[b + 1] == '.');
    proof {
        let seg = p@.subrange(b as int, e as int);
        if e - b == 1 {
            if p@[b as int] == '.' {
                assert(seg =~= seq!['.']);
            } else {
                assert(seg[0] != seq!['.'][0]);
            }
            assert(seg.len() != seq!['.', '.'].len());
        } else if e - b == 2 {
            if p@[b as int] == '.' && p@[b + 1] == '.' {
                assert(seg =~= seq!['.', '.']);
            } else if p@[b as int] != '.' {
                assert(seg[0] != seq!['.', '.'][0]);
            } else {
                assert(seg[1] != seq!['.', '.'][1]);
            }
            assert(seg.len() != seq!['.'].len());
        } else {
            assert(seg.len() != 1 && seg.len() != 2);
        }
    }
    if b == e || dots {
        string_of(&p)
    } else {
        string_of(&slice_chars(&p, b, e))
    }
}

/// Whether `s` already holds an item with this path and source.
pub open spec fn has_item(s: Seq<ItemView>, path: Seq<char>, source: EditorSource) -> bool {
    exists|i: int| 0 <= i < s.len() && s[i].path == path && s[i].source == source
}

/// `s` after offering it a candidate: unchanged if an item with the same
/// path and source is there already (the first one seen wins), else with a
/// new item at the end, whose label is the candidate's own or the inferred
/// one, and whose modification time is not known yet.
pub open spec fn pushed(
    s: Seq<ItemView>,
    label: Option<Seq<char>>,
    path: Seq<char>,
    kind: ProjectKind,
    source: EditorSource,
    sep: char,
) -> Seq<ItemView> {
    if has_item(s, path, source) {
        s
    } else {
        s.push(
            ItemView {
                label: match label {
                    Some(l) => l,
                    None => inferred_label(path, sep),
                },
                path,
                kind,
                mtime: None,
                source,
            },
        )
    }
}

/// Offers a candidate to `items`: it is added unless an item with the same
/// path and source is present. The new item's `mtime` is left `None` for the
/// caller, which reads the file system, to fill in.
pub fn push_item(
    items: &mut Vec<RecentProjectItem>,
    label: Option<String>,
    path: String,
    kind: ProjectKind,
    source: EditorSource,
    sep: char,
)
    ensures
        item_views(final(items)@) == pushed(
            item_views(old(items)@),
            crate::uri::opt_chars(label),
            path@,
            kind,
            source,
            sep,
        ),
{
    let ghost before = item_views(items@);
    let ghost given = crate::uri::opt_chars(label);
    let mut i: usize = 0;
    while i < items.len()
        invariant
            items@ == old(items)@,
            before == item_views(items@),
            i <= items@.len(),
            forall|j: int| 0 <= j < i ==> !(#[trigger] before[j].path == path@ && before[j].source == source),
        decreases items@.len() - i,
    {
        if items[i].source == source && same_text(items[i].path.as_str(), path.as_str()) {
            assert(before[i as int].path == path@ && before[i as int].source == source);
            return;
        }
        i = i + 1;
    }
    let text = match label {
        Some(l) => l,
        None => infer_label(path.as_str(), sep),
    };
    items.push(RecentProjectItem { label: text, path, kind, mtime: None, source });
    assert(item_views(items@) =~= pushed(before, given, path@, kind, source, sep)) by {
        assert(!has_item(before, path@, source));
    }
}

} // verus!

verus! {

/// Ordering sources by rank is ordering them by name.
pub proof fn lemma_source_rank_is_name_order(a: EditorSource, b: EditorSource)
    ensures
        source_rank(a) < source_rank(b) <==> crate::text::lex_lt(source_name(a), source_name(b)),
{
    reveal_strlit("vscode");
    reveal_strlit("trae");
    reveal_strlit("qoder");
    reveal_strlit("idea");
    reveal_strlit("webstorm");
    reveal_strlit("pycharm");
    let x = source_name(a);
    let y = source_name(b);
    assert(x.len() > 0 && y.len() > 0);
    if a == b {
        assert(x == y);
        crate::order::lemma_lex_lt_irreflexive(x);
    } else {
        assert(x[0] != y[0]);
    }
}

} // verus!
