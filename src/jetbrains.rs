//! Recent projects in a JetBrains `recentProjects.xml`. The file is scanned
//! for text, not parsed as XML: the `additionalInfo` option's map is found,
//! and inside it every `<entry key="...">` in turn.

use vstd::prelude::*;
use crate::text::{chars_of, string_of, slice_chars, replace_chars, find_chars, find_from, occurs_at, replace_char, same_text};
use crate::project::{ProjectKind, EditorSource, RecentProjectItem, ItemView, item_views, pushed, push_item};

verus! {

pub proof fn lemma_find_from_bounds(s: Seq<char>, pat: Seq<char>, from: int)
    ensures
        find_from(s, pat, from) matches Some(i) ==> from <= i && i + pat.len() <= s.len() && occurs_at(s, pat, i),
    decreases s.len() + 1 - from,
{
    if !(from < 0 || from + pat.len() > s.len()) && !occurs_at(s, pat, from) {
        lemma_find_from_bounds(s, pat, from + 1);
    }
}

/// The text between the `<map>` that follows `<option name="additionalInfo">`
/// and the next `</map>`; `None` where one of the three is missing.
pub open spec fn map_body(c: Seq<char>) -> Option<Seq<char>> {
    match find_from(c, "<option name=\"additionalInfo\">"@, 0) {
        None => None,
        Some(a) => match find_from(c, "<map>"@, a) {
            None => None,
            Some(m) => {
                let start = m + "<map>"@.len();
                match find_from(c, "</map>"@, start) {
                    None => None,
                    Some(e) => Some(c.subrange(start, e)),
                }
            },
        },
    }
}

/// The keys of the `<entry key="...">` tags of `m` from `pos` on, each key
/// running to the next `"`. The scan stops at the first tag without one.
pub open spec fn entry_keys(m: Seq<char>, pos: int) -> Seq<Seq<char>>
    decreases m.len() + 1 - pos,
{
    match find_from(m, "<entry key=\""@, pos) {
        None => Seq::empty(),
        Some(k) => {
            let start = k + "<entry key=\""@.len();
            match find_from(m, seq!['"'], start) {
                None => Seq::empty(),
                Some(q) => if pos < q + 1 && q < m.len() {
                    seq![m.subrange(start, q)] + entry_keys(m, q + 1)
                } else {
                    Seq::empty()
                },
            }
        },
    }
}

/// The keys of the recent-project entries of a `recentProjects.xml`.
pub open spec fn xml_keys(c: Seq<char>) -> Seq<Seq<char>> {
    match map_body(c) {
        None => Seq::empty(),
        Some(m) => entry_keys(m, 0),
    }
}

/// The paths of the entries, with `sep` as separator.
pub open spec fn xml_paths(c: Seq<char>, sep: char) -> Seq<Seq<char>> {
    xml_keys(c).map_values(|k: Seq<char>| replace_char(k, '/', sep))
}

pub open spec fn string_views(v: Seq<String>) -> Seq<Seq<char>> {
    v.map_values(|s: String| s@)
}

/// `s` after offering it, as folders, the paths among `paths` that are in
/// `present`.
pub open spec fn apply_paths(
    s: Seq<ItemView>,
    paths: Seq<Seq<char>>,
    present: Seq<Seq<char>>,
    source: EditorSource,
    sep: char,
) -> Seq<ItemView>
    decreases paths.len(),
{
    if paths.len() == 0 {
        s
    } else {
        let prev = apply_paths(s, paths.drop_last(), present, source, sep);
        if present.contains(paths.last()) {
            pushed(prev, None, paths.last(), ProjectKind::Folder, source, sep)
        } else {
            prev
        }
    }
}

/// The text of `c` from `lo` to `hi`, as a `String`.
fn piece(c: &Vec<char>, lo: usize, hi: usize) -> (r: String)
    requires
        lo <= hi <= c@.len(),
    ensures
        r@ == c@.subrange(lo as int, hi as int),
{
    string_of(&slice_chars(c, lo, hi))
}

/// The keys of the recent-project entries of a `recentProjects.xml`, raw.
pub fn jetbrains_entry_keys(content: &str) -> (r: Vec<String>)
    ensures
        string_views(r@) == xml_keys(content@),
{
    let c = chars_of(content);
    let clen = c.len();
    let mut out: Vec<String> = Vec::new();
    let option_tag = chars_of("<option name=\"additionalInfo\">");
    let map_open = chars_of("<map>");
    let map_close = chars_of("</map>");
    let a = match find_chars(&c, &option_tag, 0) {
        Some(a) => a,
        None => {
            assert(string_views(out@) =~= Seq::<Seq<char>>::empty());
            return out;
        },
    };
    proof {
        lemma_find_from_bounds(c@, option_tag@, 0);
    }
    let m = match find_chars(&c, &map_open, a) {
        Some(m) => m,
        None => {
            assert(string_views(out@) =~= Seq::<Seq<char>>::empty());
            return out;
        },
    };
    proof {
        lemma_find_from_bounds(c@, map_open@, a as int);
    }
    let start = m + map_open.len();
    let e = match find_chars(&c, &map_close, start) {
        Some(e) => e,
        None => {
            assert(string_views(out@) =~= Seq::<Seq<char>>::empty());
            return out;
        },
    };
    proof {
        lemma_find_from_bounds(c@, map_close@, start as int);
    }
    let body = slice_chars(&c, start, e);
    let blen = body.len();
    assert(map_body(content@) == Some(body@));
    let entry_tag = chars_of("<entry key=\"");
    let quote: Vec<char> = vec!['"'];
    assert(quote@ =~= seq!['"']);
    let mut pos: usize = 0;
    assert(string_views(out@) + entry_keys(body@, 0) =~= entry_keys(body@, 0));
    loop
        invariant
            pos <= body@.len() + 1,
            blen == body@.len(),
            xml_keys(content@) == entry_keys(body@, 0),
            entry_tag@ == "<entry key=\""@,
            quote@ == seq!['"'],
            string_views(out@) + entry_keys(body@, pos as int) == entry_keys(body@, 0),
        decreases body@.len() + 1 - pos,
    {
        let k = match find_chars(&body, &entry_tag, pos) {
            Some(k) => k,
            None => {
                assert(entry_keys(body@, pos as int) =~= Seq::<Seq<char>>::empty());
                assert(string_views(out@) =~= string_views(out@) + entry_keys(body@, pos as int));
                return out;
            },
        };
        proof {
            lemma_find_from_bounds(body@, entry_tag@, pos as int);
        }
        let key_start = k + entry_tag.len();
        let q = match find_chars(&body, &quote, key_start) {
            Some(q) => q,
            None => {
                assert(entry_keys(body@, pos as int) =~= Seq::<Seq<char>>::empty());
                assert(string_views(out@) =~= string_views(out@) + entry_keys(body@, pos as int));
                return out;
            },
        };
        proof {
            lemma_find_from_bounds(body@, quote@, key_start as int);
        }
        let key = piece(&body, key_start, q);
        let ghost before = string_views(out@);
        out.push(key);
        assert(string_views(out@) =~= before.push(key@));
        assert(entry_keys(body@, pos as int) == seq![key@] + entry_keys(body@, q + 1));
        assert(string_views(out@) + entry_keys(body@, q + 1) =~= before + entry_keys(body@, pos as int));
        pos = q + 1;
    }
}

/// The paths of the recent-project entries of a `recentProjects.xml`, each
/// `/` turned into `sep`. The caller checks which of them exist.
pub fn jetbrains_entry_paths(content: &str, sep: char) -> (r: Vec<String>)
    ensures
        string_views(r@) == xml_paths(content@, sep),
{
    let keys = jetbrains_entry_keys(content);
    let mut out: Vec<String> = Vec::new();
    let mut i: usize = 0;
    while i < keys.len()
        invariant
            i <= keys@.len(),
            string_views(keys@) == xml_keys(content@),
            string_views(out@) =~= xml_paths(content@, sep).subrange(0, i as int),
        decreases keys@.len() - i,
    {
        let p = string_of(&replace_chars(&chars_of(keys[i].as_str()), '/', sep));
        assert(string_views(keys@)[i as int] == keys@[i as int]@);
        let ghost before = string_views(out@);
        out.push(p);
        assert(string_views(out@) =~= before.push(p@));
        i = i + 1;
    }
    out
}

/// Whether `path` is one of `present`.
fn is_present(path: &String, present: &Vec<String>) -> (r: bool)
    ensures
        r == string_views(present@).contains(path@),
{
    let mut i: usize = 0;
    while i < present.len()
        invariant
            i <= present@.len(),
            forall|j: int| 0 <= j < i ==> present@[j]@ != path@,
        decreases present@.len() - i,
    {
        if same_text(present[i].as_str(), path.as_str()) {
            assert(string_views(present@)[i as int] == path@);
            return true;
        }
        i = i + 1;
    }
    assert forall|j: int| 0 <= j < string_views(present@).len() implies string_views(present@)[j] != path@ by {
        assert(string_views(present@)[j] == present@[j]@);
    }
    false
}

/// Reads the recent projects of a JetBrains `recentProjects.xml` and offers
/// each to `items` as a folder of `source` (see `push_item`), but only those
/// whose path is among `present`: the paths that the caller found on disk.
/// A file without the expected structure contributes nothing.
pub fn parse_jetbrains_xml(
    content: &str,
    source: EditorSource,
    sep: char,
    present: &Vec<String>,
    items: &mut Vec<RecentProjectItem>,
)
    ensures
        item_views(final(items)@) == apply_paths(
            item_views(old(items)@),
            xml_paths(content@, sep),
            string_views(present@),
            source,
            sep,
        ),
{
    let ghost s0 = item_views(items@);
    let paths = jetbrains_entry_paths(content, sep);
    let ghost all = xml_paths(content@, sep);
    let ghost pv = string_views(present@);
    let mut i: usize = 0;
    assert(all.subrange(0, 0) =~= Seq::<Seq<char>>::empty());
    while i < paths.len()
        invariant
            i <= paths@.len(),
            string_views(paths@) == all,
            pv == string_views(present@),
            item_views(items@) == apply_paths(s0, all.subrange(0, i as int), pv, source, sep),
        decreases paths@.len() - i,
    {
        let ghost pre = all.subrange(0, i as int);
        let ghost next = all.subrange(0, i + 1);
        assert(next.drop_last() =~= pre);
        assert(next.last() == paths@[i as int]@);
        assert(apply_paths(s0, next, pv, source, sep) == (if pv.contains(next.last()) {
            pushed(apply_paths(s0, pre, pv, source, sep), None, next.last(), ProjectKind::Folder, source, sep)
        } else {
            apply_paths(s0, pre, pv, source, sep)
        }));
        let path = paths[i].clone();
        assert(path@ == next.last());
        if is_present(&path, present) {
            assert(crate::uri::opt_chars(None) == None::<Seq<char>>);
            push_item(items, None, path, ProjectKind::Folder, source, sep);
        }
        i = i + 1;
    }
    assert(all.subrange(0, all.len() as int) =~= all);
}

} // verus!
