//! Joining path segments, and order-keeping removal of repeated entries.

use vstd::prelude::*;
use crate::text::{chars_of, string_of, same_text};

verus! {

/// `base` followed by `part`, with one separator between them unless `base`
/// is empty or already ends with one.
pub open spec fn join_path(base: Seq<char>, part: Seq<char>, sep: char) -> Seq<char> {
    if base.len() == 0 {
        part
    } else if base.last() == sep {
        base + part
    } else {
        base + seq![sep] + part
    }
}

/// `join_path` over several parts, from left to right.
pub open spec fn join_all(base: Seq<char>, parts: Seq<Seq<char>>, sep: char) -> Seq<char>
    decreases parts.len(),
{
    if parts.len() == 0 {
        base
    } else {
        join_path(join_all(base, parts.drop_last(), sep), parts.last(), sep)
    }
}

/// Appends one segment to a path.
pub fn join(base: &str, part: &str, sep: char) -> (r: String)
    ensures
        r@ == join_path(base@, part@, sep),
{
    let b = chars_of(base);
    let mut out = String::from_str(base);
    if b.len() > 0 && b[b.len() - 1] != sep {
        let s: Vec<char> = vec![sep];
        out.append(string_of(&s).as_str());
        assert(s@ =~= seq![sep]);
    }
    out.append(part);
    proof {
        if base@.len() > 0 {
            assert(base@.last() == b@[b@.len() - 1]);
        }
    }
    out
}

/// Appends several segments to a path.
pub fn join_parts(base: &str, parts: &Vec<&str>, sep: char) -> (r: String)
    ensures
        r@ == join_all(base@, parts@.map_values(|p: &str| p@), sep),
{
    let ghost views = parts@.map_values(|p: &str| p@);
    let mut out = String::from_str(base);
    let mut i: usize = 0;
    assert(views.subrange(0, 0) =~= Seq::<Seq<char>>::empty());
    while i < parts.len()
        invariant
            i <= parts@.len(),
            views == parts@.map_values(|p: &str| p@),
            out@ == join_all(base@, views.subrange(0, i as int), sep),
        decreases parts@.len() - i,
    {
        assert(views.subrange(0, i + 1).drop_last() =~= views.subrange(0, i as int));
        assert(views[i as int] == parts@[i as int]@);
        out = join(out.as_str(), parts[i], sep);
        i = i + 1;
    }
    assert(views.subrange(0, parts@.len() as int) =~= views);
    out
}

/// `s` with each element that occurred before removed: first occurrences
/// stay, in their order.
pub open spec fn dedup(s: Seq<Seq<char>>) -> Seq<Seq<char>>
    decreases s.len(),
{
    if s.len() == 0 {
        s
    } else {
        let prev = dedup(s.drop_last());
        if prev.contains(s.last()) {
            prev
        } else {
            prev.push(s.last())
        }
    }
}

pub open spec fn texts(v: Seq<String>) -> Seq<Seq<char>> {
    v.map_values(|s: String| s@)
}

/// Whether some element of `v` holds the text `t`.
pub fn contains_text(v: &Vec<String>, t: &str) -> (r: bool)
    ensures
        r == texts(v@).contains(t@),
{
    let mut i: usize = 0;
    while i < v.len()
        invariant
            i <= v@.len(),
            forall|j: int| 0 <= j < i ==> v@[j]@ != t@,
        decreases v@.len() - i,
    {
        if same_text(v[i].as_str(), t) {
            assert(texts(v@)[i as int] == t@);
            return true;
        }
        i = i + 1;
    }
    assert forall|j: int| 0 <= j < texts(v@).len() implies texts(v@)[j] != t@ by {
        assert(texts(v@)[j] == v@[j]@);
    }
    false
}

/// The list without repeated entries, first occurrences kept in order.
pub fn dedup_keep_order(list: Vec<String>) -> (r: Vec<String>)
    ensures
        texts(r@) == dedup(texts(list@)),
{
    let ghost all = texts(list@);
    let mut out: Vec<String> = Vec::new();
    let mut i: usize = 0;
    assert(all.subrange(0, 0) =~= Seq::<Seq<char>>::empty());
    assert(texts(out@) =~= Seq::<Seq<char>>::empty());
    while i < list.len()
        invariant
            i <= list@.len(),
            all == texts(list@),
            texts(out@) == dedup(all.subrange(0, i as int)),
        decreases list@.len() - i,
    {
        assert(all.subrange(0, i + 1).drop_last() =~= all.subrange(0, i as int));
        assert(all[i as int] == list@[i as int]@);
        if !contains_text(&out, list[i].as_str()) {
            let ghost before = texts(out@);
            out.push(list[i].clone());
            assert(texts(out@) =~= before.push(all[i as int]));
        }
        i = i + 1;
    }
    assert(all.subrange(0, list@.len() as int) =~= all);
    out
}

} // verus!
