//! The order of a scan's result: newest first (unknown times last), then by
//! source name, then by label; ties keep the order in which items were found.

use vstd::prelude::*;
use crate::text::{chars_of, chars_lt, lex_lt};
use crate::project::{RecentProjectItem, ItemView, item_views, source_rank};

verus! {

/// `a` strictly newer than `b`, an unknown time counting as the oldest.
pub open spec fn newer(a: Option<u64>, b: Option<u64>) -> bool {
    match a {
        Some(x) => match b {
            Some(y) => x > y,
            None => true,
        },
        None => false,
    }
}

/// Whether `a` belongs strictly before `b` in a scan's result.
pub open spec fn goes_before(a: ItemView, b: ItemView) -> bool {
    ||| newer(a.mtime, b.mtime)
    ||| a.mtime == b.mtime && source_rank(a.source) < source_rank(b.source)
    ||| a.mtime == b.mtime && a.source == b.source && lex_lt(a.label, b.label)
}

/// Two items that the order does not tell apart.
pub open spec fn same_rank(a: ItemView, b: ItemView) -> bool {
    a.mtime == b.mtime && a.source == b.source && a.label == b.label
}

pub open spec fn is_ordered(s: Seq<ItemView>) -> bool {
    forall|i: int, j: int| 0 <= i < j < s.len() ==> !goes_before(#[trigger] s[j], #[trigger] s[i])
}

/// `out` holds the items of `inp`, item `k` of `out` being item `perm[k]` of
/// `inp`, each taken once, and items of equal rank in the order they came in.
pub open spec fn stable_arrangement(out: Seq<ItemView>, inp: Seq<ItemView>, perm: Seq<int>) -> bool {
    &&& perm.len() == out.len()
    &&& out.len() == inp.len()
    &&& forall|k: int| 0 <= k < perm.len() ==> 0 <= #[trigger] perm[k] < inp.len() && out[k] == inp[perm[k]]
    &&& forall|k: int, l: int| 0 <= k < l < perm.len() ==> #[trigger] perm[k] != #[trigger] perm[l]
    &&& forall|k: int, l: int|
        0 <= k < l < perm.len() && same_rank(#[trigger] out[k], #[trigger] out[l]) ==> perm[k] < perm[l]
}

/// `out` is `inp` sorted stably by `goes_before`.
pub open spec fn sorted_stably(out: Seq<ItemView>, inp: Seq<ItemView>) -> bool {
    is_ordered(out) && exists|perm: Seq<int>| stable_arrangement(out, inp, perm)
}

pub proof fn lemma_lex_lt_irreflexive(a: Seq<char>)
    ensures
        !lex_lt(a, a),
    decreases a.len(),
{
    if a.len() > 0 {
        lemma_lex_lt_irreflexive(a.drop_first());
    }
}

pub proof fn lemma_lex_lt_transitive(a: Seq<char>, b: Seq<char>, c: Seq<char>)
    requires
        lex_lt(a, b),
        lex_lt(b, c),
    ensures
        lex_lt(a, c),
    decreases a.len(),
{
    if a.len() > 0 && b.len() > 0 && c.len() > 0 && a[0] == b[0] && b[0] == c[0] {
        lemma_lex_lt_transitive(a.drop_first(), b.drop_first(), c.drop_first());
    }
}

pub proof fn lemma_goes_before_irreflexive(a: ItemView)
    ensures
        !goes_before(a, a),
{
    lemma_lex_lt_irreflexive(a.label);
}

pub proof fn lemma_goes_before_transitive(a: ItemView, b: ItemView, c: ItemView)
    requires
        goes_before(a, b),
        goes_before(b, c),
    ensures
        goes_before(a, c),
{
    if a.mtime == b.mtime && b.mtime == c.mtime && a.source == b.source && b.source == c.source {
        lemma_lex_lt_transitive(a.label, b.label, c.label);
    }
}

/// Whether `a` belongs strictly before `b`, computed.
pub fn item_goes_before(a: &RecentProjectItem, b: &RecentProjectItem) -> (r: bool)
    ensures
        r == goes_before(a@, b@),
{
    match (a.mtime, b.mtime) {
        (Some(x), Some(y)) => {
            if x != y {
                return x > y;
            }
        },
        (Some(_), None) => {
            return true;
        },
        (None, Some(_)) => {
            return false;
        },
        (None, None) => {},
    }
    let ra = a.source.rank();
    let rb = b.source.rank();
    if ra != rb {
        return ra < rb;
    }
    assert(a.source == b.source);
    chars_lt(&chars_of(a.label.as_str()), &chars_of(b.label.as_str()))
}

/// Sorts a scan's result: newest first, items without a time last, then by
/// source name, then by label; items equal on all three keep their order.
pub fn sort_recent_projects(items: &mut Vec<RecentProjectItem>)
    ensures
        sorted_stably(item_views(final(items)@), item_views(old(items)@)),
{
    let ghost inp = item_views(items@);
    let n = items.len();
    let mut out: Vec<RecentProjectItem> = Vec::new();
    let ghost mut perm: Seq<int> = Seq::empty();
    let mut i: usize = 0;
    assert(inp.subrange(0, n as int) =~= inp);
    while items.len() > 0
        invariant
            n == inp.len(),
            i + items@.len() == n,
            item_views(items@) == inp.subrange(i as int, n as int),
            out@.len() == i,
            perm.len() == i,
            is_ordered(item_views(out@)),
            forall|k: int| 0 <= k < i ==> 0 <= #[trigger] perm[k] < i && item_views(out@)[k] == inp[perm[k]],
            forall|k: int, l: int| 0 <= k < l < i ==> #[trigger] perm[k] != #[trigger] perm[l],
            forall|k: int, l: int|
                0 <= k < l < i && same_rank(#[trigger] item_views(out@)[k], #[trigger] item_views(out@)[l])
                    ==> perm[k] < perm[l],
        decreases items@.len(),
    {
        let ghost olds = item_views(out@);
        let ghost pre = items@;
        let it = items.remove(0);
        assert(item_views(pre)[0] == pre[0]@);
        assert(it@ == inp[i as int]);
        assert(items@ =~= pre.subrange(1, pre.len() as int));
        assert forall|k: int| 0 <= k < items@.len() implies item_views(items@)[k] == inp.subrange(i + 1, n as int)[k] by {
            assert(item_views(pre)[k + 1] == pre[k + 1]@);
        }
        assert(item_views(items@) =~= inp.subrange(i + 1, n as int));
        let mut j: usize = 0;
        while j < out.len() && !item_goes_before(&it, &out[j])
            invariant
                j <= out@.len(),
                olds == item_views(out@),
                forall|k: int| 0 <= k < j ==> !goes_before(it@, #[trigger] olds[k]),
            decreases out@.len() - j,
        {
            j = j + 1;
        }
        let ghost jj = j as int;
        proof {
            if j < out@.len() {
                assert(goes_before(it@, olds[jj]));
            }
        }
        out.insert(j, it);
        let ghost news = item_views(out@);
        assert(news =~= olds.insert(jj, it@));
        let ghost oldp = perm;
        proof {
            perm = perm.insert(jj, i as int);
        }
        assert forall|a: int, b: int| 0 <= a < b < news.len() implies !goes_before(#[trigger] news[b], #[trigger] news[a]) by {
            if a < jj && b < jj {
                assert(news[a] == olds[a] && news[b] == olds[b]);
            } else if a < jj && b == jj {
                assert(news[a] == olds[a]);
            } else if a < jj && b > jj {
                assert(news[a] == olds[a] && news[b] == olds[b - 1]);
            } else if a == jj {
                assert(news[b] == olds[b - 1]);
                if goes_before(news[b], news[a]) {
                    lemma_goes_before_transitive(olds[b - 1], it@, olds[jj]);
                    if b - 1 == jj {
                        lemma_goes_before_irreflexive(olds[jj]);
                    }
                }
            } else {
                assert(news[a] == olds[a - 1] && news[b] == olds[b - 1]);
            }
        }
        assert forall|k: int| 0 <= k < i + 1 implies 0 <= #[trigger] perm[k] < i + 1 && news[k] == inp[perm[k]] by {
            if k < jj {
                assert(perm[k] == oldp[k]);
            } else if k > jj {
                assert(perm[k] == oldp[k - 1]);
            }
        }
        assert forall|k: int, l: int| 0 <= k < l < i + 1 implies #[trigger] perm[k] != #[trigger] perm[l] by {
            if k < jj && l > jj {
                assert(perm[k] == oldp[k] && perm[l] == oldp[l - 1]);
            } else if k > jj {
                assert(perm[k] == oldp[k - 1] && perm[l] == oldp[l - 1]);
            } else if l < jj {
                assert(perm[k] == oldp[k] && perm[l] == oldp[l]);
            } else if k == jj {
                assert(perm[l] == oldp[l - 1]);
            } else {
                assert(perm[k] == oldp[k]);
            }
        }
        assert forall|k: int, l: int|
            0 <= k < l < i + 1 && same_rank(#[trigger] news[k], #[trigger] news[l]) implies perm[k] < perm[l] by {
            if k < jj && l > jj {
                assert(perm[k] == oldp[k] && perm[l] == oldp[l - 1]);
                assert(news[k] == olds[k] && news[l] == olds[l - 1]);
            } else if k > jj {
                assert(perm[k] == oldp[k - 1] && perm[l] == oldp[l - 1]);
                assert(news[k] == olds[k - 1] && news[l] == olds[l - 1]);
            } else if l < jj {
                assert(perm[k] == oldp[k] && perm[l] == oldp[l]);
                assert(news[k] == olds[k] && news[l] == olds[l]);
            } else if k == jj {
                assert(news[l] == olds[l - 1]);
                assert(goes_before(it@, olds[jj]));
                assert(goes_before(olds[l - 1], olds[jj]));
                if l - 1 == jj {
                    lemma_goes_before_irreflexive(olds[jj]);
                }
            } else {
                assert(perm[k] == oldp[k]);
            }
        }
        i = i + 1;
    }
    proof {
        assert(stable_arrangement(item_views(out@), inp, perm));
    }
    *items = out;
}

} // verus!
