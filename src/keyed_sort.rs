//! Stable sorting of records by a text key, ascending or descending.

use vstd::prelude::*;
use crate::order::{lemma_lex_lt_irreflexive, lemma_lex_lt_transitive};
use crate::text::{chars_lt, chars_of, lex_lt};

verus! {

/// A record sorted by one of its texts.
pub trait TextKey {
    spec fn key(&self) -> Seq<char>;

    fn key_text(&self) -> (r: &String)
        ensures
            r@ == self.key(),
    ;
}

/// Whether `a` belongs strictly before `b`.
pub open spec fn key_before<T: TextKey>(a: T, b: T, descending: bool) -> bool {
    if descending {
        lex_lt(b.key(), a.key())
    } else {
        lex_lt(a.key(), b.key())
    }
}

pub open spec fn key_ordered<T: TextKey>(s: Seq<T>, descending: bool) -> bool {
    forall|i: int, j: int| 0 <= i < j < s.len() ==> !key_before(#[trigger] s[j], #[trigger] s[i], descending)
}

/// `out` holds the records of `inp`, record `k` of `out` being record
/// `perm[k]` of `inp`, each taken once, records with equal keys in the
/// order they came in.
pub open spec fn key_arrangement<T: TextKey>(out: Seq<T>, inp: Seq<T>, perm: Seq<int>) -> bool {
    &&& perm.len() == out.len()
    &&& out.len() == inp.len()
    &&& forall|k: int| 0 <= k < perm.len() ==> 0 <= #[trigger] perm[k] < inp.len() && out[k] == inp[perm[k]]
    &&& forall|k: int, l: int| 0 <= k < l < perm.len() ==> #[trigger] perm[k] != #[trigger] perm[l]
    &&& forall|k: int, l: int|
        0 <= k < l < perm.len() && (#[trigger] out[k]).key() == (#[trigger] out[l]).key() ==> perm[k] < perm[l]
}

pub open spec fn sorted_by_key<T: TextKey>(out: Seq<T>, inp: Seq<T>, descending: bool) -> bool {
    key_ordered(out, descending) && exists|perm: Seq<int>| key_arrangement(out, inp, perm)
}

proof fn lemma_key_before_transitive<T: TextKey>(a: T, b: T, c: T, descending: bool)
    requires
        key_before(a, b, descending),
        key_before(b, c, descending),
    ensures
        key_before(a, c, descending),
{
    if descending {
        lemma_lex_lt_transitive(c.key(), b.key(), a.key());
    } else {
        lemma_lex_lt_transitive(a.key(), b.key(), c.key());
    }
}

fn record_before<T: TextKey>(a: &T, b: &T, descending: bool) -> (r: bool)
    ensures
        r == key_before(*a, *b, descending),
{
    let x = chars_of(a.key_text().as_str());
    let y = chars_of(b.key_text().as_str());
    if descending {
        chars_lt(&y, &x)
    } else {
        chars_lt(&x, &y)
    }
}

/// Sorts records by their key, stably.
pub fn sort_by_text_key<T: TextKey>(v: &mut Vec<T>, descending: bool)
    ensures
        sorted_by_key(final(v)@, old(v)@, descending),
{
    let ghost inp = v@;
    let n = v.len();
    let mut out: Vec<T> = Vec::new();
    let ghost mut perm: Seq<int> = Seq::empty();
    let mut i: usize = 0;
    assert(inp.subrange(0, n as int) =~= inp);
    while v.len() > 0
        invariant
            n == inp.len(),
            i + v@.len() == n,
            v@ == inp.subrange(i as int, n as int),
            out@.len() == i,
            perm.len() == i,
            key_ordered(out@, descending),
            forall|k: int| 0 <= k < i ==> 0 <= #[trigger] perm[k] < i && out@[k] == inp[perm[k]],
            forall|k: int, l: int| 0 <= k < l < i ==> #[trigger] perm[k] != #[trigger] perm[l],
            forall|k: int, l: int|
                0 <= k < l < i && (#[trigger] out@[k]).key() == (#[trigger] out@[l]).key() ==> perm[k] < perm[l],
        decreases v@.len(),
    {
        let ghost olds = out@;
        let it = v.remove(0);
        assert(it == inp[i as int]);
        assert(v@ =~= inp.subrange(i + 1, n as int));
        let mut j: usize = 0;
        while j < out.len() && !record_before(&it, &out[j], descending)
            invariant
                j <= out@.len(),
                olds == out@,
                forall|k: int| 0 <= k < j ==> !key_before(it, #[trigger] olds[k], descending),
            decreases out@.len() - j,
        {
            j = j + 1;
        }
        let ghost jj = j as int;
        proof {
            if j < out@.len() {
                assert(key_before(it, olds[jj], descending));
            }
        }
        out.insert(j, it);
        let ghost news = out@;
        assert(news =~= olds.insert(jj, it));
        let ghost oldp = perm;
        proof {
            perm = perm.insert(jj, i as int);
        }
        assert forall|a: int, b: int| 0 <= a < b < news.len() implies !key_before(
            #[trigger] news[b],
            #[trigger] news[a],
            descending,
        ) by {
            if a < jj && b < jj {
                assert(news[a] == olds[a] && news[b] == olds[b]);
            } else if a < jj && b == jj {
                assert(news[a] == olds[a]);
            } else if a < jj && b > jj {
                assert(news[a] == olds[a] && news[b] == olds[b - 1]);
            } else if a == jj {
                assert(news[b] == olds[b - 1]);
                if key_before(news[b], news[a], descending) {
                    lemma_key_before_transitive(olds[b - 1], it, olds[jj], descending);
                    if b - 1 == jj {
                        lemma_lex_lt_irreflexive(olds[jj].key());
                    }
                }
            } else {
                assert(news[a] == olds[a - 1] && news[b] == olds[b - 1]);
            }
        }
        assert forall|k: int| 0 <= k < i + 1 implies 0 <= #[trigger] perm[k] < i + 1 && news[k] == inp[perm[k]] by {
            if k < jj {
                assert(perm[k] == oldp[k]);
            } else if k > jj {
                assert(perm[k] == oldp[k - 1]);
            }
        }
        assert forall|k: int, l: int| 0 <= k < l < i + 1 implies #[trigger] perm[k] != #[trigger] perm[l] by {
            if k < jj && l > jj {
                assert(perm[k] == oldp[k] && perm[l] == oldp[l - 1]);
            } else if k > jj {
                assert(perm[k] == oldp[k - 1] && perm[l] == oldp[l - 1]);
            } else if l < jj {
                assert(perm[k] == oldp[k] && perm[l] == oldp[l]);
            } else if k == jj {
                assert(perm[l] == oldp[l - 1]);
            } else {
                assert(perm[k] == oldp[k]);
            }
        }
        assert forall|k: int, l: int|
            0 <= k < l < i + 1 && (#[trigger] news[k]).key() == (#[trigger] news[l]).key() implies perm[k] < perm[l] by {
            if k < jj && l > jj {
                assert(perm[k] == oldp[k] && perm[l] == oldp[l - 1]);
                assert(news[k] == olds[k] && news[l] == olds[l - 1]);
            } else if k > jj {
                assert(perm[k] == oldp[k - 1] && perm[l] == oldp[l - 1]);
                assert(news[k] == olds[k - 1] && news[l] == olds[l - 1]);
            } else if l < jj {
                assert(perm[k] == oldp[k] && perm[l] == oldp[l]);
                assert(news[k] == olds[k] && news[l] == olds[l]);
            } else if k == jj {
                assert(news[l] == olds[l - 1]);
                assert(key_before(it, olds[jj], descending));
                assert(key_before(olds[l - 1], olds[jj], descending));
                if l - 1 == jj {
                    lemma_lex_lt_irreflexive(olds[jj].key());
                }
            } else {
                assert(perm[k] == oldp[k]);
            }
        }
        i = i + 1;
    }
    proof {
        assert(key_arrangement(out@, inp, perm));
    }
    *v = out;
}

} // verus!
