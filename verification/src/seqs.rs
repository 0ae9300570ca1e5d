//! Small sequence facts the repositories share.

use vstd::prelude::*;

verus! {

/// Every element of a filtered sequence occurs in the sequence it came from.
pub proof fn lemma_filter_sub<A>(s: Seq<A>, pred: spec_fn(A) -> bool)
    ensures
        forall|i: int|
            0 <= i < s.filter(pred).len() ==> s.contains(#[trigger] s.filter(pred)[i]),
    decreases s.len(),
{
    reveal(Seq::filter);
    if s.len() > 0 {
        let sub = s.drop_last();
        lemma_filter_sub(sub, pred);
        assert forall|i: int|
            0 <= i < s.filter(pred).len() implies s.contains(#[trigger] s.filter(pred)[i]) by {
            if i < sub.filter(pred).len() {
                assert(s.filter(pred)[i] == sub.filter(pred)[i]);
                let w = choose|w: int| 0 <= w < sub.len() && sub[w] == sub.filter(pred)[i];
                assert(s[w] == s.filter(pred)[i]);
            } else {
                assert(s.filter(pred)[i] == s.last());
                assert(s[s.len() - 1] == s.last());
            }
        }
    }
}

/// Filtering a sequence of pairwise-distinct elements leaves its elements
/// pairwise distinct.
pub proof fn lemma_filter_distinct<A>(s: Seq<A>, pred: spec_fn(A) -> bool)
    requires
        forall|a: int, b: int| 0 <= a < b < s.len() ==> s[a] != s[b],
    ensures
        forall|a: int, b: int|
            0 <= a < b < s.filter(pred).len() ==> s.filter(pred)[a] != s.filter(pred)[b],
    decreases s.len(),
{
    reveal(Seq::filter);
    if s.len() > 0 {
        let sub = s.drop_last();
        assert(forall|a: int, b: int| 0 <= a < b < sub.len() ==> sub[a] != sub[b]) by {
            assert(forall|a: int| 0 <= a < sub.len() ==> sub[a] == s[a]);
        }
        lemma_filter_distinct(sub, pred);
        lemma_filter_sub(sub, pred);
        let f = s.filter(pred);
        let fsub = sub.filter(pred);
        assert forall|a: int, b: int| 0 <= a < b < f.len() implies f[a] != f[b] by {
            if pred(s.last()) {
                assert(f == fsub.push(s.last()));
                if b < fsub.len() {
                    assert(f[a] == fsub[a] && f[b] == fsub[b]);
                } else {
                    assert(f[b] == s.last());
                    assert(f[a] == fsub[a]);
                    assert(sub.contains(fsub[a]));
                    let w = choose|w: int| 0 <= w < sub.len() && sub[w] == fsub[a];
                    assert(s[w] == fsub[a]);
                    assert(s[w] != s[s.len() - 1]);
                }
            } else {
                assert(f == fsub);
            }
        }
    }
}

} // verus!
