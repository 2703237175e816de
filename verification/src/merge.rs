//! The merger: unions the per-query path lists into one list of distinct
//! path strings. Iteration order is not part of the contract and callers
//! must not rely on it.

use vstd::prelude::*;
use vstd::seq_lib::lemma_seq_contains_after_push;

verus! {

/// Whether the text of `needle` occurs among the strings of `v`.
fn contains_string(v: &Vec<String>, needle: &String) -> (b: bool)
    ensures
        b == v.deep_view().contains(needle@),
{
    let mut k: usize = 0;
    while k < v.len()
        invariant
            k <= v.len(),
            forall|j: int| 0 <= j < k ==> v.deep_view()[j] != needle@,
        decreases v.len() - k,
    {
        if needle.eq(&v[k]) {
            assert(v.deep_view()[k as int] == needle@);
            return true;
        }
        k += 1;
    }
    false
}

/// Union of the given path lists: the result holds each path text that
/// occurs in any of the lists, exactly once.
pub fn combine_unique(vecs: Vec<Vec<String>>) -> (res: Vec<String>)
    ensures
        res.deep_view().no_duplicates(),
        forall|p: Seq<char>|
            #[trigger] res.deep_view().contains(p) <==> exists|i: int|
                0 <= i < vecs.deep_view().len() && #[trigger] vecs.deep_view()[i].contains(p),
{
    let mut res: Vec<String> = Vec::new();
    let mut i: usize = 0;
    while i < vecs.len()
        invariant
            i <= vecs.len(),
            res.deep_view().no_duplicates(),
            forall|p: Seq<char>|
                #[trigger] res.deep_view().contains(p) <==> exists|i2: int|
                    0 <= i2 < i && #[trigger] vecs.deep_view()[i2].contains(p),
        decreases vecs.len() - i,
    {
        let mut j: usize = 0;
        while j < vecs[i].len()
            invariant
                i < vecs.len(),
                j <= vecs[i as int].len(),
                res.deep_view().no_duplicates(),
                forall|p: Seq<char>|
                    #[trigger] res.deep_view().contains(p) <==> (exists|i2: int|
                        0 <= i2 < i && #[trigger] vecs.deep_view()[i2].contains(p)) || (
                    exists|j2: int|
                        0 <= j2 < j && #[trigger] vecs.deep_view()[i as int].index(j2) == p),
            decreases vecs[i as int].len() - j,
        {
            let s = &vecs[i][j];
            let ghost prev = res.deep_view();
            assert(vecs.deep_view()[i as int][j as int] == s@);
            if !contains_string(&res, s) {
                res.push(s.clone());
                proof {
                    assert(res.deep_view() =~= prev.push(s@));
                    assert forall|p: Seq<char>| #[trigger]
                        res.deep_view().contains(p) <==> prev.contains(p) || p == s@ by {
                        lemma_seq_contains_after_push(prev, s@, p);
                    }
                    assert forall|a: int, b: int|
                        0 <= a < res.deep_view().len() && 0 <= b < res.deep_view().len() && a
                            != b implies res.deep_view()[a] != res.deep_view()[b] by {
                        if a == prev.len() {
                            assert(prev.contains(res.deep_view()[b])) by {
                                assert(prev[b] == res.deep_view()[b]);
                            }
                        } else if b == prev.len() {
                            assert(prev.contains(res.deep_view()[a])) by {
                                assert(prev[a] == res.deep_view()[a]);
                            }
                        }
                    }
                }
            }
            j += 1;
        }
        proof {
            assert forall|p: Seq<char>| #[trigger]
                res.deep_view().contains(p) <==> exists|i2: int|
                    0 <= i2 < i + 1 && #[trigger] vecs.deep_view()[i2].contains(p) by {
                assert(vecs.deep_view()[i as int].len() == j);
                if res.deep_view().contains(p) {
                    if exists|j2: int|
                        0 <= j2 < j && #[trigger] vecs.deep_view()[i as int].index(j2) == p {
                        let j2 = choose|j2: int|
                            0 <= j2 < j && #[trigger] vecs.deep_view()[i as int].index(j2) == p;
                        assert(vecs.deep_view()[i as int].contains(p));
                    }
                } else {
                    if exists|i2: int| 0 <= i2 < i + 1 && #[trigger] vecs.deep_view()[i2].contains(
                        p,
                    ) {
                        let i2 = choose|i2: int|
                            0 <= i2 < i + 1 && #[trigger] vecs.deep_view()[i2].contains(p);
                        if i2 == i {
                            let j2 = choose|j2: int|
                                0 <= j2 < vecs.deep_view()[i as int].len()
                                    && vecs.deep_view()[i as int][j2] == p;
                            assert(0 <= j2 < j && vecs.deep_view()[i as int].index(j2) == p);
                        }
                    }
                }
            }
        }
        i += 1;
    }
    res
}

} // verus!
