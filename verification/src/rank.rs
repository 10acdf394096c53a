//! Ranking: order (address, count) entries by descending count and cut
//! the list down to the number of entries the report is to show.

use vstd::prelude::*;

verus! {

broadcast use vstd::seq_lib::group_to_multiset_ensures;

/// Entries are ordered by non-increasing count.
pub open spec fn sorted_desc(s: Seq<(u32, u64)>) -> bool {
    forall|i: int, j: int| 0 <= i < j < s.len() ==> (#[trigger] s[i]).1 >= (#[trigger] s[j]).1
}

/// Keys occur at most once over the whole sequence.
pub open spec fn distinct_keys(s: Seq<(u32, u64)>) -> bool {
    forall|i: int, j: int|
        0 <= i < s.len() && 0 <= j < s.len() && i != j ==> (#[trigger] s[i]).0 != (
        #[trigger] s[j]).0
}

/// Sort the entries by descending count (insertion sort). The result is
/// a permutation of the input; the order among equal counts is not
/// specified.
pub fn rank(entries: &Vec<(u32, u64)>) -> (r: Vec<(u32, u64)>)
    ensures
        sorted_desc(r@),
        r@.to_multiset() == entries@.to_multiset(),
{
    let mut out: Vec<(u32, u64)> = Vec::new();
    let mut idx: usize = 0;
    proof {
        assert(entries@.take(0int) =~= Seq::empty());
    }
    while idx < entries.len()
        invariant
            idx <= entries@.len(),
            sorted_desc(out@),
            out@.to_multiset() == entries@.take(idx as int).to_multiset(),
        decreases entries@.len() - idx,
    {
        let x = entries[idx];
        let mut p: usize = 0;
        while p < out.len() && out[p].1 >= x.1
            invariant
                p <= out@.len(),
                forall|k: int| 0 <= k < p ==> (#[trigger] out@[k]).1 >= x.1,
            decreases out@.len() - p,
        {
            p = p + 1;
        }
        let ghost prev = out@;
        out.insert(p, x);
        proof {
            assert(sorted_desc(out@)) by {
                assert forall|i: int, j: int| 0 <= i < j < out@.len() implies (
                #[trigger] out@[i]).1 >= (#[trigger] out@[j]).1 by {
                    if j < p {
                        assert(out@[i] == prev[i] && out@[j] == prev[j]);
                    } else if j == p {
                        assert(out@[i] == prev[i] && out@[j] == x);
                    } else if i < p {
                        assert(out@[i] == prev[i] && out@[j] == prev[j - 1]);
                    } else if i == p {
                        assert(out@[i] == x && out@[j] == prev[j - 1]);
                        assert(p < prev.len() && prev[p as int].1 < x.1);
                        assert(prev[j - 1].1 <= prev[p as int].1);
                    } else {
                        assert(out@[i] == prev[i - 1] && out@[j] == prev[j - 1]);
                    }
                }
            }
            assert(entries@.take(idx + 1) =~= entries@.take(idx as int).push(entries@[idx as int]));
        }
        idx = idx + 1;
    }
    proof {
        assert(entries@.take(entries@.len() as int) =~= entries@);
    }
    out
}

/// The first `limit` entries, or all of them when fewer.
pub fn take_top(entries: &Vec<(u32, u64)>, limit: usize) -> (r: Vec<(u32, u64)>)
    ensures
        r@ == (if limit <= entries@.len() {
            entries@.take(limit as int)
        } else {
            entries@
        }),
{
    let n = if limit <= entries.len() {
        limit
    } else {
        entries.len()
    };
    let mut r: Vec<(u32, u64)> = Vec::new();
    let mut i: usize = 0;
    proof {
        assert(entries@.take(0int) =~= Seq::empty());
    }
    while i < n
        invariant
            i <= n,
            n <= entries@.len(),
            r@ == entries@.take(i as int),
        decreases n - i,
    {
        r.push(entries[i]);
        proof {
            assert(entries@.take(i + 1) =~= entries@.take(i as int).push(entries@[i as int]));
        }
        i = i + 1;
    }
    proof {
        if limit > entries@.len() {
            assert(entries@.take(entries@.len() as int) =~= entries@);
        }
    }
    r
}

/// Cut a ranked list down for the report: all entries when `all_ips`
/// is set, at most the top five otherwise.
pub fn limit_entries(ranked: &Vec<(u32, u64)>, all_ips: bool) -> (r: Vec<(u32, u64)>)
    ensures
        all_ips ==> r@ == ranked@,
        !all_ips ==> r@ == (if ranked@.len() <= 5 {
            ranked@
        } else {
            ranked@.take(5int)
        }),
        !all_ips ==> r@.len() <= 5,
{
    if all_ips {
        take_top(ranked, ranked.len())
    } else {
        take_top(ranked, 5)
    }
}

/// A permutation of a sequence with pairwise-distinct keys again has
/// pairwise-distinct keys, holds exactly the same entries, and has the
/// same length.
pub proof fn lemma_permutation_keeps_keys(a: Seq<(u32, u64)>, b: Seq<(u32, u64)>)
    requires
        a.to_multiset() == b.to_multiset(),
        distinct_keys(a),
    ensures
        distinct_keys(b),
        b.len() == a.len(),
        forall|i: int| 0 <= i < b.len() ==> a.contains(#[trigger] b[i]),
        forall|i: int| 0 <= i < a.len() ==> b.contains(#[trigger] a[i]),
{
    assert(a.no_duplicates()) by {
        assert forall|i: int, j: int|
            0 <= i < a.len() && 0 <= j < a.len() && i != j implies a[i] != a[j] by {
            assert(a[i].0 != a[j].0);
        }
    }
    a.lemma_multiset_has_no_duplicates();
    b.lemma_multiset_has_no_duplicates_conv();
    assert(b.len() == a.len()) by {
        assert(a.to_multiset().len() == a.len());
        assert(b.to_multiset().len() == b.len());
    }
    assert forall|i: int, j: int|
        0 <= i < b.len() && 0 <= j < b.len() && i != j implies (#[trigger] b[i]).0 != (
    #[trigger] b[j]).0 by {
        if b[i].0 == b[j].0 {
            assert(b[i] != b[j]);
            assert(b.contains(b[i]) && b.contains(b[j]));
            assert(b.to_multiset().count(b[i]) > 0 && b.to_multiset().count(b[j]) > 0);
            assert(a.to_multiset().count(b[i]) > 0 && a.to_multiset().count(b[j]) > 0);
            assert(a.contains(b[i]) && a.contains(b[j]));
            let ia = choose|k: int| 0 <= k < a.len() && a[k] == b[i];
            let ja = choose|k: int| 0 <= k < a.len() && a[k] == b[j];
            assert(ia != ja);
            assert(a[ia].0 != a[ja].0);
        }
    }
    assert forall|i: int| 0 <= i < b.len() implies a.contains(#[trigger] b[i]) by {
        assert(b.contains(b[i]));
        assert(b.to_multiset().count(b[i]) > 0);
        assert(a.to_multiset().count(b[i]) > 0);
    }
    assert forall|i: int| 0 <= i < a.len() implies b.contains(#[trigger] a[i]) by {
        assert(a.contains(a[i]));
        assert(a.to_multiset().count(a[i]) > 0);
        assert(b.to_multiset().count(a[i]) > 0);
    }
}

} // verus!
