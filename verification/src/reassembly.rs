//! Reassembly: surviving segment paths sorted back into original cue order
//! by the ordinal recovered from each file name, and the manifest handed to
//! the engine's stream-copy concatenation.

use vstd::prelude::*;
use vstd::seq_lib::group_to_multiset_ensures;

use crate::naming::{extract_index, spec_recovered_index};

verus! {

broadcast use group_to_multiset_ensures;

/// The paths are in ascending order of their recovered ordinals.
pub open spec fn sorted_by_recovered_index(s: Seq<String>) -> bool {
    forall|i: int, j: int|
        0 <= i < j < s.len() ==> spec_recovered_index((#[trigger] s[i])@) <= spec_recovered_index(
            (#[trigger] s[j])@,
        )
}

/// The views of a sequence of paths.
pub open spec fn views_of(paths: Seq<String>) -> Seq<Seq<char>> {
    paths.map_values(|p: String| p@)
}

/// The paths whose recovered ordinal is exactly `n`, in their given order.
pub open spec fn with_index(s: Seq<String>, n: nat) -> Seq<String> {
    s.filter(|p: String| spec_recovered_index(p@) == n)
}

/// A sequence without the ordinal keeps nothing for it.
proof fn lemma_with_index_absent(s: Seq<String>, n: nat)
    requires
        forall|i: int| 0 <= i < s.len() ==> spec_recovered_index((#[trigger] s[i])@) != n,
    ensures
        with_index(s, n) == Seq::<String>::empty(),
    decreases s.len(),
{
    reveal(Seq::filter);
    if s.len() > 0 {
        assert forall|i: int|
            0 <= i < s.drop_last().len() implies spec_recovered_index(
            (#[trigger] s.drop_last()[i])@,
        ) != n by {
            assert(s.drop_last()[i] == s[i]);
        }
        lemma_with_index_absent(s.drop_last(), n);
    }
}

/// Per-ordinal selection distributes over concatenation.
proof fn lemma_with_index_add(a: Seq<String>, b: Seq<String>, n: nat)
    ensures
        with_index(a + b, n) == with_index(a, n) + with_index(b, n),
    decreases b.len(),
{
    reveal(Seq::filter);
    if b.len() == 0 {
        assert(a + b =~= a);
        assert(with_index(b, n) =~= Seq::<String>::empty());
        assert(with_index(a, n) + with_index(b, n) =~= with_index(a, n));
    } else {
        lemma_with_index_add(a, b.drop_last(), n);
        assert((a + b).drop_last() =~= a + b.drop_last());
        assert((a + b).last() == b.last());
        if spec_recovered_index(b.last()@) == n {
            assert(with_index(a + b, n) =~= (with_index(a, n) + with_index(
                b.drop_last(),
                n,
            )).push(b.last()));
            assert(with_index(b, n) =~= with_index(b.drop_last(), n).push(b.last()));
            assert(with_index(a, n) + with_index(b, n) =~= (with_index(a, n) + with_index(
                b.drop_last(),
                n,
            )).push(b.last()));
        } else {
            assert(with_index(a + b, n) =~= with_index(a, n) + with_index(b.drop_last(), n));
            assert(with_index(b, n) =~= with_index(b.drop_last(), n));
        }
    }
}

/// A single path is kept exactly for its own ordinal.
proof fn lemma_with_index_singleton(x: String, n: nat)
    ensures
        spec_recovered_index(x@) == n ==> with_index(seq![x], n) == seq![x],
        spec_recovered_index(x@) != n ==> with_index(seq![x], n) == Seq::<String>::empty(),
{
    reveal(Seq::filter);
    assert(seq![x].drop_last() =~= Seq::<String>::empty());
    assert(with_index(Seq::<String>::empty(), n) == Seq::<String>::empty());
    assert(seq![x].last() == x);
    if spec_recovered_index(x@) == n {
        assert(with_index(seq![x], n) =~= Seq::<String>::empty().push(x));
        assert(Seq::<String>::empty().push(x) =~= seq![x]);
    }
}

/// Sorts paths into ascending order of their recovered ordinals, stably: the
/// result is a rearrangement of the input, sorted, and paths with equal
/// recovered ordinals keep their input order; an input already in order
/// comes back unchanged, so sorting twice is sorting once.
pub fn sort_paths(paths: Vec<String>) -> (r: Vec<String>)
    ensures
        views_of(r@).to_multiset() == views_of(paths@).to_multiset(),
        sorted_by_recovered_index(r@),
        r@.len() == paths@.len(),
        forall|n: nat| #[trigger] with_index(r@, n) == with_index(paths@, n),
        sorted_by_recovered_index(paths@) ==> r@ == paths@,
{
    let mut rest = paths;
    let mut out: Vec<String> = Vec::new();
    let ghost all = rest@;
    proof {
        assert(views_of(out@).to_multiset().add(views_of(rest@).to_multiset()) =~= views_of(
            all,
        ).to_multiset());
        assert(rest@ =~= all.take(rest@.len() as int));
        assert(out@ =~= all.skip(all.len() as int));
        assert forall|n: nat| #[trigger] with_index(out@, n) == with_index(
            all.skip(rest@.len() as int),
            n,
        ) by {
            lemma_with_index_absent(out@, n);
            lemma_with_index_absent(all.skip(rest@.len() as int), n);
        }
    }
    while rest.len() > 0
        invariant
            views_of(out@).to_multiset().add(views_of(rest@).to_multiset()) == views_of(
                all,
            ).to_multiset(),
            sorted_by_recovered_index(out@),
            out@.len() + rest@.len() == all.len(),
            rest@ == all.take(rest@.len() as int),
            forall|n: nat| #[trigger] with_index(out@, n) == with_index(
                all.skip(rest@.len() as int),
                n,
            ),
            sorted_by_recovered_index(all) ==> out@ == all.skip(rest@.len() as int),
        decreases rest@.len(),
    {
        let ghost rest_before = rest@;
        let ghost out_before = out@;
        let ghost m = rest_before.len() as int;
        let x = rest.pop().unwrap();
        proof {
            assert(views_of(rest@).push(x@) =~= views_of(rest_before));
            assert(views_of(rest_before).to_multiset() == views_of(rest@).to_multiset().insert(
                x@,
            ));
            assert(rest@ =~= all.take(m - 1));
            assert(x == all[m - 1]);
        }
        let kx = extract_index(x.as_str());
        let mut pos: usize = 0;
        while pos < out.len() && extract_index(out[pos].as_str()) < kx
            invariant
                0 <= pos <= out@.len(),
                out@ == out_before,
                kx as nat == spec_recovered_index(x@),
                sorted_by_recovered_index(out@),
                forall|i: int|
                    0 <= i < pos ==> spec_recovered_index((#[trigger] out@[i])@) < kx as nat,
            decreases out@.len() - pos,
        {
            pos += 1;
        }
        proof {
            if pos < out@.len() {
                assert(spec_recovered_index(out@[pos as int]@) >= kx as nat);
            }
        }
        out.insert(pos, x);
        proof {
            let suffix_before = all.skip(m);
            let suffix_after = all.skip(m - 1);
            assert(suffix_after =~= seq![x] + suffix_before);
            assert(out@ == out_before.insert(pos as int, x));
            assert(views_of(out@) =~= views_of(out_before).insert(pos as int, x@));
            assert(views_of(out@).to_multiset() == views_of(out_before).to_multiset().insert(x@));
            assert(views_of(out@).to_multiset().add(views_of(rest@).to_multiset()) =~= views_of(
                out_before,
            ).to_multiset().add(views_of(rest_before).to_multiset()));
            assert forall|i: int, j: int|
                0 <= i < j < out@.len() implies spec_recovered_index((#[trigger] out@[i])@)
                <= spec_recovered_index((#[trigger] out@[j])@) by {
                if j < pos {
                    assert(out@[i] == out_before[i] && out@[j] == out_before[j]);
                } else if i < pos && j == pos {
                    assert(out@[i] == out_before[i]);
                } else if i < pos && j > pos {
                    assert(out@[i] == out_before[i] && out@[j] == out_before[j - 1]);
                    assert(spec_recovered_index(out_before[i]@) <= spec_recovered_index(
                        out_before[j - 1]@,
                    ));
                } else if i == pos {
                    assert(out@[j] == out_before[j - 1]);
                    assert(spec_recovered_index(out_before[pos as int]@) <= spec_recovered_index(
                        out_before[j - 1]@,
                    ));
                } else {
                    assert(out@[i] == out_before[i - 1] && out@[j] == out_before[j - 1]);
                }
            }
            // Stability: each ordinal's subsequence of `out` matches the
            // processed suffix of the input.
            let head = out_before.take(pos as int);
            let tail = out_before.skip(pos as int);
            assert(out_before =~= head + tail);
            assert(out@ =~= head + (seq![x] + tail));
            assert forall|n: nat| #[trigger] with_index(out@, n) == with_index(
                suffix_after,
                n,
            ) by {
                lemma_with_index_add(head, seq![x] + tail, n);
                lemma_with_index_add(seq![x], tail, n);
                lemma_with_index_add(head, tail, n);
                lemma_with_index_add(seq![x], suffix_before, n);
                lemma_with_index_singleton(x, n);
                assert(with_index(out_before, n) == with_index(suffix_before, n));
                if n == kx as nat {
                    lemma_with_index_absent(head, n);
                } else {
                }
            }
            // An input already in order is rebuilt as it was.
            if sorted_by_recovered_index(all) {
                assert(out_before == suffix_before);
                if out_before.len() > 0 {
                    assert(out_before[0] == all[m]);
                    assert(spec_recovered_index(all[m - 1]@) <= spec_recovered_index(all[m]@));
                    assert(pos == 0);
                }
                assert(out@ =~= suffix_after);
            }
        }
    }
    proof {
        assert(views_of(rest@).to_multiset().len() == 0);
        assert(views_of(out@).to_multiset() =~= views_of(all).to_multiset());
        assert(all.skip(0) =~= all);
        assert forall|n: nat| #[trigger] with_index(out@, n) == with_index(all, n) by {
            assert(with_index(out@, n) == with_index(all.skip(0), n));
        }
    }
    out
}

/// Sorts surviving segment files into original cue order; the same rule as
/// `sort_paths`, applied to the ledger's surviving output paths.
pub fn sort_files(files_names: Vec<String>) -> (r: Vec<String>)
    ensures
        views_of(r@).to_multiset() == views_of(files_names@).to_multiset(),
        sorted_by_recovered_index(r@),
        r@.len() == files_names@.len(),
        forall|n: nat| #[trigger] with_index(r@, n) == with_index(files_names@, n),
        sorted_by_recovered_index(files_names@) ==> r@ == files_names@,
{
    sort_paths(files_names)
}

/// With all recovered ordinals distinct, there is only one sorted
/// arrangement: two sorted path sequences carrying the same paths are the
/// same sequence of paths. The concatenation order therefore depends only
/// on which segments survived, never on the order they were held in.
pub proof fn lemma_sorted_arrangement_unique(a: Seq<String>, b: Seq<String>)
    requires
        sorted_by_recovered_index(a),
        sorted_by_recovered_index(b),
        views_of(a).to_multiset() == views_of(b).to_multiset(),
        forall|i: int, j: int|
            0 <= i < j < a.len() ==> spec_recovered_index((#[trigger] a[i])@)
                != spec_recovered_index((#[trigger] a[j])@),
    ensures
        views_of(a) == views_of(b),
    decreases a.len(),
{
    let va = views_of(a);
    let vb = views_of(b);
    assert(va.to_multiset().len() == vb.to_multiset().len());
    assert(va.len() == vb.len());
    if a.len() == 0 {
        assert(va =~= vb);
    } else {
        // The two heads are the same path: each head's ordinal bounds the
        // other's from below, and a's ordinals are pairwise distinct.
        assert(vb.contains(va[0])) by {
            assert(va.to_multiset().count(va[0]) > 0);
        }
        let j = choose|j: int| 0 <= j < vb.len() && vb[j] == va[0];
        assert(va.contains(vb[0])) by {
            assert(vb.to_multiset().count(vb[0]) > 0);
        }
        let i0 = choose|i: int| 0 <= i < va.len() && va[i] == vb[0];
        assert(spec_recovered_index(vb[0]) <= spec_recovered_index(vb[j]));
        assert(spec_recovered_index(va[0]) <= spec_recovered_index(va[i0]));
        assert(spec_recovered_index(va[0]) == spec_recovered_index(vb[0]));
        assert(va[0] == vb[0]) by {
            if j > 0 {
                let ij = choose|i: int| 0 <= i < va.len() && va[i] == vb[j];
                assert(va.to_multiset().count(vb[j]) > 0);
                assert(spec_recovered_index(va[ij]) == spec_recovered_index(va[0]));
                assert(spec_recovered_index(va[i0]) == spec_recovered_index(va[0]));
                assert(ij == i0 || ij == 0);
                assert(i0 == 0 || va[i0] == va[0]);
            }
        }
        // Drop the heads and recur on the tails.
        let a2 = a.drop_first();
        let b2 = b.drop_first();
        assert(views_of(a2) =~= va.remove(0));
        assert(views_of(b2) =~= vb.remove(0));
        assert(va.remove(0).to_multiset() == va.to_multiset().remove(va[0]));
        assert(vb.remove(0).to_multiset() == vb.to_multiset().remove(vb[0]));
        assert(views_of(a2).to_multiset() == views_of(b2).to_multiset());
        assert forall|i: int, j2: int|
            0 <= i < j2 < a2.len() implies spec_recovered_index((#[trigger] a2[i])@)
            != spec_recovered_index((#[trigger] a2[j2])@) by {
            assert(a2[i] == a[i + 1] && a2[j2] == a[j2 + 1]);
        }
        assert(sorted_by_recovered_index(a2)) by {
            assert forall|i: int, j2: int|
                0 <= i < j2 < a2.len() implies spec_recovered_index((#[trigger] a2[i])@)
                <= spec_recovered_index((#[trigger] a2[j2])@) by {
                assert(a2[i] == a[i + 1] && a2[j2] == a[j2 + 1]);
            }
        }
        assert(sorted_by_recovered_index(b2)) by {
            assert forall|i: int, j2: int|
                0 <= i < j2 < b2.len() implies spec_recovered_index((#[trigger] b2[i])@)
                <= spec_recovered_index((#[trigger] b2[j2])@) by {
                assert(b2[i] == b[i + 1] && b2[j2] == b[j2 + 1]);
            }
        }
        lemma_sorted_arrangement_unique(a2, b2);
        assert(va =~= vb) by {
            assert forall|k: int| 0 <= k < va.len() implies va[k] == vb[k] by {
                if k > 0 {
                    assert(views_of(a2)[k - 1] == views_of(b2)[k - 1]);
                }
            }
        }
    }
}

/// One manifest line: the path, quoted, in the engine's concat list syntax.
pub open spec fn spec_manifest_line(p: Seq<char>) -> Seq<char> {
    "file '"@ + p + "'\n"@
}

/// The whole manifest: one line per path, in order.
pub open spec fn spec_manifest_content(paths: Seq<Seq<char>>) -> Seq<char>
    decreases paths.len(),
{
    if paths.len() == 0 {
        Seq::empty()
    } else {
        spec_manifest_content(paths.drop_last()) + spec_manifest_line(paths.last())
    }
}

/// Renders the manifest listing `paths`, in order.
pub fn manifest_content(paths: &Vec<String>) -> (s: String)
    ensures
        s@ == spec_manifest_content(views_of(paths@)),
{
    let mut s = String::new();
    let mut k: usize = 0;
    while k < paths.len()
        invariant
            k <= paths@.len(),
            s@ == spec_manifest_content(views_of(paths@.take(k as int))),
        decreases paths@.len() - k,
    {
        s.append("file '");
        s.append(paths[k].as_str());
        s.append("'\n");
        proof {
            let pre = views_of(paths@.take(k as int));
            let post = views_of(paths@.take(k as int + 1));
            assert(post.drop_last() =~= pre);
            assert(post.last() == paths@[k as int]@);
            assert(s@ =~= spec_manifest_content(pre) + spec_manifest_line(paths@[k as int]@));
        }
        k += 1;
    }
    proof {
        assert(paths@.take(paths@.len() as int) =~= paths@);
    }
    s
}

} // verus!
