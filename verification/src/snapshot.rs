//! Before/after snapshot difference: the one reusable abstraction behind the
//! registry and shortcut diffing that infers an opaque installer's side
//! effects. A snapshot is an immutable list of strings; the difference keeps
//! exactly the after-entries that the before-snapshot lacks, in after-order.

use vstd::prelude::*;
use crate::text::eq_str;

verus! {

/// The entries of `after` that are not in `before`, in `after`'s order.
pub open spec fn snapshot_diff_spec(before: Seq<Seq<char>>, after: Seq<Seq<char>>) -> Seq<
    Seq<char>,
> {
    after.filter(|x: Seq<char>| !before.contains(x))
}

/// Filtering one more pushed element keeps it exactly when it passes.
pub proof fn lemma_filter_push<A>(s: Seq<A>, x: A, pred: spec_fn(A) -> bool)
    ensures
        s.push(x).filter(pred) == (if pred(x) {
            s.filter(pred).push(x)
        } else {
            s.filter(pred)
        }),
{
    reveal(Seq::filter);
    assert(s.push(x).drop_last() =~= s);
    assert(s.push(x).last() == x);
}

/// Whether some element of `v` holds exactly the characters of `s`.
pub fn contains_string(v: &Vec<String>, s: &str) -> (r: bool)
    ensures
        r == v.deep_view().contains(s@),
{
    let n = v.len();
    let mut i: usize = 0;
    while i < n
        invariant
            n == v.len(),
            i <= n,
            forall|j: int| 0 <= j < i ==> v.deep_view()[j] != s@,
        decreases n - i,
    {
        if eq_str(v[i].as_str(), s) {
            proof {
                assert(v.deep_view()[i as int] == s@);
            }
            return true;
        }
        i += 1;
    }
    proof {
        if v.deep_view().contains(s@) {
            let j = choose|j: int| 0 <= j < v.deep_view().len() && v.deep_view()[j] == s@;
            assert(v.deep_view()[j] != s@);
        }
    }
    false
}

/// The difference `after - before` of two snapshots: exactly the after
/// entries absent from before, a subset of `after` disjoint from `before`.
pub fn snapshot_diff(before: &Vec<String>, after: &Vec<String>) -> (r: Vec<String>)
    ensures
        r.deep_view() == snapshot_diff_spec(before.deep_view(), after.deep_view()),
{
    let ghost bdv = before.deep_view();
    let ghost adv = after.deep_view();
    let ghost pred = |x: Seq<char>| !bdv.contains(x);
    let n = after.len();
    let mut r: Vec<String> = Vec::new();
    let mut i: usize = 0;
    proof {
        assert(adv.take(0) =~= Seq::<Seq<char>>::empty());
        reveal(Seq::filter);
        assert(r.deep_view() =~= adv.take(0).filter(pred));
    }
    while i < n
        invariant
            n == after.len(),
            bdv == before.deep_view(),
            adv == after.deep_view(),
            pred == (|x: Seq<char>| !bdv.contains(x)),
            i <= n,
            r.deep_view() == adv.take(i as int).filter(pred),
        decreases n - i,
    {
        let ghost prev = r.deep_view();
        if !contains_string(before, after[i].as_str()) {
            r.push(after[i].clone());
            proof {
                assert(r.deep_view() =~= prev.push(adv[i as int]));
            }
        }
        proof {
            lemma_filter_push(adv.take(i as int), adv[i as int], pred);
            assert(adv.take(i as int).push(adv[i as int]) =~= adv.take(i + 1));
        }
        i += 1;
    }
    proof {
        assert(adv.take(n as int) =~= adv);
    }
    r
}

/// The computed difference is a subset of `after` and disjoint from
/// `before`, and holds exactly the after-entries missing from before.
pub proof fn lemma_snapshot_diff_properties(before: Seq<Seq<char>>, after: Seq<Seq<char>>)
    ensures
        forall|x: Seq<char>|
            #[trigger] snapshot_diff_spec(before, after).contains(x) <==> after.contains(x)
                && !before.contains(x),
{
    let pred = |x: Seq<char>| !before.contains(x);
    assert forall|x: Seq<char>| #[trigger]
        snapshot_diff_spec(before, after).contains(x) implies after.contains(x)
        && !before.contains(x) by {
        after.filter_lemma(pred);
        after.lemma_filter_contains_rev(pred, x);
        let d = snapshot_diff_spec(before, after);
        let j = choose|j: int| 0 <= j < d.len() && d[j] == x;
        assert(pred(d[j]));
    }
    assert forall|x: Seq<char>|
        after.contains(x) && !before.contains(x) implies #[trigger] snapshot_diff_spec(
        before,
        after,
    ).contains(x) by {
        after.filter_lemma(pred);
        let j = choose|j: int| 0 <= j < after.len() && after[j] == x;
        assert(pred(after[j]));
        assert(after.filter(pred).contains(after[j]));
    }
}

} // verus!
