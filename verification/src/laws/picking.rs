//! Which elements of a list are kept.

use vstd::prelude::*;

verus! {

/// These are places in a list of this length, in its order.
pub open spec fn ascending(order: Seq<int>, len: nat) -> bool {
    &&& forall|k: int| 0 <= k < order.len() ==> 0 <= #[trigger] order[k] < len
    &&& forall|j: int, k: int|
        0 <= j < k < order.len() ==> #[trigger] order[j] < #[trigger] order[k]
}

/// The places of the elements that a filter keeps.
pub proof fn lemma_kept<A>(s: Seq<A>, f: spec_fn(A) -> bool) -> (order: Seq<int>)
    ensures
        ascending(order, s.len()),
        order.len() == s.filter(f).len(),
        forall|k: int| 0 <= k < order.len() ==> s.filter(f)[k] == s[#[trigger] order[k]],
        forall|k: int| 0 <= k < order.len() ==> f(s[#[trigger] order[k]]),
        forall|i: int| 0 <= i < s.len() && f(s[i]) ==> #[trigger] order.contains(i),
        forall|i: int| #[trigger] order.contains(i) ==> 0 <= i < s.len() && f(s[i]),
    decreases s.len(),
{
    reveal(Seq::filter);
    if s.len() == 0 {
        Seq::empty()
    } else {
        let front = s.drop_last();
        let before = lemma_kept(front, f);
        let last = s.len() - 1;
        if f(s.last()) {
            let order = before.push(last);
            assert forall|k: int| 0 <= k < order.len() implies s.filter(f)[k] == s[#[trigger] order[k]]
                && f(s[order[k]]) by {
                if k < before.len() {
                    assert(order[k] == before[k]);
                }
            }
            assert forall|i: int| 0 <= i < s.len() && f(s[i]) implies #[trigger] order.contains(
                i,
            ) by {
                if i < last {
                    assert(f(front[i]));
                    assert(before.contains(i));
                    let k = choose|k: int| 0 <= k < before.len() && before[k] == i;
                    assert(order[k] == i);
                } else {
                    assert(order[before.len() as int] == i);
                }
            }
            order
        } else {
            assert forall|k: int| 0 <= k < before.len() implies s.filter(f)[k] == s[#[trigger] before[k]]
                && f(s[before[k]]) by {
                assert(front[before[k]] == s[before[k]]);
            }
            assert forall|i: int| 0 <= i < s.len() && f(s[i]) implies #[trigger] before.contains(
                i,
            ) by {
                assert(f(front[i]));
            }
            before
        }
    }
}

} // verus!
