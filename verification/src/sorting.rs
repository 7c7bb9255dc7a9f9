//! A stable order by key.

use vstd::prelude::*;

use crate::text;

verus! {

/// Something with the key that it is ordered by.
pub struct Keyed<T> {
    pub key: String,
    pub item: T,
}

/// How many of the sorted elements, from the first on, do not come after the key.
pub open spec fn place_for<T>(sorted: Seq<Keyed<T>>, key: Seq<char>) -> nat
    decreases sorted.len(),
{
    if sorted.len() == 0 {
        0
    } else if text::text_le(sorted.last().key@, key) {
        sorted.len()
    } else {
        place_for(sorted.drop_last(), key)
    }
}

/// The elements in the order of their keys, those with the same key in the order they had.
pub open spec fn in_order<T>(s: Seq<Keyed<T>>) -> Seq<Keyed<T>>
    decreases s.len(),
{
    if s.len() == 0 {
        s
    } else {
        let front = in_order(s.drop_last());
        front.insert(place_for(front, s.last().key@) as int, s.last())
    }
}

/// The keys do not descend.
pub open spec fn ascending<T>(s: Seq<Keyed<T>>) -> bool {
    forall|i: int, j: int|
        0 <= i < j < s.len() ==> text::text_le((#[trigger] s[i]).key@, (#[trigger] s[j]).key@)
}

proof fn lemma_place<T>(sorted: Seq<Keyed<T>>, key: Seq<char>)
    requires
        ascending(sorted),
    ensures
        0 <= place_for(sorted, key) <= sorted.len(),
        forall|i: int|
            0 <= i < place_for(sorted, key) ==> text::text_le((#[trigger] sorted[i]).key@, key),
        forall|i: int|
            place_for(sorted, key) <= i < sorted.len() ==> !text::text_le(
                (#[trigger] sorted[i]).key@,
                key,
            ),
    decreases sorted.len(),
{
    if sorted.len() > 0 {
        let last = sorted[sorted.len() - 1];
        if text::text_le(last.key@, key) {
            assert forall|i: int| 0 <= i < sorted.len() implies text::text_le(
                (#[trigger] sorted[i]).key@,
                key,
            ) by {
                if i < sorted.len() - 1 {
                    text::lemma_text_le_trans(sorted[i].key@, last.key@, key);
                }
            }
        } else {
            let front = sorted.drop_last();
            assert forall|i: int, j: int| 0 <= i < j < front.len() implies text::text_le(
                (#[trigger] front[i]).key@,
                (#[trigger] front[j]).key@,
            ) by {
                assert(text::text_le(sorted[i].key@, sorted[j].key@));
            }
            lemma_place(front, key);
            assert forall|i: int| 0 <= i < place_for(sorted, key) implies text::text_le(
                (#[trigger] sorted[i]).key@,
                key,
            ) by {
                assert(front[i] == sorted[i]);
            }
            assert forall|i: int| place_for(sorted, key) <= i < sorted.len() implies !text::text_le(
                (#[trigger] sorted[i]).key@,
                key,
            ) by {
                if i < front.len() {
                    assert(front[i] == sorted[i]);
                }
            }
        }
    }
}

/// The order ascends.
pub proof fn law_order_ascends<T>(s: Seq<Keyed<T>>)
    ensures
        ascending(in_order(s)),
        in_order(s).len() == s.len(),
    decreases s.len(),
{
    if s.len() > 0 {
        law_order_ascends(s.drop_last());
        let front = in_order(s.drop_last());
        let x = s.last();
        lemma_place(front, x.key@);
        let p = place_for(front, x.key@) as int;
        let out = front.insert(p, x);
        assert(out.len() == front.len() + 1);
        assert forall|i: int, j: int| 0 <= i < j < out.len() implies text::text_le(
            (#[trigger] out[i]).key@,
            (#[trigger] out[j]).key@,
        ) by {
            if j < p {
                assert(out[i] == front[i] && out[j] == front[j]);
            } else if j == p {
                assert(out[i] == front[i]);
            } else if i < p {
                assert(out[i] == front[i] && out[j] == front[j - 1]);
            } else if i == p {
                assert(out[j] == front[j - 1]);
                text::lemma_text_le_total(x.key@, front[j - 1].key@);
            } else {
                assert(out[i] == front[i - 1] && out[j] == front[j - 1]);
            }
        }
    }
}

/// Ordering keeps the elements: none is lost and none is made.
pub proof fn law_order_keeps_the_elements<T>(s: Seq<Keyed<T>>)
    ensures
        in_order(s).to_multiset() == s.to_multiset(),
    decreases s.len(),
{
    broadcast use vstd::seq_lib::group_to_multiset_ensures;

    if s.len() > 0 {
        let front = in_order(s.drop_last());
        law_order_keeps_the_elements(s.drop_last());
        law_order_ascends(s.drop_last());
        lemma_place(front, s.last().key@);
        let p = place_for(front, s.last().key@) as int;
        vstd::seq_lib::to_multiset_insert(front, p, s.last());
        assert(s.drop_last().push(s.last()) =~= s);
    }
}

/// Elements with the same key keep their order.
pub proof fn law_order_is_stable<T>(s: Seq<Keyed<T>>, key: Seq<char>)
    ensures
        in_order(s).filter(|k: Keyed<T>| k.key@ == key) == s.filter(|k: Keyed<T>| k.key@ == key),
    decreases s.len(),
{
    reveal(Seq::filter);
    let f = |k: Keyed<T>| k.key@ == key;
    if s.len() > 0 {
        let front = in_order(s.drop_last());
        let x = s.last();
        law_order_is_stable(s.drop_last(), key);
        law_order_ascends(s.drop_last());
        lemma_place(front, x.key@);
        let p = place_for(front, x.key@) as int;
        let low = front.take(p);
        let high = front.skip(p);
        assert(front =~= low + high);
        assert(front.insert(p, x) =~= low.push(x) + high);
        Seq::filter_distributes_over_add(low, high, f);
        Seq::filter_distributes_over_add(low.push(x), high, f);
        assert(low.push(x).drop_last() =~= low);
        if f(x) {
            assert forall|i: int| 0 <= i < high.len() implies !f(#[trigger] high[i]) by {
                assert(high[i] == front[i + p]);
                assert(!text::text_le(front[i + p].key@, x.key@));
                lemma_le_self(x.key@);
            }
            lemma_none_left(high, f);
            assert(low.filter(f).push(x) + high.filter(f) =~= (low.filter(f) + high.filter(f)).push(
                x,
            ));
        }
    }
}

proof fn lemma_le_self(a: Seq<char>)
    ensures
        text::text_le(a, a),
{
    text::lemma_text_le_total(a, a);
}

proof fn lemma_none_left<T>(s: Seq<T>, f: spec_fn(T) -> bool)
    requires
        forall|i: int| 0 <= i < s.len() ==> !f(#[trigger] s[i]),
    ensures
        s.filter(f) == Seq::<T>::empty(),
    decreases s.len(),
{
    reveal(Seq::filter);
    if s.len() > 0 {
        assert(!f(s[s.len() - 1]));
        assert forall|i: int| 0 <= i < s.drop_last().len() implies !f(
            #[trigger] s.drop_last()[i],
        ) by {
            assert(!f(s[i]));
        }
        lemma_none_left(s.drop_last(), f);
    }
}

/// Put the elements in the order of their keys. Those with the same key keep their order.
pub fn sort_by_key<T>(items: Vec<Keyed<T>>) -> (r: Vec<Keyed<T>>)
    ensures
        r@ == in_order(items@),
{
    let ghost all = items@;
    let mut rest = items;
    let mut taken: Vec<Keyed<T>> = Vec::new();
    // the elements from the back to the front, so that they can be popped in order
    while rest.len() > 0
        invariant
            taken@.reverse() == all.skip(rest@.len() as int),
            rest@ == all.take(rest@.len() as int),
            rest@.len() <= all.len(),
        decreases rest@.len(),
    {
        if let Some(x) = rest.pop() {
            taken.push(x);
            proof {
                let n = rest@.len() as int;
                assert(taken@.reverse() =~= seq![x] + all.skip(n + 1));
                assert(all.skip(n) =~= seq![x] + all.skip(n + 1));
            }
        }
    }
    let mut out: Vec<Keyed<T>> = Vec::new();
    proof {
        assert(all.skip(0) =~= all);
        assert(all.take(0) =~= Seq::<Keyed<T>>::empty());
    }
    while taken.len() > 0
        invariant
            taken@.len() <= all.len(),
            taken@.reverse() == all.skip(all.len() - taken@.len()),
            out@ == in_order(all.take(all.len() - taken@.len())),
        decreases taken@.len(),
    {
        let ghost done = all.len() - taken@.len();
        let ghost before = taken@;
        if let Some(x) = taken.pop() {
            proof {
                assert(before.reverse()[0] == x);
                assert(all.skip(done)[0] == all[done]);
                assert(all.take(done + 1).drop_last() =~= all.take(done));
                assert(taken@.reverse() =~= before.reverse().skip(1));
                assert(all.skip(done).skip(1) =~= all.skip(done + 1));
                law_order_ascends(all.take(done));
                lemma_place(out@, x.key@);
                assert(out@.take(out@.len() as int) =~= out@);
            }
            let mut p: usize = out.len();
            while p > 0 && !text::not_after(out[p - 1].key.as_str(), x.key.as_str())
                invariant
                    p <= out@.len(),
                    place_for(out@, x.key@) == place_for(out@.take(p as int), x.key@),
                decreases p,
            {
                proof {
                    assert(out@.take(p as int).drop_last() =~= out@.take(p - 1));
                }
                p -= 1;
            }
            out.insert(p, x);
        }
    }
    proof {
        assert(all.take(all.len() as int) =~= all);
    }
    out
}

} // verus!
