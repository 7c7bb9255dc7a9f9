//! Work that waits under a name.

use vstd::prelude::*;

use crate::sorting::Keyed;
use crate::text;

verus! {

/// The position of the first element with this key, or the length if there is none.
spec fn position_of<T>(items: Seq<Keyed<T>>, key: Seq<char>) -> int
    decreases items.len(),
{
    if items.len() == 0 || items[0].key@ == key {
        0
    } else {
        1 + position_of(items.drop_first(), key)
    }
}

/// What waits under a name.
spec fn waiting<T>(items: Seq<Keyed<T>>, key: Seq<char>) -> Option<T> {
    if position_of(items, key) < items.len() {
        Some(items[position_of(items, key)].item)
    } else {
        None
    }
}

/// Work that waits, at most one piece under each name.
pub struct PendingMap<T> {
    items: Vec<Keyed<T>>,
}

proof fn lemma_position<T>(items: Seq<Keyed<T>>, key: Seq<char>)
    ensures
        0 <= position_of(items, key) <= items.len(),
        forall|j: int| 0 <= j < position_of(items, key) ==> (#[trigger] items[j]).key@ != key,
        position_of(items, key) < items.len() ==> items[position_of(items, key)].key@ == key,
    decreases items.len(),
{
    if items.len() > 0 && items[0].key@ != key {
        lemma_position(items.drop_first(), key);
        assert forall|j: int| 0 <= j < position_of(items, key) implies (#[trigger] items[j]).key@
            != key by {
            if j > 0 {
                assert(items[j] == items.drop_first()[j - 1]);
            }
        }
    }
}

proof fn lemma_position_is<T>(items: Seq<Keyed<T>>, key: Seq<char>, i: int)
    requires
        0 <= i <= items.len(),
        forall|j: int| 0 <= j < i ==> (#[trigger] items[j]).key@ != key,
        i < items.len() ==> items[i].key@ == key,
    ensures
        position_of(items, key) == i,
{
    lemma_position(items, key);
    let p = position_of(items, key);
    if p < i {
        assert(items[p].key@ != key);
    } else if i < p {
        assert(items[i].key@ != key);
    }
}

/// No two elements have the same key.
spec fn distinct<T>(items: Seq<Keyed<T>>) -> bool {
    forall|i: int, j: int|
        0 <= i < j < items.len() ==> (#[trigger] items[i]).key@ != (#[trigger] items[j]).key@
}

/// The position of the first element with this key, or the length.
fn find<T>(items: &Vec<Keyed<T>>, key: &str) -> (r: usize)
    ensures
        r == position_of(items@, key@),
        r <= items@.len(),
{
    let mut i: usize = 0;
    while i < items.len() && !text::same_text(items[i].key.as_str(), key)
        invariant
            i <= items@.len(),
            forall|j: int| 0 <= j < i ==> (#[trigger] items@[j]).key@ != key@,
        decreases items@.len() - i,
    {
        i += 1;
    }
    proof {
        lemma_position_is(items@, key@, i as int);
    }
    i
}

impl<T> PendingMap<T> {
    /// No two pieces wait under the same name.
    #[verifier::type_invariant]
    spec fn one_each(self) -> bool {
        distinct(self.items@)
    }

    /// What waits under a name.
    pub closed spec fn waiting(self, name: Seq<char>) -> Option<T> {
        waiting(self.items@, name)
    }

    /// Nothing waits.
    pub fn new() -> (r: Self)
        ensures
            forall|k: Seq<char>| #[trigger] r.waiting(k) is None,
    {
        PendingMap { items: Vec::new() }
    }

    /// Let a piece of work wait under a name, in place of what waits there.
    pub fn insert(&mut self, name: String, item: T)
        ensures
            forall|k: Seq<char>| #[trigger]
                final(self).waiting(k) == if k == name@ {
                    Some(item)
                } else {
                    old(self).waiting(k)
                },
            final(self).waiting(name@) == Some(item),
            forall|k: Seq<char>|
                k != name@ ==> #[trigger] final(self).waiting(k) == old(self).waiting(k),
    {
        proof {
            use_type_invariant(&*self);
        }
        let mut items: Vec<Keyed<T>> = Vec::new();
        std::mem::swap(&mut items, &mut self.items);
        let ghost before = items@;
        let i = find(&items, name.as_str());
        proof {
            lemma_position(before, name@);
        }
        let ghost key = name@;
        if i < items.len() {
            items.set(i, Keyed { key: name, item });
        } else {
            items.push(Keyed { key: name, item });
        }
        proof {
            let after = items@;
            lemma_position_is(after, key, i as int);
            assert forall|k: Seq<char>| #[trigger] waiting(after, k) == if k == key {
                Some(item)
            } else {
                waiting(before, k)
            } by {
                if k != key {
                    lemma_position(before, k);
                    let p = position_of(before, k);
                    if p < before.len() {
                        lemma_position_is(after, k, p);
                    } else {
                        lemma_position_is(after, k, after.len() as int);
                    }
                }
            }
            assert forall|a: int, b: int| 0 <= a < b < after.len() implies (#[trigger] after[a]).key@
                != (#[trigger] after[b]).key@ by {
                if b < before.len() {
                    assert(before[a].key@ != before[b].key@);
                }
            }
        }
        self.items = items;
    }

    /// Take out what waits under a name.
    pub fn remove(&mut self, name: &str) -> (r: Option<T>)
        ensures
            r == old(self).waiting(name@),
            forall|k: Seq<char>| #[trigger]
                final(self).waiting(k) == if k == name@ {
                    None
                } else {
                    old(self).waiting(k)
                },
    {
        proof {
            use_type_invariant(&*self);
        }
        let mut items: Vec<Keyed<T>> = Vec::new();
        std::mem::swap(&mut items, &mut self.items);
        let ghost before = items@;
        let i = find(&items, name);
        proof {
            lemma_position(before, name@);
        }
        if i >= items.len() {
            self.items = items;
            return None;
        }
        let out = items.remove(i);
        proof {
            let after = items@;
            assert(after =~= before.remove(i as int));
            assert(forall|j: int|
                0 <= j < after.len() ==> #[trigger] after[j] == if j < i {
                    before[j]
                } else {
                    before[j + 1]
                });
            assert forall|a: int, b: int| 0 <= a < b < after.len() implies (#[trigger] after[a]).key@
                != (#[trigger] after[b]).key@ by {}
            assert forall|k: Seq<char>| #[trigger] waiting(after, k) == if k == name@ {
                None
            } else {
                waiting(before, k)
            } by {
                lemma_position(before, k);
                let p = position_of(before, k);
                if k == name@ {
                    lemma_position_is(after, k, after.len() as int);
                } else if p < before.len() {
                    let t = if p < i {
                        p
                    } else {
                        p - 1
                    };
                    lemma_position_is(after, k, t);
                } else {
                    lemma_position_is(after, k, after.len() as int);
                }
            }
        }
        self.items = items;
        Some(out.item)
    }
}

} // verus!
