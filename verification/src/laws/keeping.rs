//! Order by key, and work that waits.

use vstd::prelude::*;

use crate::github::types::{Asset, Release};
use crate::manifest::ManifestEntry;
use crate::pending::PendingMap;
use crate::sorting;
use crate::sorting::{sort_by_key, Keyed};
use crate::sync::{PendingSync, SyncRun};
use crate::text;
use crate::update::{PendingUpdate, UpdateRun};

verus! {

/// Sorting puts no key before a smaller one, keeps every element as often as it was there, and leaves
/// the elements of each key in the order that they had.
pub proof fn law_sorting_is_stable<T>(
    items: Vec<Keyed<T>>,
    r: Vec<Keyed<T>>,
    key: Seq<char>,
    i: int,
    j: int,
)
    requires
        call_ensures(sort_by_key::<T>, (items,), r),
    ensures
        r@.len() == items@.len(),
        0 <= i < j < r@.len() ==> text::text_le(r@[i].key@, r@[j].key@),
        r@.to_multiset() == items@.to_multiset(),
        r@.filter(|k: Keyed<T>| k.key@ == key) == items@.filter(|k: Keyed<T>| k.key@ == key),
        r@ == sorting::in_order(items@),
{
    sorting::law_order_ascends(items@);
    sorting::law_order_keeps_the_elements(items@);
    sorting::law_order_is_stable(items@, key);
}

/// At first nothing waits.
pub proof fn law_nothing_waits_at_first<T>(r: PendingMap<T>, run: UpdateRun, name: Seq<char>)
    requires
        call_ensures(PendingMap::<T>::new, (), r),
        call_ensures(UpdateRun::new, (), run),
    ensures
        r.waiting(name) is None,
        run.pending.waiting(name) is None,
{
}

/// What is let wait is what is taken out under its name, and it can be taken out only once; what waits
/// under other names stays.
pub proof fn law_what_waits_is_taken_out_once<T>(
    a: &mut PendingMap<T>,
    b: &mut PendingMap<T>,
    c: &mut PendingMap<T>,
    name: String,
    item: T,
    again: &str,
    r: (),
    first: Option<T>,
    second: Option<T>,
    other: Seq<char>,
)
    requires
        call_ensures(PendingMap::<T>::insert, (a, name, item), r),
        call_ensures(PendingMap::<T>::remove, (b, again), first),
        call_ensures(PendingMap::<T>::remove, (c, again), second),
        again@ == name@,
        *old(b) == *final(a),
        *old(c) == *final(b),
        other != name@,
    ensures
        first == Some(item),
        second is None,
        final(a).waiting(other) == old(a).waiting(other),
        final(b).waiting(other) == old(a).waiting(other),
        final(c).waiting(other) == old(a).waiting(other),
{
}

/// An update that was chosen waits under its name until its download comes or is lost.
pub proof fn law_chosen_update_waits(
    a: &mut UpdateRun,
    b: &mut UpdateRun,
    c: &mut UpdateRun,
    update: PendingUpdate,
    name: &str,
    reason: &str,
    r: (),
    came: Option<PendingUpdate>,
    warning: String,
    other: Seq<char>,
)
    requires
        call_ensures(UpdateRun::chosen, (a, update), r),
        call_ensures(UpdateRun::take, (b, name), came),
        call_ensures(UpdateRun::lost, (c, name, reason), warning),
        name@ == update.name@,
        *old(b) == *final(a),
        *old(c) == *final(a),
        other != update.name@,
    ensures
        came == Some(update),
        final(a).pending.waiting(other) == old(a).pending.waiting(other),
        final(b).pending.waiting(name@) is None,
        final(b).pending.waiting(other) == old(a).pending.waiting(other),
        final(c).pending.waiting(name@) is None,
        final(c).pending.waiting(other) == old(a).pending.waiting(other),
        warning@ == "Failed to download "@ + name@ + ": "@ + reason@,
{
}

/// An entry of the manifest that was chosen waits under its alias or the name of its repository until
/// its download comes. It is installed into the directory that was given; the counts stay.
pub proof fn law_chosen_entry_waits(
    a: &mut SyncRun,
    b: &mut SyncRun,
    entry: ManifestEntry,
    release: Release,
    asset: Asset,
    dir: &str,
    owner: Seq<char>,
    name: Seq<char>,
    r: String,
    taken: &str,
    came: Option<PendingSync>,
    other: Seq<char>,
)
    requires
        call_ensures(SyncRun::chosen, (a, entry, release, asset, dir), r),
        call_ensures(SyncRun::take, (b, taken), came),
        entry.repo@ == owner + seq!['/'] + name,
        !name.contains('/'),
        taken@ == r@,
        *old(b) == *final(a),
        other != r@,
    ensures
        entry.alias matches Some(alias) ==> r@ == alias@,
        entry.alias is None ==> r@ == name,
        came matches Some(p) && p.install_name@ == r@ && p.entry == entry && p.release == release
            && p.asset == asset && p.install_dir@ == dir@,
        final(a).pending.waiting(other) == old(a).pending.waiting(other),
        final(b).pending.waiting(r@) is None,
        final(b).pending.waiting(other) == old(a).pending.waiting(other),
        final(a).installed == old(a).installed && final(a).skipped == old(a).skipped
            && final(a).failed == old(a).failed,
        final(b).installed == old(b).installed && final(b).skipped == old(b).skipped
            && final(b).failed == old(b).failed,
{
    crate::installer::law_repo_names_the_binary(owner, name);
}

} // verus!
