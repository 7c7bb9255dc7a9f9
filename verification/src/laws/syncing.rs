//! Installing what the manifest lists, and removing what it does not.

use vstd::prelude::*;

use crate::installer::InstallResult;
use crate::laws::manifests::{lemma_entry, unlisted};
use crate::laws::picking;
use crate::laws::tools::{first_of_name, nameless};
use crate::laws::updating;
use crate::manifest::{Manifest, ManifestEntry};
use crate::state;
use crate::state::{State, ToolEntry};
use crate::sync;
use crate::sync::{Extra, SyncRun, Wanted};

verus! {

/// A tool is to be pruned exactly if no entry of the manifest is for its repository, whatever tags and
/// aliases the entries have. The tools to be pruned are in the order of the tools, with their names and
/// their paths.
pub proof fn law_extras_are_of_unlisted_repositories(
    state: &State,
    m: &Manifest,
    r: Vec<Extra>,
) -> (order: Seq<int>)
    requires
        call_ensures(sync::prune_extras, (state, m), r),
    ensures
        picking::ascending(order, state.pairs().len()),
        order.len() == r@.len(),
        forall|k: int|
            0 <= k < r@.len() ==> r@[k].name@ == state.pairs()[#[trigger] order[k]].0 && r@[k].path@
                == state.pairs()[order[k]].1.install_path@,
        forall|i: int|
            0 <= i < state.pairs().len() ==> (#[trigger] order.contains(i) <==> forall|j: int|
                0 <= j < m.tools@.len() ==> (#[trigger] m.tools@[j]).repo@
                    != state.pairs()[i].1.repo@),
{
    let pairs = state.pairs();
    let f = |p: (Seq<char>, ToolEntry)| !sync::listed(m.tools@, p);
    let order = picking::lemma_kept(pairs, f);
    assert(sync::extras_among(pairs, m.tools@) == pairs.filter(f));
    assert forall|k: int| 0 <= k < r@.len() implies r@[k].name@ == pairs[#[trigger] order[k]].0
        && r@[k].path@ == pairs[order[k]].1.install_path@ by {
        assert(pairs.filter(f)[k] == pairs[order[k]]);
        assert(r@[k].name@ == sync::extras_among(pairs, m.tools@)[k].0);
    }
    assert forall|i: int| 0 <= i < pairs.len() implies (#[trigger] order.contains(i) <==> forall|
        j: int,
    |
        0 <= j < m.tools@.len() ==> (#[trigger] m.tools@[j]).repo@ != pairs[i].1.repo@) by {
        lemma_entry(m.tools@, pairs[i].1.repo@);
        assert(f(pairs[i]) <==> unlisted(m.tools@, pairs[i].1.repo@));
    }
    order
}

/// An entry of the manifest is missing exactly if no tool comes from its repository, whatever tag and
/// alias it has. The missing entries are in the order of the manifest; the others are counted.
pub proof fn law_missing_entries_have_no_tool(
    m: &Manifest,
    state: &State,
    r: (SyncRun, Vec<ManifestEntry>),
) -> (order: Seq<int>)
    requires
        call_ensures(sync::cmd_sync, (m, state), r),
    ensures
        picking::ascending(order, m.tools@.len()),
        order.len() == r.1@.len(),
        forall|k: int| 0 <= k < r.1@.len() ==> r.1@[k] == m.tools@[#[trigger] order[k]],
        forall|j: int|
            0 <= j < m.tools@.len() ==> (#[trigger] order.contains(j) <==> forall|i: int|
                0 <= i < state.pairs().len() ==> (#[trigger] state.pairs()[i]).1.repo@
                    != m.tools@[j].repo@),
        r.0.installed == 0,
        r.0.failed == 0,
        r.0.skipped + r.1@.len() == m.tools@.len(),
        forall|k: Seq<char>| #[trigger] r.0.pending.waiting(k) is None,
{
    let pairs = state.pairs();
    let f = |e: ManifestEntry| !state::has_repo(pairs, e.repo@);
    let order = picking::lemma_kept(m.tools@, f);
    assert(sync::missing_entries(m.tools@, pairs) == m.tools@.filter(f));
    assert forall|j: int| 0 <= j < m.tools@.len() implies (#[trigger] order.contains(j) <==> forall|
        i: int,
    |
        0 <= i < pairs.len() ==> (#[trigger] pairs[i]).1.repo@ != m.tools@[j].repo@) by {
        assert(f(m.tools@[j]) <==> !state::has_repo(pairs, m.tools@[j].repo@));
    }
    order
}

/// The release of a pinned entry is that of the pin, and of any other entry the newest.
pub proof fn law_pinned_release_is_wanted(entry: &ManifestEntry, r: Wanted)
    requires
        call_ensures(sync::wanted_release, (entry,), r),
    ensures
        entry.tag matches Some(t) ==> (r matches Wanted::Tag(w) && w@ == t@),
        entry.tag is None ==> r is Newest,
{
}

/// There is nothing to do exactly if the manifest is empty and nothing is pruned.
pub proof fn law_nothing_is_done_for_nothing(m: &Manifest, prune: bool, r: bool)
    requires
        call_ensures(sync::nothing_to_do, (m, prune), r),
    ensures
        r <==> m.tools@.len() == 0 && !prune,
{
}

/// What is installed is counted, recorded under the name of its binary, and said with its tag and its
/// place; the other tools and the other counts stay.
pub proof fn law_synced_tool_is_recorded(
    run: &mut SyncRun,
    state: &mut State,
    result: InstallResult,
    r: String,
    i: int,
)
    requires
        call_ensures(SyncRun::installed, (run, state, result), r),
        old(run).installed < usize::MAX,
    ensures
        final(run).installed == old(run).installed + 1,
        final(run).skipped == old(run).skipped,
        final(run).failed == old(run).failed,
        final(run).pending == old(run).pending,
        ({
            let a = old(state).pairs();
            let b = final(state).pairs();
            let name = result.tool_entry.binary_name@;
            &&& nameless(a, name) ==> b == a + seq![(name, result.tool_entry)]
            &&& !nameless(a, name) ==> b.len() == a.len()
            &&& first_of_name(a, name, i) ==> b[i] == (name, result.tool_entry)
            &&& 0 <= i < a.len() && !first_of_name(a, name, i) ==> b[i] == a[i]
        }),
        r@ == result.tool_entry.binary_name@ + " "@ + result.tool_entry.installed_tag@ + " → "@
            + result.installed_path@,
{
    updating::lemma_inserted(
        old(state).pairs(),
        result.tool_entry.binary_name@,
        result.tool_entry,
        i,
    );
}

/// A failure is counted and said, and nothing else changes, but that a lost download is not waited for
/// any more.
pub proof fn law_failures_are_counted(
    a: &mut SyncRun,
    b: &mut SyncRun,
    c: &mut SyncRun,
    d: &mut SyncRun,
    name: &str,
    reason: &str,
    unresolved: String,
    unmatched: String,
    not_installed: String,
    lost: String,
)
    requires
        call_ensures(SyncRun::unresolved, (a, name, reason), unresolved),
        call_ensures(SyncRun::unmatched, (b, name, reason), unmatched),
        call_ensures(SyncRun::not_installed, (c, name, reason), not_installed),
        call_ensures(SyncRun::lost, (d, name, reason), lost),
        old(a).failed < usize::MAX,
        old(b).failed < usize::MAX,
        old(c).failed < usize::MAX,
        old(d).failed < usize::MAX,
    ensures
        final(a).failed == old(a).failed + 1,
        final(a).installed == old(a).installed,
        final(a).skipped == old(a).skipped,
        final(a).pending == old(a).pending,
        final(b).failed == old(b).failed + 1,
        final(b).installed == old(b).installed,
        final(b).skipped == old(b).skipped,
        final(b).pending == old(b).pending,
        final(c).failed == old(c).failed + 1,
        final(c).installed == old(c).installed,
        final(c).skipped == old(c).skipped,
        final(c).pending == old(c).pending,
        final(d).failed == old(d).failed + 1,
        final(d).installed == old(d).installed,
        final(d).skipped == old(d).skipped,
        final(d).pending.waiting(name@) is None,
        forall|k: Seq<char>|
            k != name@ ==> #[trigger] final(d).pending.waiting(k) == old(d).pending.waiting(k),
        unresolved@ == "Failed to resolve "@ + name@ + ": "@ + reason@,
        unmatched@ == "Failed to pick an asset for "@ + name@ + ": "@ + reason@,
        not_installed@ == "Failed to install "@ + name@ + ": "@ + reason@,
        lost@ == "Failed to download "@ + name@ + ": "@ + reason@,
{
}

/// The state is written if something was installed, and after a removal if something was removed.
pub proof fn law_only_changes_are_saved(
    run: &SyncRun,
    prune: &sync::PruneRun,
    installed: bool,
    pruned: bool,
)
    requires
        call_ensures(SyncRun::to_save, (run,), installed),
        call_ensures(sync::PruneRun::to_save, (prune,), pruned),
    ensures
        installed <==> run.installed != 0,
        pruned <==> prune.pruned != 0,
{
}

} // verus!
