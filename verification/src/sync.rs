//! Installing what the manifest lists, and removing what it does not.

use vstd::prelude::*;

use crate::decimal;
use crate::github::types::{Asset, Release};
use crate::installer;
use crate::installer::InstallResult;
use crate::manifest;
use crate::manifest::{Manifest, ManifestEntry};
use crate::pending::PendingMap;
use crate::state;
use crate::state::{State, ToolEntry};
use crate::text;

verus! {

// ---- What is missing --------------------------------------------------------------------------

/// The entries of the manifest whose repositories no tool comes from, in their order.
pub open spec fn missing_entries(
    tools: Seq<ManifestEntry>,
    pairs: Seq<(Seq<char>, ToolEntry)>,
) -> Seq<ManifestEntry> {
    tools.filter(|e: ManifestEntry| !state::has_repo(pairs, e.repo@))
}

/// A tool of the manifest that waits for its download.
pub struct PendingSync {
    /// The name of the installed file and of the tool in the state: the alias of the manifest, or
    /// the name by the repository.
    pub install_name: String,
    pub entry: ManifestEntry,
    pub release: Release,
    pub asset: Asset,
    pub install_dir: String,
}

/// A run that installs what is missing.
pub struct SyncRun {
    pub installed: usize,
    pub skipped: usize,
    pub failed: usize,
    /// What is to be installed, by the name it is installed under.
    pub pending: PendingMap<PendingSync>,
}

/// The name that an entry of the manifest is installed under.
pub open spec fn entry_name(entry: ManifestEntry) -> Seq<char> {
    installer::install_name_for(entry.repo@, text::opt_string(entry.alias))
}

/// There is nothing to do: the manifest is empty, and nothing is to be pruned.
pub fn nothing_to_do(manifest: &Manifest, prune: bool) -> (r: bool)
    ensures
        r == (manifest.tools@.len() == 0 && !prune),
{
    manifest.tools.len() == 0 && !prune
}

/// What to say if there is nothing to do.
pub fn empty_note(manifest_path: &str) -> (r: String)
    ensures
        r@ == "Manifest is empty ("@ + manifest_path@
            + "). Install a tool or add entries to it first."@,
{
    let mut s = "Manifest is empty (".to_owned();
    s.append(manifest_path);
    s.append("). Install a tool or add entries to it first.");
    s
}

/// A run for a manifest: the entries that are missing, in their order, and the count of the others,
/// which are left as they are.
pub fn cmd_sync(manifest: &Manifest, state: &State) -> (r: (SyncRun, Vec<ManifestEntry>))
    ensures
        r.1@ == missing_entries(manifest.tools@, state.pairs()),
        r.0.installed == 0,
        r.0.failed == 0,
        r.0.skipped == manifest.tools@.len() - r.1@.len(),
        forall|k: Seq<char>| #[trigger] r.0.pending.waiting(k) is None,
{
    let ghost all = manifest.tools@;
    let ghost f = |e: ManifestEntry| !state::has_repo(state.pairs(), e.repo@);
    let mut wanted: Vec<ManifestEntry> = Vec::new();
    let mut skipped: usize = 0;
    proof {
        reveal(Seq::filter);
        assert(all.take(0) =~= Seq::<ManifestEntry>::empty());
    }
    for i in 0..manifest.tools.len()
        invariant
            all == manifest.tools@,
            f == (|e: ManifestEntry| !state::has_repo(state.pairs(), e.repo@)),
            wanted@ == all.take(i as int).filter(f),
            skipped == i - wanted@.len(),
    {
        proof {
            reveal(Seq::filter);
            assert(all.take(i + 1).drop_last() =~= all.take(i as int));
        }
        let entry = &manifest.tools[i];
        if state.contains_repo(entry.repo.as_str()) {
            skipped += 1;
        } else {
            wanted.push(entry.clone());
        }
    }
    proof {
        assert(all.take(all.len() as int) =~= all);
    }
    let run = SyncRun {
        installed: 0,
        skipped,
        failed: 0,
        pending: PendingMap::new(),
    };
    (run, wanted)
}

/// Which release of an entry is asked for.
#[derive(Debug)]
pub enum Wanted<'a> {
    /// The one of exactly this tag.
    Tag(&'a str),
    /// The newest one that is offered.
    Newest,
}

/// Which release of an entry is asked for: the one that it is pinned to, or the newest.
pub fn wanted_release(entry: &ManifestEntry) -> (r: Wanted<'_>)
    ensures
        match entry.tag {
            Some(t) => r matches Wanted::Tag(w) && w@ == t@,
            None => r is Newest,
        },
{
    match &entry.tag {
        Some(t) => Wanted::Tag(t.as_str()),
        None => Wanted::Newest,
    }
}

// ---- The course of a run ------------------------------------------------------------------------

/// The warning that something failed for a tool.
pub open spec fn failure_text(what: Seq<char>, name: Seq<char>, reason: Seq<char>) -> Seq<char> {
    what + name + ": "@ + reason
}

/// The warning that something failed for a tool.
pub fn failure_note(what: &str, name: &str, reason: &str) -> (r: String)
    ensures
        r@ == failure_text(what@, name@, reason@),
{
    let mut s = what.to_owned();
    s.append(name);
    s.append(": ");
    s.append(reason);
    s
}

impl SyncRun {
    /// The release of an entry could not be had. Returns the warning.
    pub fn unresolved(&mut self, repo: &str, reason: &str) -> (r: String)
        requires
            old(self).failed < usize::MAX,
        ensures
            *final(self) == (SyncRun { failed: (old(self).failed + 1) as usize, ..*old(self) }),
            r@ == failure_text("Failed to resolve "@, repo@, reason@),
    {
        self.failed = self.failed + 1;
        failure_note("Failed to resolve ", repo, reason)
    }

    /// No asset of the release of an entry was chosen. Returns the warning.
    pub fn unmatched(&mut self, repo: &str, reason: &str) -> (r: String)
        requires
            old(self).failed < usize::MAX,
        ensures
            *final(self) == (SyncRun { failed: (old(self).failed + 1) as usize, ..*old(self) }),
            r@ == failure_text("Failed to pick an asset for "@, repo@, reason@),
    {
        self.failed = self.failed + 1;
        failure_note("Failed to pick an asset for ", repo, reason)
    }

    /// An asset of the release of an entry was chosen; its download begins. It waits under the name
    /// that it is to be installed under, in place of another entry of that name. Returns the name.
    pub fn chosen(
        &mut self,
        entry: ManifestEntry,
        release: Release,
        asset: Asset,
        install_dir: &str,
    ) -> (r: String)
        ensures
            final(self).installed == old(self).installed,
            final(self).skipped == old(self).skipped,
            final(self).failed == old(self).failed,
            r@ == entry_name(entry),
            final(self).pending.waiting(entry_name(entry)) matches Some(p) && p.install_name@
                == entry_name(entry) && p.entry == entry && p.release == release && p.asset == asset
                && p.install_dir@ == install_dir@,
            forall|k: Seq<char>|
                k != entry_name(entry) ==> #[trigger] final(self).pending.waiting(k) == old(
                    self,
                ).pending.waiting(k),
    {
        let install_name = match &entry.alias {
            Some(a) => a.clone(),
            None => installer::default_binary_name(entry.repo.as_str()).to_owned(),
        };
        let name = install_name.clone();
        let waiting = PendingSync {
            install_name,
            entry,
            release,
            asset,
            install_dir: install_dir.to_owned(),
        };
        self.pending.insert(name.clone(), waiting);
        name
    }

    /// A download failed. What waits under its name is given up. Returns the warning.
    pub fn lost(&mut self, name: &str, reason: &str) -> (r: String)
        requires
            old(self).failed < usize::MAX,
        ensures
            final(self).installed == old(self).installed,
            final(self).skipped == old(self).skipped,
            final(self).failed == old(self).failed + 1,
            forall|k: Seq<char>| #[trigger]
                final(self).pending.waiting(k) == if k == name@ {
                    None
                } else {
                    old(self).pending.waiting(k)
                },
            r@ == failure_text("Failed to download "@, name@, reason@),
    {
        self.failed = self.failed + 1;
        let _ = self.pending.remove(name);
        failure_note("Failed to download ", name, reason)
    }

    /// What a download that came is for, if anything still waits under its name.
    pub fn take(&mut self, name: &str) -> (r: Option<PendingSync>)
        ensures
            final(self).installed == old(self).installed,
            final(self).skipped == old(self).skipped,
            final(self).failed == old(self).failed,
            r == old(self).pending.waiting(name@),
            forall|k: Seq<char>| #[trigger]
                final(self).pending.waiting(k) == if k == name@ {
                    None
                } else {
                    old(self).pending.waiting(k)
                },
    {
        self.pending.remove(name)
    }

    /// A tool was installed: it is recorded in the state. Returns what to say.
    pub fn installed(&mut self, state: &mut State, result: InstallResult) -> (r: String)
        requires
            old(self).installed < usize::MAX,
        ensures
            *final(self) == (SyncRun { installed: (old(self).installed + 1) as usize, ..*old(self)
            }),
            final(state).pairs() == state::inserted(
                old(state).pairs(),
                result.tool_entry.binary_name@,
                result.tool_entry,
            ),
            r@ == result.tool_entry.binary_name@ + " "@ + result.tool_entry.installed_tag@ + " → "@
                + result.installed_path@,
    {
        self.installed = self.installed + 1;
        let mut s = result.tool_entry.binary_name.clone();
        s.append(" ");
        s.append(result.tool_entry.installed_tag.as_str());
        s.append(" → ");
        s.append(result.installed_path.as_str());
        state.upsert(result.tool_entry);
        s
    }

    /// A tool could not be installed. Returns the warning.
    pub fn not_installed(&mut self, name: &str, reason: &str) -> (r: String)
        requires
            old(self).failed < usize::MAX,
        ensures
            *final(self) == (SyncRun { failed: (old(self).failed + 1) as usize, ..*old(self) }),
            r@ == failure_text("Failed to install "@, name@, reason@),
    {
        self.failed = self.failed + 1;
        failure_note("Failed to install ", name, reason)
    }

    /// Whether the state changed and is to be written.
    pub fn to_save(&self) -> (r: bool)
        ensures
            r == (self.installed > 0),
    {
        self.installed > 0
    }

    /// What to say when the run is over.
    pub fn summary(&self) -> (r: String)
        ensures
            r@ == "Sync complete: "@ + decimal::decimal(self.installed as nat) + " installed, "@
                + decimal::decimal(self.skipped as nat) + " already present, "@ + decimal::decimal(
                self.failed as nat,
            ) + " failed."@,
    {
        let mut s = "Sync complete: ".to_owned();
        s.append(decimal::to_decimal(self.installed as u64).as_str());
        s.append(" installed, ");
        s.append(decimal::to_decimal(self.skipped as u64).as_str());
        s.append(" already present, ");
        s.append(decimal::to_decimal(self.failed as u64).as_str());
        s.append(" failed.");
        s
    }
}

// ---- Pruning --------------------------------------------------------------------------------------

/// The manifest has an entry for the repository of the tool.
pub open spec fn listed(tools: Seq<ManifestEntry>, pair: (Seq<char>, ToolEntry)) -> bool {
    manifest::entry_for(tools, pair.1.repo@) is Some
}

/// The tools that the manifest does not list, in their order.
pub open spec fn extras_among(
    pairs: Seq<(Seq<char>, ToolEntry)>,
    tools: Seq<ManifestEntry>,
) -> Seq<(Seq<char>, ToolEntry)> {
    pairs.filter(|p: (Seq<char>, ToolEntry)| !listed(tools, p))
}

/// A tool to be pruned.
#[derive(Debug)]
pub struct Extra {
    pub name: String,
    pub path: String,
}

/// The tools to be pruned: those whose repositories the manifest does not list, in their order.
pub fn prune_extras(state: &State, manifest: &Manifest) -> (r: Vec<Extra>)
    ensures
        r@.len() == extras_among(state.pairs(), manifest.tools@).len(),
        forall|i: int|
            0 <= i < r@.len() ==> (#[trigger] r@[i]).name@ == extras_among(
                state.pairs(),
                manifest.tools@,
            )[i].0 && r@[i].path@ == extras_among(
                state.pairs(),
                manifest.tools@,
            )[i].1.install_path@,
{
    let all = state.iter();
    let ghost pairs = state.pairs();
    let ghost tools = manifest.tools@;
    let mut out: Vec<Extra> = Vec::new();
    proof {
        reveal(Seq::filter);
        assert(pairs.take(0) =~= Seq::empty());
    }
    for i in 0..all.len()
        invariant
            pairs == state.pairs(),
            tools == manifest.tools@,
            all@.len() == pairs.len(),
            forall|j: int| 0 <= j < all@.len() ==> ((#[trigger] all@[j]).0@, *all@[j].1) == pairs[j],
            out@.len() == extras_among(pairs.take(i as int), tools).len(),
            forall|j: int|
                0 <= j < out@.len() ==> (#[trigger] out@[j]).name@ == extras_among(
                    pairs.take(i as int),
                    tools,
                )[j].0 && out@[j].path@ == extras_among(
                    pairs.take(i as int),
                    tools,
                )[j].1.install_path@,
    {
        let (name, entry) = all[i];
        proof {
            reveal(Seq::filter);
            assert(pairs.take(i + 1).drop_last() =~= pairs.take(i as int));
            assert((all@[i as int].0@, *all@[i as int].1) == pairs[i as int]);
        }
        if manifest.get(entry.repo.as_str()).is_none() {
            out.push(Extra { name: name.clone(), path: entry.install_path.clone() });
        }
    }
    proof {
        assert(pairs.take(pairs.len() as int) =~= pairs);
    }
    out
}

/// What to ask before pruning.
pub fn prune_prompt(count: usize) -> (r: String)
    ensures
        r@ == "Remove "@ + decimal::decimal(count as nat) + " tool(s)?"@,
{
    let mut s = "Remove ".to_owned();
    s.append(decimal::to_decimal(count as u64).as_str());
    s.append(" tool(s)?");
    s
}

/// The removal of the tools to be pruned.
#[derive(Debug)]
pub struct PruneRun {
    pub pruned: usize,
}

impl PruneRun {
    /// Nothing is removed yet.
    pub fn new() -> (r: Self)
        ensures
            r == (PruneRun { pruned: 0 }),
    {
        PruneRun { pruned: 0 }
    }

    /// A tool was removed. Returns what to say.
    pub fn removed(&mut self, name: &str) -> (r: String)
        requires
            old(self).pruned < usize::MAX,
        ensures
            final(self).pruned == old(self).pruned + 1,
            r@ == "Removed "@ + name@ + "."@,
    {
        self.pruned = self.pruned + 1;
        let mut s = "Removed ".to_owned();
        s.append(name);
        s.append(".");
        s
    }

    /// A tool could not be removed. Returns the warning.
    pub fn not_removed(&self, name: &str, reason: &str) -> (r: String)
        ensures
            r@ == failure_text("Failed to remove "@, name@, reason@),
    {
        failure_note("Failed to remove ", name, reason)
    }

    /// Whether the state changed and is to be written.
    pub fn to_save(&self) -> (r: bool)
        ensures
            r == (self.pruned > 0),
    {
        self.pruned > 0
    }

    /// What to say when the removal is over.
    pub fn summary(&self) -> (r: String)
        ensures
            r@ == "Pruned "@ + decimal::decimal(self.pruned as nat) + " tool(s)."@,
    {
        let mut s = "Pruned ".to_owned();
        s.append(decimal::to_decimal(self.pruned as u64).as_str());
        s.append(" tool(s).");
        s
    }
}

// ---- Laws -------------------------------------------------------------------------------------------

/// The tools after those of some names were removed, one after the other.
pub open spec fn removed_all(
    pairs: Seq<(Seq<char>, ToolEntry)>,
    names: Seq<(Seq<char>, ToolEntry)>,
) -> Seq<(Seq<char>, ToolEntry)>
    decreases names.len(),
{
    if names.len() == 0 {
        pairs
    } else {
        state::without(removed_all(pairs, names.drop_last()), names.last().0)
    }
}

/// One of the pairs has this key.
pub open spec fn names_key(names: Seq<(Seq<char>, ToolEntry)>, key: Seq<char>) -> bool {
    exists|j: int| 0 <= j < names.len() && (#[trigger] names[j]).0 == key
}

proof fn lemma_filter_twice(
    s: Seq<(Seq<char>, ToolEntry)>,
    f: spec_fn((Seq<char>, ToolEntry)) -> bool,
    g: spec_fn((Seq<char>, ToolEntry)) -> bool,
    h: spec_fn((Seq<char>, ToolEntry)) -> bool,
)
    requires
        forall|i: int| 0 <= i < s.len() ==> h(#[trigger] s[i]) == (f(s[i]) && g(s[i])),
    ensures
        s.filter(f).filter(g) == s.filter(h),
    decreases s.len(),
{
    reveal(Seq::filter);
    if s.len() > 0 {
        let front = s.drop_last();
        assert forall|i: int| 0 <= i < front.len() implies h(#[trigger] front[i]) == (f(front[i])
            && g(front[i])) by {
            assert(h(s[i]) == (f(s[i]) && g(s[i])));
        }
        lemma_filter_twice(front, f, g, h);
        assert(h(s[s.len() - 1]) == (f(s[s.len() - 1]) && g(s[s.len() - 1])));
        if f(s.last()) {
            assert(front.filter(f).push(s.last()).drop_last() =~= front.filter(f));
        }
    }
}

/// With distinct keys, taking one key out keeps the pairs of the others.
proof fn lemma_without_is_filter(s: Seq<(Seq<char>, ToolEntry)>, key: Seq<char>)
    requires
        state::distinct_keys(s),
    ensures
        state::without(s, key) == s.filter(|p: (Seq<char>, ToolEntry)| p.0 != key),
    decreases s.len(),
{
    reveal(Seq::filter);
    let g = |p: (Seq<char>, ToolEntry)| p.0 != key;
    state::lemma_key_position(s, key);
    if s.len() > 0 {
        let front = s.drop_last();
        assert(state::distinct_keys(front)) by {
            assert forall|i: int, j: int| 0 <= i < j < front.len() implies (#[trigger] front[i]).0
                != (#[trigger] front[j]).0 by {
                assert(s[i].0 != s[j].0);
            }
        }
        lemma_without_is_filter(front, key);
        state::lemma_key_position(front, key);
        let p = state::key_position(s, key);
        let q = state::key_position(front, key);
        if s.last().0 == key {
            if p < s.len() - 1 {
                assert(s[p].0 != s[s.len() - 1].0);
            }
            if q < front.len() {
                assert(s[q].0 != s[s.len() - 1].0);
            }
            assert(s.remove(p) =~= front);
        } else {
            if p < s.len() {
                assert(p < front.len());
                assert(front[p].0 == key);
                if q < p {
                    assert(s[q].0 == key);
                } else if p < q {
                    assert(front[p].0 != key);
                }
                assert(s.remove(p) =~= front.remove(p).push(s.last()));
            } else {
                if q < front.len() {
                    assert(s[q].0 == key);
                }
                assert(front.push(s.last()) =~= s);
            }
        }
    }
}

proof fn lemma_removed_all(
    pairs: Seq<(Seq<char>, ToolEntry)>,
    names: Seq<(Seq<char>, ToolEntry)>,
)
    requires
        state::distinct_keys(pairs),
    ensures
        removed_all(pairs, names) == pairs.filter(
            |p: (Seq<char>, ToolEntry)| !names_key(names, p.0),
        ),
        state::distinct_keys(removed_all(pairs, names)),
    decreases names.len(),
{
    let h = |p: (Seq<char>, ToolEntry)| !names_key(names, p.0);
    if names.len() == 0 {
        assert forall|i: int| 0 <= i < pairs.len() implies h(#[trigger] pairs[i]) by {}
        lemma_filter_all(pairs, h);
    } else {
        let front = names.drop_last();
        let key = names.last().0;
        let f = |p: (Seq<char>, ToolEntry)| !names_key(front, p.0);
        let g = |p: (Seq<char>, ToolEntry)| p.0 != key;
        lemma_removed_all(pairs, front);
        lemma_without_is_filter(removed_all(pairs, front), key);
        assert forall|i: int| 0 <= i < pairs.len() implies h(#[trigger] pairs[i]) == (f(pairs[i])
            && g(pairs[i])) by {
            let k = pairs[i].0;
            if names_key(front, k) {
                let j = choose|j: int| 0 <= j < front.len() && (#[trigger] front[j]).0 == k;
                assert(names[j].0 == k);
            }
            if names_key(names, k) {
                let j = choose|j: int| 0 <= j < names.len() && (#[trigger] names[j]).0 == k;
                if j < front.len() {
                    assert(front[j].0 == k);
                }
            }
            if k == key {
                assert(names[names.len() - 1].0 == k);
            }
        }
        lemma_filter_twice(pairs, f, g, h);
        let now = crate::github::types::Timestamp { seconds: 0, nanos: 0 };
        state::law_keys_stay_distinct(removed_all(pairs, front), key, names.last().1, now);
    }
}

proof fn lemma_filter_all(
    s: Seq<(Seq<char>, ToolEntry)>,
    f: spec_fn((Seq<char>, ToolEntry)) -> bool,
)
    requires
        forall|i: int| 0 <= i < s.len() ==> f(#[trigger] s[i]),
    ensures
        s.filter(f) == s,
    decreases s.len(),
{
    reveal(Seq::filter);
    if s.len() > 0 {
        let front = s.drop_last();
        assert forall|i: int| 0 <= i < front.len() implies f(#[trigger] front[i]) by {
            assert(f(s[i]));
        }
        lemma_filter_all(front, f);
        assert(f(s[s.len() - 1]));
        assert(front.push(s.last()) =~= s);
    }
}

proof fn lemma_filter_same(
    s: Seq<(Seq<char>, ToolEntry)>,
    f: spec_fn((Seq<char>, ToolEntry)) -> bool,
    g: spec_fn((Seq<char>, ToolEntry)) -> bool,
)
    requires
        forall|i: int| 0 <= i < s.len() ==> f(#[trigger] s[i]) == g(s[i]),
    ensures
        s.filter(f) == s.filter(g),
    decreases s.len(),
{
    reveal(Seq::filter);
    if s.len() > 0 {
        let front = s.drop_last();
        assert forall|i: int| 0 <= i < front.len() implies f(#[trigger] front[i]) == g(
            front[i],
        ) by {
            assert(f(s[i]) == g(s[i]));
        }
        lemma_filter_same(front, f, g);
        assert(f(s[s.len() - 1]) == g(s[s.len() - 1]));
    }
}

/// Once the extras are removed, what is left is what the manifest lists, in its order.
pub proof fn law_pruning_leaves_what_is_listed(
    pairs: Seq<(Seq<char>, ToolEntry)>,
    tools: Seq<ManifestEntry>,
)
    requires
        state::distinct_keys(pairs),
    ensures
        removed_all(pairs, extras_among(pairs, tools)) == pairs.filter(
            |p: (Seq<char>, ToolEntry)| listed(tools, p),
        ),
{
    let extras = extras_among(pairs, tools);
    let f = |p: (Seq<char>, ToolEntry)| !listed(tools, p);
    let g = |p: (Seq<char>, ToolEntry)| listed(tools, p);
    let h = |p: (Seq<char>, ToolEntry)| !names_key(extras, p.0);
    lemma_removed_all(pairs, extras);
    assert forall|i: int| 0 <= i < pairs.len() implies h(#[trigger] pairs[i]) == g(pairs[i]) by {
        let p = pairs[i];
        if !listed(tools, p) {
            assert(f(p));
            pairs.lemma_filter_contains(f, i);
            let j = choose|j: int| 0 <= j < extras.len() && extras[j] == p;
            assert(extras[j].0 == p.0);
        } else if names_key(extras, p.0) {
            let j = choose|j: int| 0 <= j < extras.len() && (#[trigger] extras[j]).0 == p.0;
            pairs.lemma_filter_pred(f, j);
            assert(pairs.filter(f).contains(extras[j]));
            pairs.lemma_filter_contains_rev(f, extras[j]);
            let m = choose|m: int| 0 <= m < pairs.len() && pairs[m] == extras[j];
            if m < i {
                assert(pairs[m].0 != pairs[i].0);
            } else if i < m {
                assert(pairs[i].0 != pairs[m].0);
            }
        }
    }
    lemma_filter_same(pairs, h, g);
}

/// The entries of the manifest are either missing or present: the counts add up.
pub proof fn law_every_entry_counts(
    tools: Seq<ManifestEntry>,
    pairs: Seq<(Seq<char>, ToolEntry)>,
)
    ensures
        missing_entries(tools, pairs).len() + tools.filter(
            |e: ManifestEntry| state::has_repo(pairs, e.repo@),
        ).len() == tools.len(),
    decreases tools.len(),
{
    reveal(Seq::filter);
    if tools.len() > 0 {
        law_every_entry_counts(tools.drop_last(), pairs);
    }
}

/// An entry whose tool was installed is not missing any more: the next run leaves it as it is.
pub proof fn law_synced_entry_is_present(
    tools: Seq<ManifestEntry>,
    pairs: Seq<(Seq<char>, ToolEntry)>,
    entry: ManifestEntry,
    installed: ToolEntry,
)
    requires
        installed.repo@ == entry.repo@,
    ensures
        !missing_entries(
            tools,
            state::inserted(pairs, installed.binary_name@, installed),
        ).contains(entry),
{
    let key = installed.binary_name@;
    let after = state::inserted(pairs, key, installed);
    let f = |e: ManifestEntry| !state::has_repo(after, e.repo@);
    state::lemma_key_position(pairs, key);
    let i = state::key_position(pairs, key);
    assert(after[i].1.repo@ == entry.repo@);
    let missing = missing_entries(tools, after);
    if missing.contains(entry) {
        let j = choose|j: int| 0 <= j < missing.len() && missing[j] == entry;
        tools.lemma_filter_pred(f, j);
        assert(f(missing[j]));
    }
}

} // verus!
