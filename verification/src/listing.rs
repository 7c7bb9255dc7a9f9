//! The list of the tools, and the reminder to check them.

use vstd::prelude::*;

use crate::calendar;
use crate::decimal;
use crate::github::types;
use crate::github::types::Timestamp;
use crate::manifest;
use crate::manifest::Manifest;
use crate::state::{State, ToolEntry};
use crate::text;

verus! {

// ---- The reminder -----------------------------------------------------------------------------

/// The tool was not checked within the hours before now, or never.
pub open spec fn stale(entry: ToolEntry, now: Timestamp, hours: u32) -> bool {
    match entry.last_checked {
        Some(t) => types::nanos_between(now, t) > hours * 3_600_000_000_000,
        None => true,
    }
}

/// How many of the tools were not checked recently.
pub open spec fn stale_among(
    pairs: Seq<(Seq<char>, ToolEntry)>,
    now: Timestamp,
    hours: u32,
) -> nat {
    pairs.filter(|p: (Seq<char>, ToolEntry)| stale(p.1, now, hours)).len()
}

/// Whether the tool was not checked within `hours` before `now`.
fn is_stale(entry: &ToolEntry, now: Timestamp, hours: u32) -> (r: bool)
    ensures
        r == stale(*entry, now, hours),
{
    match entry.last_checked {
        Some(t) => now.nanos_since(t) > hours as i128 * 3_600_000_000_000,
        None => true,
    }
}

/// How many tools were not checked within `hours` before `now`.
pub fn stale_count(state: &State, now: Timestamp, hours: u32) -> (r: usize)
    ensures
        r == stale_among(state.pairs(), now, hours),
{
    let all = state.iter();
    let ghost pairs = state.pairs();
    let ghost f = |p: (Seq<char>, ToolEntry)| stale(p.1, now, hours);
    let mut n: usize = 0;
    proof {
        reveal(Seq::filter);
        assert(pairs.take(0) =~= Seq::empty());
    }
    for i in 0..all.len()
        invariant
            pairs == state.pairs(),
            f == (|p: (Seq<char>, ToolEntry)| stale(p.1, now, hours)),
            all@.len() == pairs.len(),
            forall|j: int| 0 <= j < all@.len() ==> ((#[trigger] all@[j]).0@, *all@[j].1) == pairs[j],
            n <= i,
            n == pairs.take(i as int).filter(f).len(),
    {
        proof {
            reveal(Seq::filter);
            assert(pairs.take(i + 1).drop_last() =~= pairs.take(i as int));
            assert((all@[i as int].0@, *all@[i as int].1) == pairs[i as int]);
        }
        if is_stale(all[i].1, now, hours) {
            n += 1;
        }
    }
    proof {
        assert(pairs.take(pairs.len() as int) =~= pairs);
    }
    n
}

/// The reminder that some tools were not checked recently, if there are any.
pub fn stale_banner(state: &State, now: Timestamp, hours: u32) -> (r: Option<String>)
    ensures
        stale_among(state.pairs(), now, hours) == 0 ==> r is None,
        stale_among(state.pairs(), now, hours) > 0 ==> (r matches Some(t) && t@ == decimal::decimal(
            stale_among(state.pairs(), now, hours),
        ) + " tool(s) haven't been checked recently — run `ghr check`"@),
{
    let n = stale_count(state, now, hours);
    if n == 0 {
        return None;
    }
    let mut s = decimal::to_decimal(n as u64);
    s.append(" tool(s) haven't been checked recently — run `ghr check`");
    Some(s)
}

// ---- The list -----------------------------------------------------------------------------------

/// One line of the list, each column padded to its width.
#[derive(Debug)]
pub struct ListRow {
    pub name: String,
    pub version: String,
    pub repo: String,
    pub last_checked: String,
}

/// The version in the list: the installed tag, with a star if the tool is pinned.
pub open spec fn version_text(tag: Seq<char>, pinned: bool) -> Seq<char> {
    if pinned {
        tag.push('*')
    } else {
        tag
    }
}

/// When a tool was checked, for the list. A moment outside the calendar counts as none.
pub open spec fn checked_text(entry: ToolEntry) -> Seq<char> {
    match entry.last_checked {
        Some(t) => match calendar::minute_of(t) {
            Some(d) => d,
            None => "never"@,
        },
        None => "never"@,
    }
}

/// The line of a tool.
pub open spec fn row_is(
    row: ListRow,
    name: Seq<char>,
    tag: Seq<char>,
    pinned: bool,
    repo: Seq<char>,
    last_checked: Seq<char>,
) -> bool {
    &&& row.name@ == text::padded(name, 20)
    &&& row.version@ == text::padded(version_text(tag, pinned), 15)
    &&& row.repo@ == text::padded(repo, 30)
    &&& row.last_checked@ == last_checked
}

/// The line of a tool.
pub fn list_row(name: &str, tag: &str, pinned: bool, repo: &str, last_checked: &str) -> (r: ListRow)
    ensures
        row_is(r, name@, tag@, pinned, repo@, last_checked@),
{
    let mut version = tag.to_owned();
    if pinned {
        version.push('*');
    }
    ListRow {
        name: text::pad_right(name, 20),
        version: text::pad_right(version.as_str(), 15),
        repo: text::pad_right(repo, 30),
        last_checked: last_checked.to_owned(),
    }
}

/// When a tool was checked, for the list.
fn checked_of(entry: &ToolEntry) -> (r: String)
    ensures
        r@ == checked_text(*entry),
{
    match entry.last_checked {
        Some(t) => match calendar::minute_text(t) {
            Some(d) => d,
            None => "never".to_owned(),
        },
        None => "never".to_owned(),
    }
}

/// The lines of all tools, in their order. A tool whose repository is pinned has a star behind its
/// version.
pub fn cmd_list(state: &State, manifest: &Manifest) -> (r: Vec<ListRow>)
    ensures
        r@.len() == state.pairs().len(),
        forall|i: int|
            0 <= i < r@.len() ==> row_is(
                #[trigger] r@[i],
                state.pairs()[i].0,
                state.pairs()[i].1.installed_tag@,
                manifest::pin_of(manifest.tools@, state.pairs()[i].1.repo@) is Some,
                state.pairs()[i].1.repo@,
                checked_text(state.pairs()[i].1),
            ),
{
    let all = state.iter();
    let ghost pairs = state.pairs();
    let mut out: Vec<ListRow> = Vec::new();
    for i in 0..all.len()
        invariant
            pairs == state.pairs(),
            all@.len() == pairs.len(),
            forall|j: int| 0 <= j < all@.len() ==> ((#[trigger] all@[j]).0@, *all@[j].1) == pairs[j],
            out@.len() == i,
            forall|j: int|
                0 <= j < i ==> row_is(
                    #[trigger] out@[j],
                    pairs[j].0,
                    pairs[j].1.installed_tag@,
                    manifest::pin_of(manifest.tools@, pairs[j].1.repo@) is Some,
                    pairs[j].1.repo@,
                    checked_text(pairs[j].1),
                ),
    {
        let (name, entry) = all[i];
        assert((all@[i as int].0@, *all@[i as int].1) == pairs[i as int]);
        let pinned = manifest.is_pinned(entry.repo.as_str()).is_some();
        let last_checked = checked_of(entry);
        out.push(
            list_row(
                name.as_str(),
                entry.installed_tag.as_str(),
                pinned,
                entry.repo.as_str(),
                last_checked.as_str(),
            ),
        );
    }
    out
}

/// A tool that is checked now is not stale.
pub proof fn law_checked_now_is_fresh(entry: ToolEntry, now: Timestamp, hours: u32)
    ensures
        !stale(crate::state::checked_at(entry, now), now, hours),
{
}

} // verus!
