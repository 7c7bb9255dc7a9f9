//! The tools that are installed: what is found, kept and changed.

use vstd::prelude::*;

use crate::error::GhrError;
use crate::github::types::Timestamp;
use crate::state;
use crate::state::{State, ToolEntry};
use crate::uninstall;

verus! {

/// The tool at this place has the name, and none before it has.
pub open spec fn first_of_name(
    pairs: Seq<(Seq<char>, ToolEntry)>,
    name: Seq<char>,
    i: int,
) -> bool {
    &&& 0 <= i < pairs.len()
    &&& pairs[i].0 == name
    &&& forall|j: int| 0 <= j < i ==> (#[trigger] pairs[j]).0 != name
}

/// No tool has the name.
pub open spec fn nameless(pairs: Seq<(Seq<char>, ToolEntry)>, name: Seq<char>) -> bool {
    forall|j: int| 0 <= j < pairs.len() ==> (#[trigger] pairs[j]).0 != name
}

/// What is looked up under a name is the tool at its first place, and nothing if there is none.
pub proof fn law_lookup_is_by_name(pairs: Seq<(Seq<char>, ToolEntry)>, name: Seq<char>)
    ensures
        state::looked_up(pairs, name) is None <==> nameless(pairs, name),
        state::holds_key(pairs, name) <==> !nameless(pairs, name),
        forall|i: int| #[trigger] first_of_name(pairs, name, i) ==> state::looked_up(pairs, name) == Some(
            pairs[i].1,
        ),
        state::looked_up(pairs, name) matches Some(e) ==> exists|i: int| #[trigger]
            first_of_name(pairs, name, i) && pairs[i].1 == e,
{
    state::lemma_key_position(pairs, name);
    let p = state::key_position(pairs, name);
    if p < pairs.len() {
        assert(first_of_name(pairs, name, p));
        assert forall|i: int| #[trigger] first_of_name(pairs, name, i) implies i == p by {
            if i < p {
                assert(pairs[i].0 != name);
            } else if p < i {
                assert(pairs[p].0 != name);
            }
        }
    } else {
        assert forall|j: int| 0 <= j < pairs.len() implies (#[trigger] pairs[j]).0 != name by {}
    }
}

/// Putting a tool in changes the tool at the first place of its name and no other; a tool with a new
/// name comes last. The key is the name of the binary.
pub proof fn law_upsert_goes_to_its_name(state: &mut State, entry: ToolEntry, r: (), i: int)
    requires
        call_ensures(State::upsert, (state, entry), r),
    ensures
        ({
            let a = old(state).pairs();
            let b = final(state).pairs();
            let name = entry.binary_name@;
            &&& nameless(a, name) ==> b == a.push((name, entry))
            &&& !nameless(a, name) ==> b.len() == a.len()
            &&& first_of_name(a, name, i) ==> b[i] == (name, entry)
            &&& 0 <= i < a.len() && !first_of_name(a, name, i) ==> b[i] == a[i]
        }),
{
    let a = old(state).pairs();
    let name = entry.binary_name@;
    law_lookup_is_by_name(a, name);
    state::lemma_key_position(a, name);
    let p = state::key_position(a, name);
    if p < a.len() {
        assert(first_of_name(a, name, p));
        if first_of_name(a, name, i) && i != p {
            if i < p {
                assert(a[i].0 != name);
            } else {
                assert(a[p].0 != name);
            }
        }
    }
}

/// Removing a tool takes the one at the first place of the name out and gives it back; the others stay
/// in their order. Without such a tool nothing changes, and nothing is given back.
pub proof fn law_remove_takes_one_out(state: &mut State, name: &str, r: Option<ToolEntry>, i: int)
    requires
        call_ensures(State::remove, (state, name), r),
    ensures
        ({
            let a = old(state).pairs();
            let b = final(state).pairs();
            &&& nameless(a, name@) ==> b == a && r is None
            &&& first_of_name(a, name@, i) ==> b == a.take(i) + a.skip(i + 1) && r == Some(a[i].1)
        }),
{
    let a = old(state).pairs();
    law_lookup_is_by_name(a, name@);
    state::lemma_key_position(a, name@);
    let p = state::key_position(a, name@);
    if first_of_name(a, name@, i) {
        if i < p {
            assert(a[i].0 != name@);
        } else if p < i {
            assert(a[p].0 != name@);
        }
        assert(a.remove(p) =~= a.take(i) + a.skip(i + 1));
    }
}

/// Noting that a tool was checked changes that moment of the tool of the name, and nothing else.
pub proof fn law_touch_changes_one_moment(
    state: &mut State,
    name: &str,
    now: Timestamp,
    r: (),
    i: int,
)
    requires
        call_ensures(State::touch_checked, (state, name, now), r),
        0 <= i < old(state).pairs().len(),
    ensures
        ({
            let a = old(state).pairs();
            let b = final(state).pairs();
            &&& b.len() == a.len()
            &&& first_of_name(a, name@, i) ==> b[i] == (
                a[i].0,
                ToolEntry { last_checked: Some(now), ..a[i].1 },
            )
            &&& !first_of_name(a, name@, i) ==> b[i] == a[i]
        }),
{
    lemma_touched(old(state).pairs(), name@, now, i);
}

/// What checking does to the tool at one place.
pub proof fn lemma_touched(
    a: Seq<(Seq<char>, ToolEntry)>,
    name: Seq<char>,
    now: Timestamp,
    i: int,
)
    requires
        0 <= i < a.len(),
    ensures
        state::touched(a, name, now).len() == a.len(),
        first_of_name(a, name, i) ==> state::touched(a, name, now)[i] == (
            a[i].0,
            ToolEntry { last_checked: Some(now), ..a[i].1 },
        ),
        !first_of_name(a, name, i) ==> state::touched(a, name, now)[i] == a[i],
{
    law_lookup_is_by_name(a, name);
    state::lemma_key_position(a, name);
    let p = state::key_position(a, name);
    if p < a.len() {
        assert(first_of_name(a, name, p));
    }
    if first_of_name(a, name, i) {
        if i < p {
            assert(a[i].0 != name);
        } else if p < i {
            assert(a[p].0 != name);
        }
    }
}

/// What is asked of the tools is answered by their names and repositories.
pub proof fn law_questions_are_answered(
    state: &State,
    name: &str,
    repo: &str,
    found: Option<&ToolEntry>,
    held: bool,
    has_repo: bool,
    empty: bool,
    required: Result<&ToolEntry, GhrError>,
)
    requires
        call_ensures(State::get, (state, name), found),
        call_ensures(State::contains, (state, name), held),
        call_ensures(State::contains_repo, (state, repo), has_repo),
        call_ensures(State::is_empty, (state,), empty),
        call_ensures(State::require, (state, name), required),
    ensures
        held <==> !nameless(state.pairs(), name@),
        found is Some <==> held,
        found matches Some(e) ==> exists|i: int| #[trigger]
            first_of_name(state.pairs(), name@, i) && state.pairs()[i].1 == *e,
        has_repo <==> exists|i: int|
            0 <= i < state.pairs().len() && (#[trigger] state.pairs()[i]).1.repo@ == repo@,
        empty <==> state.pairs().len() == 0,
        match required {
            Ok(e) => found == Some(e),
            Err(e) => !held && (e matches GhrError::UnknownTool { name: n } && n@ == name@),
        },
{
    law_lookup_is_by_name(state.pairs(), name@);
}

/// The tools are listed with their names, all of them and in their order; a new state has none.
pub proof fn law_all_tools_are_listed(
    state: &State,
    r: Vec<(&String, &ToolEntry)>,
    at_first: State,
    i: int,
)
    requires
        call_ensures(State::iter, (state,), r),
        call_ensures(State::default, (), at_first),
    ensures
        r@.len() == state.pairs().len(),
        0 <= i < r@.len() ==> r@[i].0@ == state.pairs()[i].0 && *r@[i].1 == state.pairs()[i].1,
        at_first.pairs().len() == 0,
{
    if 0 <= i < r@.len() {
        assert((r@[i].0@, *r@[i].1) == state.pairs()[i]);
    }
}

/// A missing timestamp is behind every release, and any other exactly behind the releases of later
/// moments.
pub proof fn law_behind_is_earlier(entry: &ToolEntry, latest: Timestamp, r: bool)
    requires
        call_ensures(ToolEntry::is_behind, (entry, latest), r),
    ensures
        r <==> (entry.published_at matches Some(t) ==> moment(latest) > moment(t)),
        r == state::behind(*entry, latest),
{
    if let Some(t) = entry.published_at {
        lemma_moments(latest, t);
    }
}

/// A moment as one number.
pub open spec fn moment(t: Timestamp) -> int {
    t.seconds * 0x1_0000_0000 + t.nanos
}

/// Moments are ordered as their numbers.
pub proof fn lemma_moments(a: Timestamp, b: Timestamp)
    ensures
        crate::github::types::later(a, b) <==> moment(a) > moment(b),
{
}

/// Two moments are compared as their numbers.
pub proof fn law_moments_are_compared(a: Timestamp, b: Timestamp, r: bool)
    requires
        call_ensures(Timestamp::is_after, (a, b), r),
    ensures
        r <==> moment(a) > moment(b),
{
}

/// The time between two moments that are no leap seconds is that of their seconds and nanoseconds.
pub proof fn law_time_between_moments(a: Timestamp, b: Timestamp, r: i128)
    requires
        call_ensures(Timestamp::nanos_since, (a, b), r),
        a.nanos < 1_000_000_000,
        b.nanos < 1_000_000_000,
    ensures
        r == (a.seconds * 1_000_000_000 + a.nanos) - (b.seconds * 1_000_000_000 + b.nanos),
{
}

/// Another ETag changes nothing else of a tool.
pub proof fn law_etag_is_replaced(entry: ToolEntry, etag: Option<String>, r: ToolEntry)
    requires
        call_ensures(ToolEntry::with_etag, (entry, etag), r),
    ensures
        r.etag == etag,
        r.repo == entry.repo,
        r.installed_tag == entry.installed_tag,
        r.install_path == entry.install_path,
        r.binary_name == entry.binary_name,
        r.asset_pattern == entry.asset_pattern,
        r.installed_sha256 == entry.installed_sha256,
        r.last_checked == entry.last_checked,
        r.published_at == entry.published_at,
{
}

/// The tool to be removed is the one of the name, and removing it takes it out of the tools and no
/// other; of a name that no tool has, nothing is removed.
pub proof fn law_named_tool_is_removed(
    before: &State,
    state: &mut State,
    name: &str,
    asked: Result<uninstall::Removal, GhrError>,
    r: Result<ToolEntry, GhrError>,
    i: int,
)
    requires
        call_ensures(uninstall::cmd_remove, (before, name), asked),
        call_ensures(uninstall::remove_tool, (state, name), r),
        before.pairs() == old(state).pairs(),
    ensures
        ({
            let a = old(state).pairs();
            let b = final(state).pairs();
            &&& nameless(a, name@) ==> b == a && (r matches Err(GhrError::UnknownTool { name: n }) && n@
                == name@) && (asked matches Err(GhrError::UnknownTool { name: n }) && n@ == name@)
            &&& first_of_name(a, name@, i) ==> b == a.take(i) + a.skip(i + 1) && (r matches Ok(e) && e
                == a[i].1) && (asked matches Ok(q) && q.entry == a[i].1)
        }),
{
    let a = old(state).pairs();
    law_lookup_is_by_name(a, name@);
    state::lemma_key_position(a, name@);
    let p = state::key_position(a, name@);
    if first_of_name(a, name@, i) {
        if i < p {
            assert(a[i].0 != name@);
        } else if p < i {
            assert(a[p].0 != name@);
        }
        assert(a.remove(p) =~= a.take(i) + a.skip(i + 1));
    }
}

} // verus!
