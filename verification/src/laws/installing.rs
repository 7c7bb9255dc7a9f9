//! Which release is installed, whether at all, and where to.

use vstd::prelude::*;

use crate::adopt;
use crate::adopt::{Adoption, FileFacts};
use crate::calendar;
use crate::github::types::{Release, Timestamp};
use crate::install;
use crate::install::{InstallStart, Managed, NextRelease, ReleaseSelection};
use crate::installer;
use crate::laws::picking;
use crate::laws::tools;
use crate::laws::tools::{first_of_name, nameless};
use crate::paths;
use crate::state;
use crate::state::{State, ToolEntry};
use crate::text;

verus! {

/// A release that can be installed: it is no draft, and a pre-release only if they are wanted.
pub open spec fn on_offer(release: Release, wanted: bool) -> bool {
    if release.draft {
        false
    } else if release.prerelease {
        wanted
    } else {
        true
    }
}

/// The release at this place is on offer, and none before it is.
pub open spec fn first_on_offer(releases: Seq<Release>, wanted: bool, i: int) -> bool {
    &&& 0 <= i < releases.len()
    &&& on_offer(releases[i], wanted)
    &&& forall|k: int| 0 <= k < i ==> !on_offer(#[trigger] releases[k], wanted)
}

/// No release is on offer.
pub open spec fn none_on_offer(releases: Seq<Release>, wanted: bool) -> bool {
    forall|k: int| 0 <= k < releases.len() ==> !on_offer(#[trigger] releases[k], wanted)
}

/// These places hold the releases on offer, in their order, and no others.
pub open spec fn places_of_offers(order: Seq<int>, releases: Seq<Release>, wanted: bool) -> bool {
    &&& picking::ascending(order, releases.len())
    &&& forall|i: int|
        0 <= i < releases.len() ==> (#[trigger] order.contains(i) <==> on_offer(releases[i], wanted))
}

proof fn lemma_offered(releases: Seq<Release>, wanted: bool) -> (order: Seq<int>)
    ensures
        places_of_offers(order, releases, wanted),
        order.len() == install::offered_among(releases, wanted).len(),
        forall|k: int|
            0 <= k < order.len() ==> install::offered_among(releases, wanted)[k] == releases[
            #[trigger] order[k]],
        order.len() == 0 <==> none_on_offer(releases, wanted),
        order.len() > 0 ==> first_on_offer(releases, wanted, order[0]),
{
    let f = |r: Release| install::offered(r, wanted);
    let order = picking::lemma_kept(releases, f);
    assert forall|i: int| 0 <= i < releases.len() implies (#[trigger] order.contains(i) <==> on_offer(
        releases[i],
        wanted,
    )) by {
        assert(f(releases[i]) == on_offer(releases[i], wanted));
    }
    if order.len() > 0 {
        assert(f(releases[order[0]]));
        assert forall|k: int| 0 <= k < order[0] implies !on_offer(#[trigger] releases[k], wanted) by {
            if on_offer(releases[k], wanted) {
                assert(order.contains(k));
                let j = choose|j: int| 0 <= j < order.len() && order[j] == k;
                if j > 0 {
                    assert(order[0] < order[j]);
                }
            }
        }
        assert(!none_on_offer(releases, wanted)) by {
            assert(on_offer(releases[order[0]], wanted));
        }
    } else {
        assert forall|k: int| 0 <= k < releases.len() implies !on_offer(
            #[trigger] releases[k],
            wanted,
        ) by {
            if on_offer(releases[k], wanted) {
                assert(order.contains(k));
            }
        }
    }
    order
}

/// Drafts are never kept, and pre-releases only if the user or the configuration wants them; all other
/// releases are kept, in their order.
pub proof fn law_releases_on_offer_are_kept(
    releases: Vec<Release>,
    asked: bool,
    configured: bool,
    r: Vec<Release>,
) -> (order: Seq<int>)
    requires
        call_ensures(install::filter_releases, (releases, asked, configured), r),
    ensures
        places_of_offers(order, releases@, asked || configured),
        order.len() == r@.len(),
        forall|k: int| 0 <= k < r@.len() ==> r@[k] == releases@[#[trigger] order[k]],
{
    lemma_offered(releases@, asked || configured)
}

/// The newest release is the first one on offer; without one, the error names the repository.
pub proof fn law_first_offer_is_the_newest(
    releases: Vec<Release>,
    wanted: bool,
    repo: &str,
    r: Result<Release, String>,
)
    requires
        call_ensures(install::newest_release, (releases, wanted, repo), r),
    ensures
        forall|i: int| #[trigger]
            first_on_offer(releases@, wanted, i) ==> r == Ok::<Release, String>(releases@[i]),
        r is Err <==> none_on_offer(releases@, wanted),
        r matches Err(e) ==> e@ == "no releases found for "@ + repo@,
{
    let order = lemma_offered(releases@, wanted);
    lemma_first_is_one(releases@, wanted);
}

proof fn lemma_first_is_one(releases: Seq<Release>, wanted: bool)
    ensures
        forall|i: int, j: int| #[trigger]
            first_on_offer(releases, wanted, i) && #[trigger] first_on_offer(releases, wanted, j)
                ==> i == j,
{
    assert forall|i: int, j: int| #[trigger]
        first_on_offer(releases, wanted, i) && #[trigger] first_on_offer(releases, wanted, j) implies i
        == j by {
        if i < j {
            assert(!on_offer(releases[i], wanted));
        } else if j < i {
            assert(!on_offer(releases[j], wanted));
        }
    }
}

/// The line of a release says its tag and, in brackets, its day if the calendar knows it.
pub open spec fn says_tag_and_day(line: Seq<char>, release: Release) -> bool {
    match calendar::chrono_formatted(
        release.published_at.seconds,
        release.published_at.nanos,
        "%Y-%m-%d"@,
    ) {
        Some(day) => line == release.tag_name@ + " ("@ + day + ")"@,
        None => line == release.tag_name@,
    }
}

/// The line of a release says its tag and its day.
pub proof fn law_lines_say_tag_and_day(
    release: &Release,
    tag: &str,
    day: Option<&str>,
    line: String,
    other: String,
)
    requires
        call_ensures(install::release_label, (release,), line),
        call_ensures(install::label_with_day, (tag, day), other),
    ensures
        says_tag_and_day(line@, *release),
        day matches Some(d) ==> other@ == tag@ + " ("@ + d@ + ")"@,
        day is None ==> other@ == tag@,
{
}

/// The releases to pick from are those on offer, each with its line; without any, the error names the
/// repository.
pub proof fn law_releases_to_pick_from(
    releases: Vec<Release>,
    asked: bool,
    configured: bool,
    repo: &str,
    r: Result<(Vec<Release>, Vec<String>), String>,
) -> (order: Seq<int>)
    requires
        call_ensures(install::resolve_release, (releases, asked, configured, repo), r),
    ensures
        places_of_offers(order, releases@, asked || configured),
        r is Err <==> none_on_offer(releases@, asked || configured),
        r matches Err(e) ==> e@ == "no releases found for "@ + repo@,
        r matches Ok(found) ==> {
            &&& found.0@.len() == order.len()
            &&& found.1@.len() == order.len()
            &&& forall|k: int|
                0 <= k < order.len() ==> found.0@[k] == releases@[#[trigger] order[k]]
                    && says_tag_and_day(found.1@[k]@, releases@[order[k]])
        },
{
    let order = lemma_offered(releases@, asked || configured);
    if let Ok(found) = r {
        let list = install::offered_among(releases@, asked || configured);
        assert forall|k: int| 0 <= k < order.len() implies found.0@[k] == releases@[
        #[trigger] order[k]] && says_tag_and_day(found.1@[k]@, releases@[order[k]]) by {
            assert(found.1@[k]@ == install::label_text(
                list[k].tag_name@,
                calendar::day_of(list[k].published_at),
            ));
        }
    }
    order
}

/// Where nobody is to be asked, the first release on offer is taken; else the user picks among all that
/// are on offer, each with its line.
pub proof fn law_nobody_is_asked_for_the_newest(
    releases: Vec<Release>,
    asked: bool,
    configured: bool,
    repo: &str,
    yes: bool,
    r: Result<NextRelease, String>,
) -> (order: Seq<int>)
    requires
        call_ensures(install::next_release, (releases, asked, configured, repo, yes), r),
    ensures
        places_of_offers(order, releases@, asked || configured),
        r is Err <==> none_on_offer(releases@, asked || configured),
        r matches Err(e) ==> e@ == "no releases found for "@ + repo@,
        r matches Ok(NextRelease::Done(release)) ==> yes && first_on_offer(
            releases@,
            asked || configured,
            order[0],
        ) && release == releases@[order[0]],
        r matches Ok(NextRelease::Ask { releases: found, labels }) ==> {
            &&& !yes
            &&& found@.len() == order.len()
            &&& labels@.len() == order.len()
            &&& forall|k: int|
                0 <= k < order.len() ==> found@[k] == releases@[#[trigger] order[k]]
                    && says_tag_and_day(labels@[k]@, releases@[order[k]])
        },
{
    let order = lemma_offered(releases@, asked || configured);
    if let Ok(NextRelease::Ask { releases: found, labels }) = r {
        let view = |t: String| t@;
        assert(labels@.map_values(view) == install::labels_for(found@));
        assert(labels@.map_values(view).len() == labels@.len());
        assert(install::labels_for(found@).len() == found@.len());
        assert forall|k: int| 0 <= k < order.len() implies found@[k] == releases@[#[trigger] order[k]]
            && says_tag_and_day(labels@[k]@, releases@[order[k]]) by {
            assert(labels@.map_values(view)[k] == labels@[k]@);
            assert(install::labels_for(found@)[k] == install::label_text(
                found@[k].tag_name@,
                calendar::day_of(found@[k].published_at),
            ));
        }
    }
    order
}

/// The release that was picked is the one of the list.
pub proof fn law_picked_release_is_of_the_list(releases: Vec<Release>, index: usize, r: Release)
    requires
        call_ensures(install::take_release, (releases, index), r),
        index < releases@.len(),
    ensures
        r == releases@[index as int],
{
}

/// A tag that was given is installed, and without one the user picks.
pub proof fn law_given_tag_is_installed(tag: Option<String>, r: ReleaseSelection)
    requires
        call_ensures(install::selection_for, (tag,), r),
    ensures
        tag matches Some(t) ==> r == ReleaseSelection::Tag(t),
        tag is None <==> r is InteractivePick,
{
}

// ---- Whether to install ---------------------------------------------------------------------------

/// The tool of this name comes from this repository and has this tag.
pub open spec fn has_it(
    pairs: Seq<(Seq<char>, ToolEntry)>,
    name: Seq<char>,
    repo: Seq<char>,
    tag: Seq<char>,
) -> bool {
    exists|i: int| #[trigger]
        first_of_name(pairs, name, i) && pairs[i].1.repo@ == repo && pairs[i].1.installed_tag@ == tag
}

/// No tool has the name, or the one that has it comes from another repository.
pub open spec fn lacks_it(
    pairs: Seq<(Seq<char>, ToolEntry)>,
    name: Seq<char>,
    repo: Seq<char>,
) -> bool {
    forall|i: int| #[trigger] first_of_name(pairs, name, i) ==> pairs[i].1.repo@ != repo
}

/// A tool that is not managed from the repository can be installed. One that is can only be moved to a
/// tag that was given; without one it is refused, and the refusal says the name and the tag that it
/// has.
pub open spec fn managed_rightly(
    r: Managed,
    pairs: Seq<(Seq<char>, ToolEntry)>,
    name: Seq<char>,
    repo: Seq<char>,
    tag: Option<&str>,
) -> bool {
    match r {
        Managed::No => lacks_it(pairs, name, repo),
        Managed::Repoint { note } => !lacks_it(pairs, name, repo) && tag is Some && note@
            == "Re-pointing "@ + name + " to "@ + tag->0@ + "."@,
        Managed::Refuse { error } => tag is None && exists|have: Seq<char>| #[trigger]
            has_it(pairs, name, repo, have) && error@ == "'"@ + name + "' is already managed by ghr ("@
                + have + "). Run `ghr update "@ + name
                + "` to upgrade it, or pass `-t <tag>` to re-pin it to a specific release."@,
    }
}

proof fn lemma_managed(
    r: Managed,
    pairs: Seq<(Seq<char>, ToolEntry)>,
    name: Seq<char>,
    repo: Seq<char>,
    tag: Option<&str>,
)
    requires
        install::managed_is(r, pairs, name, repo, text::opt_str(tag)),
    ensures
        managed_rightly(r, pairs, name, repo, tag),
{
    tools::law_lookup_is_by_name(pairs, name);
    if let Some(e) = state::looked_up(pairs, name) {
        let i = choose|i: int| #[trigger] first_of_name(pairs, name, i) && pairs[i].1 == e;
        if e.repo@ == repo {
            assert(has_it(pairs, name, repo, e.installed_tag@));
        }
    }
}

/// Whether a tool is already managed goes by its name and its repository.
pub proof fn law_managed_tools_are_not_installed_again(
    state: &State,
    name: &str,
    repo: &str,
    tag: Option<&str>,
    r: Managed,
)
    requires
        call_ensures(install::already_managed, (state, name, repo, tag), r),
    ensures
        managed_rightly(r, state.pairs(), name@, repo@, tag),
{
    lemma_managed(r, state.pairs(), name@, repo@, tag);
}

/// An installation goes into the directory that was given, or else into the configured one, under the
/// name that the alias and the repository give, and not at all if that tool is already managed.
pub proof fn law_installation_starts_rightly(
    state: &State,
    repo: &str,
    tag: Option<&str>,
    alias: Option<&str>,
    to: Option<&str>,
    configured: &str,
    home: Option<&str>,
    name: String,
    dir: String,
    expanded: String,
    r: InstallStart,
)
    requires
        call_ensures(
            install::cmd_install,
            (state, repo, tag, alias, to, configured, home),
            r,
        ),
        call_ensures(install::effective_dir, (to, configured, home), dir),
        to matches Some(p) ==> call_ensures(paths::expand_tilde, (p, home), expanded),
        call_ensures(installer::install_name_of, (repo, alias), name),
    ensures
        r.install_dir@ == dir@,
        to is None ==> dir@ == configured@,
        to is Some ==> dir@ == expanded@,
        r.install_name@ == name@,
        managed_rightly(r.managed, state.pairs(), r.install_name@, repo@, tag),
{
    lemma_managed(r.managed, state.pairs(), r.install_name@, repo@, tag);
}

// ---- The search path ------------------------------------------------------------------------------

/// One file is looked for in each directory of the search path, in their order.
pub proof fn law_every_directory_is_searched(path_var: &str, name: &str, r: Vec<String>, i: int)
    requires
        call_ensures(install::find_on_path, (path_var, name), r),
        paths::plain_name(name@),
    ensures
        r@.len() == text::pieces(path_var@, ':').len(),
        0 <= i < r@.len() ==> ({
            let dir = text::pieces(path_var@, ':')[i];
            if dir.len() == 0 {
                r@[i]@ == name@
            } else if dir.last() == '/' {
                r@[i]@ == dir + name@
            } else {
                r@[i]@ == dir + seq!['/'] + name@
            }
        }),
{
    let view = |t: String| t@;
    let all = text::pieces(path_var@, ':');
    assert(r@.map_values(view) == install::candidates_on(path_var@, name@));
    assert(r@.map_values(view).len() == r@.len());
    assert(install::candidates_on(path_var@, name@).len() == all.len());
    assert(name@.contains(name@[0]));
    if 0 <= i < r@.len() {
        assert(r@.map_values(view)[i] == r@[i]@);
        assert(install::candidates_on(path_var@, name@)[i] == paths::joined(all[i], name@));
        if all[i].len() == 0 {
            assert(all[i] + name@ =~= name@);
        }
    }
}

/// A directory that stands on the search path gives no warning; where no directory of the search path
/// is the same path, the warning says how to add it.
pub proof fn law_warning_is_for_missing_directories(path_var: &str, dir: &str, r: Option<String>)
    requires
        call_ensures(install::path_warning, (path_var, dir), r),
    ensures
        r is None <==> exists|i: int|
            0 <= i < text::pieces(path_var@, ':').len() && (#[trigger] text::pieces(path_var@, ':')[i]
                == dir@ || paths::std_same_path(text::pieces(path_var@, ':')[i], dir@)),
        r matches Some(w) ==> w@ == dir@ + " is not on your PATH. Add it: export PATH=\""@ + dir@
            + ":$PATH\""@,
{
    let all = text::pieces(path_var@, ':');
    if install::on_path(path_var@, dir@) {
        let i = choose|i: int| 0 <= i < all.len() && paths::same_path_of(#[trigger] all[i], dir@);
        assert(all[i] == dir@ || paths::std_same_path(all[i], dir@));
    }
    if exists|i: int|
        0 <= i < all.len() && (#[trigger] all[i] == dir@ || paths::std_same_path(all[i], dir@)) {
        let i = choose|i: int|
            0 <= i < all.len() && (#[trigger] all[i] == dir@ || paths::std_same_path(all[i], dir@));
        assert(paths::same_path_of(all[i], dir@));
    }
}

// ---- Adopting -------------------------------------------------------------------------------------

/// A binary can be adopted exactly if it exists, is a file that can be run, and no tool has its name;
/// it then goes by that name.
pub proof fn law_runnable_files_are_adopted(
    path: &str,
    facts: &FileFacts,
    state: &State,
    dir: Seq<char>,
    name: Seq<char>,
    r: Adoption,
)
    requires
        call_ensures(adopt::cmd_adopt, (path, facts, state), r),
        path@ == dir + seq!['/'] + name,
        paths::plain_name(name),
    ensures
        r is Refuse <==> !(facts.exists && facts.is_file && facts.executable),
        r matches Adoption::Refuse { error } ==> error@ == if !facts.exists {
            "path does not exist: "@ + path@
        } else if !facts.is_file {
            "path is not a file: "@ + path@
        } else {
            path@ + " is not executable"@
        },
        r matches Adoption::Managed { warning } ==> !nameless(state.pairs(), name) && warning@ == name
            + " is already managed by ghr. Use `ghr update "@ + name + "` instead."@,
        r matches Adoption::Adopt { name: n } ==> nameless(state.pairs(), name) && n@ == name,
{
    installer::law_repo_names_the_binary(dir, name);
    assert(text::behind_last(path@, '/') == name);
    tools::law_lookup_is_by_name(state.pairs(), name);
}

/// What is recorded of an adopted binary: nothing is known of its release, so that every release is
/// news.
pub proof fn law_adopted_binary_has_no_release(
    repo: &str,
    name: &str,
    path: &str,
    sha256: Option<String>,
    now: Timestamp,
    r: ToolEntry,
)
    requires
        call_ensures(adopt::adopted_entry, (repo, name, path, sha256, now), r),
    ensures
        r.repo@ == repo@,
        r.binary_name@ == name@,
        r.install_path@ == path@,
        r.installed_sha256 == sha256,
        r.last_checked == Some(now),
        r.published_at is None,
        r.etag is None,
        r.installed_tag@ == "unknown"@,
        r.asset_pattern@.len() == 0,
{
    reveal_strlit("");
}

} // verus!
