//! Installing a tool: which release, whether at all, and what to say.

use vstd::prelude::*;

use crate::calendar;
use crate::github::types::Release;
use crate::installer;
use crate::paths;
use crate::state;
use crate::state::{State, ToolEntry};
use crate::text;

verus! {

// ---- Releases -------------------------------------------------------------------------------------

/// How the release to install is chosen.
#[derive(Debug)]
pub enum ReleaseSelection {
    /// The release of exactly this tag, which the tool is pinned to.
    Tag(String),
    /// The one that the user picks from the list.
    InteractivePick,
}

/// How the release is chosen if the user gave this tag, or none.
pub fn selection_for(tag: Option<String>) -> (r: ReleaseSelection)
    ensures
        r == match tag {
            Some(t) => ReleaseSelection::Tag(t),
            None => ReleaseSelection::InteractivePick,
        },
{
    match tag {
        Some(t) => ReleaseSelection::Tag(t),
        None => ReleaseSelection::InteractivePick,
    }
}

/// A request to install a tool from a repository.
pub struct InstallRequest<'a> {
    pub repo: &'a str,
    pub selection: ReleaseSelection,
    pub install_dir: &'a str,
    pub alias: Option<&'a str>,
    pub include_prerelease: bool,
}

/// A release that is offered: no draft, and no pre-release unless they are wanted.
pub open spec fn offered(release: Release, include_prerelease: bool) -> bool {
    !release.draft && (include_prerelease || !release.prerelease)
}

/// The releases that are offered, in their order.
pub open spec fn offered_among(releases: Seq<Release>, include_prerelease: bool) -> Seq<Release> {
    releases.filter(|r: Release| offered(r, include_prerelease))
}

/// Keep the releases that are offered. Pre-releases are wanted if the user or the configuration
/// says so.
pub fn filter_releases(releases: Vec<Release>, include_prerelease: bool, configured: bool) -> (r: Vec<
    Release,
>)
    ensures
        r@ == offered_among(releases@, include_prerelease || configured),
{
    let wanted = include_prerelease || configured;
    let ghost all = releases@;
    let mut out: Vec<Release> = Vec::new();
    proof {
        reveal(Seq::filter);
        assert(all.take(0) =~= Seq::<Release>::empty());
    }
    for release in it: releases.into_iter()
        invariant
            it.seq() == all,
            out@ == offered_among(all.take(it.index() as int), wanted),
    {
        let ghost k = it.index() as int;
        proof {
            reveal(Seq::filter);
            assert(all.take(k + 1).drop_last() =~= all.take(k));
        }
        if !release.draft && (wanted || !release.prerelease) {
            out.push(release);
        }
    }
    proof {
        assert(all.take(all.len() as int) =~= all);
    }
    out
}

/// The text of the error that a repository has no release to offer.
pub open spec fn no_releases_text(repo: Seq<char>) -> Seq<char> {
    "no releases found for "@ + repo
}

/// The text of the error that a repository has no release to offer.
fn no_releases(repo: &str) -> (r: String)
    ensures
        r@ == no_releases_text(repo@),
{
    let mut s = "no releases found for ".to_owned();
    s.append(repo);
    s
}

/// The first release that is offered, or the error that there is none. The API lists the newest
/// first.
pub fn newest_release(releases: Vec<Release>, include_prerelease: bool, repo: &str) -> (r: Result<
    Release,
    String,
>)
    ensures
        ({
            let list = offered_among(releases@, include_prerelease);
            if list.len() == 0 {
                r matches Err(e) && e@ == no_releases_text(repo@)
            } else {
                r matches Ok(release) && release == list[0]
            }
        }),
{
    let mut list = filter_releases(releases, include_prerelease, false);
    if list.len() == 0 {
        return Err(no_releases(repo));
    }
    Ok(list.remove(0))
}

/// The line for a release in the list to pick from: its tag and its day, if that is known.
pub open spec fn label_text(tag: Seq<char>, day: Option<Seq<char>>) -> Seq<char> {
    match day {
        Some(d) => tag + " ("@ + d + ")"@,
        None => tag,
    }
}

/// The line for a release of this tag and this day.
pub fn label_with_day(tag: &str, day: Option<&str>) -> (r: String)
    ensures
        r@ == label_text(tag@, text::opt_str(day)),
{
    let mut s = tag.to_owned();
    if let Some(d) = day {
        s.append(" (");
        s.append(d);
        s.append(")");
        assert(s@ =~= tag@ + " ("@ + d@ + ")"@);
    }
    s
}

/// The line for a release.
pub fn release_label(release: &Release) -> (r: String)
    ensures
        r@ == label_text(release.tag_name@, calendar::day_of(release.published_at)),
{
    match calendar::day_text(release.published_at) {
        Some(d) => label_with_day(release.tag_name.as_str(), Some(d.as_str())),
        None => label_with_day(release.tag_name.as_str(), None),
    }
}

/// The releases to pick from, with their lines, or the error that there is none.
pub fn resolve_release(
    releases: Vec<Release>,
    include_prerelease: bool,
    configured: bool,
    repo: &str,
) -> (r: Result<(Vec<Release>, Vec<String>), String>)
    ensures
        ({
            let list = offered_among(releases@, include_prerelease || configured);
            if list.len() == 0 {
                r matches Err(e) && e@ == no_releases_text(repo@)
            } else {
                r matches Ok(found) && found.0@ == list && found.1@.len() == list.len() && forall|
                    i: int,
                |
                    0 <= i < list.len() ==> (#[trigger] found.1@[i])@ == label_text(
                        list[i].tag_name@,
                        calendar::day_of(list[i].published_at),
                    )
            }
        }),
{
    let list = filter_releases(releases, include_prerelease, configured);
    if list.len() == 0 {
        return Err(no_releases(repo));
    }
    let mut labels: Vec<String> = Vec::new();
    for i in 0..list.len()
        invariant
            labels@.len() == i,
            forall|j: int|
                0 <= j < i ==> (#[trigger] labels@[j])@ == label_text(
                    list@[j].tag_name@,
                    calendar::day_of(list@[j].published_at),
                ),
    {
        labels.push(release_label(&list[i]));
    }
    Ok((list, labels))
}

/// How to come to a release.
pub enum NextRelease {
    /// It is this one.
    Done(Release),
    /// The user has to pick among these, which have these lines.
    Ask { releases: Vec<Release>, labels: Vec<String> },
}

/// The lines for releases.
pub open spec fn labels_for(releases: Seq<Release>) -> Seq<Seq<char>> {
    releases.map_values(
        |r: Release| label_text(r.tag_name@, calendar::day_of(r.published_at)),
    )
}

/// How to come to a release of a repository, or the error that there is none to offer. Where nobody is
/// to be asked, the newest one is taken.
pub fn next_release(
    releases: Vec<Release>,
    include_prerelease: bool,
    configured: bool,
    repo: &str,
    yes: bool,
) -> (r: Result<NextRelease, String>)
    ensures
        ({
            let list = offered_among(releases@, include_prerelease || configured);
            if list.len() == 0 {
                r matches Err(e) && e@ == no_releases_text(repo@)
            } else if yes {
                r == Ok::<NextRelease, String>(NextRelease::Done(list[0]))
            } else {
                r matches Ok(NextRelease::Ask { releases: found, labels }) && found@ == list
                    && labels@.map_values(|t: String| t@) == labels_for(list)
            }
        }),
{
    if yes {
        return match newest_release(releases, include_prerelease || configured, repo) {
            Ok(release) => Ok(NextRelease::Done(release)),
            Err(e) => Err(e),
        };
    }
    match resolve_release(releases, include_prerelease, configured, repo) {
        Ok((found, labels)) => {
            assert(labels@.map_values(|t: String| t@) =~= labels_for(found@));
            Ok(NextRelease::Ask { releases: found, labels })
        },
        Err(e) => Err(e),
    }
}

/// The release that was picked.
pub fn take_release(releases: Vec<Release>, index: usize) -> (r: Release)
    requires
        index < releases@.len(),
    ensures
        r == releases@[index as int],
{
    let mut list = releases;
    list.remove(index)
}

// ---- Whether to install ---------------------------------------------------------------------------

/// What is known of a tool before it is installed.
#[derive(Debug)]
pub enum Managed {
    /// It is not managed from this repository.
    No,
    /// It is managed; it is moved to another release.
    Repoint { note: String },
    /// It is managed, and no release was asked for.
    Refuse { error: String },
}

/// The tool of this name that comes from this repository.
pub open spec fn managed_entry(
    pairs: Seq<(Seq<char>, ToolEntry)>,
    name: Seq<char>,
    repo: Seq<char>,
) -> Option<ToolEntry> {
    match state::looked_up(pairs, name) {
        Some(e) => if e.repo@ == repo {
            Some(e)
        } else {
            None
        },
        None => None,
    }
}

/// The error that a tool is already managed.
pub open spec fn managed_error(name: Seq<char>, tag: Seq<char>) -> Seq<char> {
    "'"@ + name + "' is already managed by ghr ("@ + tag + "). Run `ghr update "@ + name
        + "` to upgrade it, or pass `-t <tag>` to re-pin it to a specific release."@
}

/// What is known of a tool of this name and repository, if this tag was asked for.
pub open spec fn managed_is(
    r: Managed,
    pairs: Seq<(Seq<char>, ToolEntry)>,
    name: Seq<char>,
    repo: Seq<char>,
    tag: Option<Seq<char>>,
) -> bool {
    match managed_entry(pairs, name, repo) {
        None => r is No,
        Some(e) => match tag {
            Some(t) => r matches Managed::Repoint { note } && note@ == "Re-pointing "@ + name
                + " to "@ + t + "."@,
            None => r matches Managed::Refuse { error } && error@ == managed_error(
                name,
                e.installed_tag@,
            ),
        },
    }
}

/// Whether a tool can be installed under a name. A tool that is already managed from the same
/// repository is only moved to a release that was asked for; installing it once more is refused.
pub fn already_managed(state: &State, install_name: &str, repo: &str, tag: Option<&str>) -> (r:
    Managed)
    ensures
        managed_is(r, state.pairs(), install_name@, repo@, text::opt_str(tag)),
{
    let existing = match state.get(install_name) {
        Some(e) => e,
        None => {
            return Managed::No;
        },
    };
    if !text::same_text(existing.repo.as_str(), repo) {
        return Managed::No;
    }
    match tag {
        Some(t) => {
            let mut note = "Re-pointing ".to_owned();
            note.append(install_name);
            note.append(" to ");
            note.append(t);
            note.append(".");
            Managed::Repoint { note }
        },
        None => {
            let mut error = "'".to_owned();
            error.append(install_name);
            error.append("' is already managed by ghr (");
            error.append(existing.installed_tag.as_str());
            error.append("). Run `ghr update ");
            error.append(install_name);
            error.append(
                "` to upgrade it, or pass `-t <tag>` to re-pin it to a specific release.",
            );
            Managed::Refuse { error }
        },
    }
}

/// The directory to install into: the one that the user gave, with the home directory in place of a
/// leading `~`, and else the configured one.
pub fn effective_dir(to: Option<&str>, configured: &str, home: Option<&str>) -> (r: String)
    ensures
        r@ == match to {
            Some(p) => paths::expanded(p@, text::opt_str(home)),
            None => configured@,
        },
{
    match to {
        Some(p) => paths::expand_tilde(p, home),
        None => configured.to_owned(),
    }
}

/// How an installation starts.
#[derive(Debug)]
pub struct InstallStart {
    pub install_dir: String,
    pub install_name: String,
    pub managed: Managed,
}

/// How the installation of a tool starts: the directory, the name, and whether a tool of that name
/// is already managed from the repository.
pub fn cmd_install(
    state: &State,
    repo: &str,
    tag: Option<&str>,
    alias: Option<&str>,
    to: Option<&str>,
    configured_dir: &str,
    home: Option<&str>,
) -> (r: InstallStart)
    ensures
        r.install_dir@ == match to {
            Some(p) => paths::expanded(p@, text::opt_str(home)),
            None => configured_dir@,
        },
        r.install_name@ == installer::install_name_for(repo@, text::opt_str(alias)),
        managed_is(r.managed, state.pairs(), r.install_name@, repo@, text::opt_str(tag)),
{
    let install_dir = effective_dir(to, configured_dir, home);
    let install_name = installer::install_name_of(repo, alias);
    let managed = already_managed(state, install_name.as_str(), repo, tag);
    InstallStart { install_dir, install_name, managed }
}

/// What to say if a file of the name is already on the search path.
pub fn found_on_path_note(install_name: &str, path: &str) -> (r: String)
    ensures
        r@ == "'"@ + install_name@ + "' is already installed at "@ + path@,
{
    let mut s = "'".to_owned();
    s.append(install_name);
    s.append("' is already installed at ");
    s.append(path);
    s
}

/// The files that would be run for a name, in the order of the search path.
pub open spec fn candidates_on(path_var: Seq<char>, name: Seq<char>) -> Seq<Seq<char>> {
    text::pieces(path_var, ':').map_values(|dir: Seq<char>| paths::joined(dir, name))
}

/// The files that would be run for `name`, in the order of the search path.
pub fn find_on_path(path_var: &str, name: &str) -> (r: Vec<String>)
    ensures
        r@.map_values(|t: String| t@) == candidates_on(path_var@, name@),
{
    let dirs = text::split(path_var, ':');
    let ghost all = text::pieces(path_var@, ':');
    let ghost view = |t: String| t@;
    let mut out: Vec<String> = Vec::new();
    proof {
        assert(dirs@.map_values(view).len() == dirs@.len());
    }
    for i in 0..dirs.len()
        invariant
            view == (|t: String| t@),
            all == dirs@.map_values(view),
            out@.len() == i,
            forall|j: int| 0 <= j < i ==> (#[trigger] out@[j])@ == paths::joined(all[j], name@),
    {
        assert(all[i as int] == dirs@[i as int]@);
        out.push(paths::join(dirs[i].as_str(), name));
    }
    assert(out@.map_values(view) =~= candidates_on(path_var@, name@));
    out
}

/// One of the directories of the search path is this one.
pub open spec fn on_path(path_var: Seq<char>, dir: Seq<char>) -> bool {
    exists|i: int|
        0 <= i < text::pieces(path_var, ':').len() && paths::same_path_of(
            #[trigger] text::pieces(path_var, ':')[i],
            dir,
        )
}

/// The warning that a directory is not on the search path.
pub open spec fn path_warning_text(dir: Seq<char>) -> Seq<char> {
    dir + " is not on your PATH. Add it: export PATH=\""@ + dir + ":$PATH\""@
}

/// The warning that the directory is not on the search path, unless it is.
pub fn path_warning(path_var: &str, dir: &str) -> (r: Option<String>)
    ensures
        match r {
            Some(w) => !on_path(path_var@, dir@) && w@ == path_warning_text(dir@),
            None => on_path(path_var@, dir@),
        },
{
    let dirs = text::split(path_var, ':');
    let ghost all = text::pieces(path_var@, ':');
    let ghost view = |t: String| t@;
    proof {
        assert(dirs@.map_values(view).len() == dirs@.len());
    }
    for i in 0..dirs.len()
        invariant
            view == (|t: String| t@),
            all == text::pieces(path_var@, ':'),
            all == dirs@.map_values(view),
            forall|j: int| 0 <= j < i ==> !paths::same_path_of(#[trigger] all[j], dir@),
    {
        assert(all[i as int] == dirs@[i as int]@);
        if paths::same_path(dirs[i].as_str(), dir) {
            return None;
        }
    }
    let mut s = dir.to_owned();
    s.append(" is not on your PATH. Add it: export PATH=\"");
    s.append(dir);
    s.append(":$PATH\"");
    Some(s)
}

/// A directory that stands on the search path as it is written gives no warning.
pub proof fn law_listed_dir_is_on_path(before: Seq<char>, dir: Seq<char>, after: Seq<char>)
    requires
        !dir.contains(':'),
        before.len() > 0 ==> before.last() == ':',
        after.len() > 0 ==> after[0] == ':',
    ensures
        on_path(before + dir + after, dir),
    decreases after.len(),
{
    let s = before + dir + after;
    if after.len() == 0 {
        assert(s =~= before + dir);
        text::lemma_last_piece(before, ':', dir);
        let all = text::pieces(s, ':');
        assert(all[all.len() - 1] == dir);
    } else {
        let front = after.drop_last();
        law_listed_dir_is_on_path(before, dir, front);
        assert(s.drop_last() =~= before + dir + front);
        let all = text::pieces(s.drop_last(), ':');
        let more = text::pieces(s, ':');
        let i = choose|i: int|
            0 <= i < all.len() && paths::same_path_of(#[trigger] all[i], dir);
        text::lemma_pieces_lack(s.drop_last(), ':');
        if s.last() == ':' {
            assert(more[i] == all[i]);
        } else {
            lemma_listed_before_the_end(before, dir, front);
            let j = choose|j: int| 0 <= j < all.len() - 1 && #[trigger] all[j] == dir;
            assert(more[j] == all[j]);
        }
    }
}

/// With a separator behind it, the directory is not the last piece.
proof fn lemma_listed_before_the_end(before: Seq<char>, dir: Seq<char>, after: Seq<char>)
    requires
        !dir.contains(':'),
        before.len() > 0 ==> before.last() == ':',
        after.len() > 0,
        after[0] == ':',
    ensures
        ({
            let all = text::pieces(before + dir + after, ':');
            exists|j: int| 0 <= j < all.len() - 1 && #[trigger] all[j] == dir
        }),
    decreases after.len(),
{
    let s = before + dir + after;
    let front = after.drop_last();
    assert(s.drop_last() =~= before + dir + front);
    let all = text::pieces(s.drop_last(), ':');
    let more = text::pieces(s, ':');
    text::lemma_pieces_lack(s.drop_last(), ':');
    if front.len() == 0 {
        assert(s.last() == after[0]);
        assert(before + dir + front =~= before + dir);
        text::lemma_last_piece(before, ':', dir);
        let j = all.len() - 1;
        assert(more[j] == all[j]);
    } else {
        lemma_listed_before_the_end(before, dir, front);
        let j = choose|j: int| 0 <= j < all.len() - 1 && #[trigger] all[j] == dir;
        assert(more[j] == all[j]);
    }
}

/// What to say when a tool is installed.
pub fn installed_note(install_name: &str, tag: &str, path: &str) -> (r: String)
    ensures
        r@ == "Installed "@ + install_name@ + " "@ + tag@ + " → "@ + path@,
{
    let mut s = "Installed ".to_owned();
    s.append(install_name);
    s.append(" ");
    s.append(tag);
    s.append(" → ");
    s.append(path);
    s
}

} // verus!
