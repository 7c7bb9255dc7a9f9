//! Where things go, for paths of every form: what is put behind what, and what is cut off.

use vstd::prelude::*;

use crate::adopt;
use crate::adopt::{Adoption, FileFacts};
use crate::config;
use crate::config::Config;
use crate::github::types::{Asset, Release, Timestamp};
use crate::install;
use crate::installer;
use crate::installer::binary;
use crate::installer::binary::InstallPaths;
use crate::installer::download;
use crate::installer::extract;
use crate::installer::extract::ArchiveKind;
use crate::installer::{Downloaded, InstallResult, InstallSpec, InstallSpecBuilder, Source};
use crate::laws::tools::nameless;
use crate::manifest::Manifest;
use crate::paths;
use crate::paths::joined;
use crate::state::{State, ToolEntry};
use crate::text;
use crate::timer;
use crate::unicode;
use crate::uninstall;
use crate::update::PendingUpdate;

verus! {

/// What std says of paths is said where the form of the path does not tell it.
pub proof fn law_std_decides_the_rest(
    path: &str,
    base: &str,
    file: Option<&str>,
    above: Option<&str>,
    below: Option<&str>,
    same: bool,
)
    requires
        call_ensures(paths::file_name, (path,), file),
        call_ensures(paths::parent, (path,), above),
        call_ensures(paths::strip_prefix, (path, base), below),
        call_ensures(paths::same_path, (path, base), same),
    ensures
        !paths::plain_name(text::behind_last(path@, '/')) ==> text::opt_str(file)
            == paths::std_file_name(path@),
        paths::plain_name(path@) ==> (above matches Some(d) && d@.len() == 0),
        !paths::plain_name(path@) && !paths::under_dir(path@) ==> text::opt_str(above)
            == paths::std_parent(path@),
        path@ == base@ ==> (below matches Some(b) && b@.len() == 0),
        base@ == seq!['~'] && path@ != base@ && !(path@.len() > 1 && path@[0] == '~' && path@[1] == '/')
            ==> below is None,
        path@ != base@ && !paths::lies_under(path@, base@) && base@ != seq!['~'] ==> text::opt_str(
            below,
        ) == paths::std_strip_prefix(path@, base@),
        same <==> path@ == base@ || paths::std_same_path(path@, base@),
{
    let tilde = seq!['~'];
    if base@ == tilde && path@ != base@ && !(path@.len() > 1 && path@[0] == '~' && path@[1] == '/') {
        if paths::lies_under(path@, tilde) {
            assert(path@.subrange(0, 1)[0] == path@[0]);
        }
        if paths::begins_with_tilde(path@) {
            assert(path@ =~= tilde);
        }
    }
}

/// A leading `~` is cut off and the rest put behind the home directory; the home directory is cut off
/// and the rest put behind `~`. What cannot be cut off stays, and so does every path without a home.
pub proof fn law_what_is_cut_off_is_put_back(
    path: &str,
    tilde: &str,
    h: &str,
    behind_tilde: Option<&str>,
    behind_home: Option<&str>,
    expanded: String,
    shortened: String,
    homeless: String,
    homeless_too: String,
)
    requires
        tilde@ == seq!['~'],
        call_ensures(paths::strip_prefix, (path, tilde), behind_tilde),
        call_ensures(paths::strip_prefix, (path, h), behind_home),
        call_ensures(paths::expand_tilde, (path, Some(h)), expanded),
        call_ensures(paths::shorten_home, (path, Some(h)), shortened),
        call_ensures(paths::expand_tilde, (path, None::<&str>), homeless),
        call_ensures(paths::shorten_home, (path, None::<&str>), homeless_too),
    ensures
        behind_tilde matches Some(rest) ==> expanded@ == joined(h@, rest@),
        behind_tilde is None ==> expanded@ == path@,
        behind_home matches Some(rest) ==> shortened@ == joined(seq!['~'], rest@),
        behind_home is None ==> shortened@ == path@,
        homeless@ == path@,
        homeless_too@ == path@,
{
}

/// A directory of the user is the one that is known, or else what is put behind the home directory, or
/// behind nothing.
pub proof fn law_home_takes_the_place_of_a_directory(
    dir: Option<&str>,
    home: Option<&str>,
    below: &str,
    r: String,
)
    requires
        call_ensures(paths::user_dir_of, (dir, home, below), r),
    ensures
        dir matches Some(d) ==> r@ == d@,
        dir is None ==> (home matches Some(h) ==> r@ == joined(h@, below@)),
        dir is None && home is None ==> r@ == below@,
{
    if dir is None && home is None {
        assert(Seq::<char>::empty() + below@ =~= below@);
    }
}

/// What is put behind a directory of the user, whatever that directory looks like.
pub open spec fn is_behind(
    r: Seq<char>,
    dir: Option<&str>,
    home: Option<&str>,
    in_home: Seq<char>,
    file: Seq<char>,
) -> bool {
    r == joined(
        match dir {
            Some(d) => d@,
            None => match home {
                Some(h) => joined(h@, in_home),
                None => joined(Seq::empty(), in_home),
            },
        },
        file,
    )
}

/// Each file and directory of the program is put behind its directory of the user.
pub proof fn law_own_files_are_put_behind(
    dir: Option<&str>,
    home: Option<&str>,
    config_dir: String,
    config_file: String,
    manifest_file: String,
    state_file: String,
    lock: String,
    logs: String,
    cache: String,
    units: String,
)
    requires
        call_ensures(config::config_dir, (dir, home), config_dir),
        call_ensures(Config::config_path, (dir, home), config_file),
        call_ensures(Manifest::manifest_path, (dir, home), manifest_file),
        call_ensures(State::state_path, (dir, home), state_file),
        call_ensures(uninstall::lock_path, (dir, home), lock),
        call_ensures(uninstall::log_dir, (dir, home), logs),
        call_ensures(download::cache_dir, (dir, home), cache),
        call_ensures(timer::systemd_user_dir, (dir, home), units),
    ensures
        is_behind(config_dir@, dir, home, ".config"@, "ghr"@),
        is_behind(config_file@, dir, home, ".config"@, "ghr/config.toml"@),
        manifest_file@ == joined(config_dir@, "manifest.toml"@),
        is_behind(state_file@, dir, home, ".local/share"@, "ghr/state.toml"@),
        is_behind(lock@, dir, home, ".local/share"@, "binto/.lock"@),
        is_behind(logs@, dir, home, ".local/share"@, "ghr/logs"@),
        is_behind(cache@, dir, home, ".cache"@, "ghr"@),
        is_behind(units@, dir, home, ".config"@, "systemd/user"@),
{
}

/// Binaries go below the home directory by default, and below `/tmp` without one.
pub proof fn law_binaries_are_put_behind_the_home(home: Option<&str>, r: String)
    requires
        call_ensures(config::default_install_dir, (home,), r),
    ensures
        home matches Some(h) ==> r@ == joined(h@, ".local/bin"@),
        home is None ==> r@ == joined("/tmp"@, ".local/bin"@),
{
}

/// A binary is put behind its directory, and before that under a hidden name; a download is put behind
/// the cache.
pub proof fn law_binaries_are_put_behind_their_directory(
    dir: &str,
    name: &str,
    r: InstallPaths,
    download: String,
)
    requires
        call_ensures(binary::atomic_install, (dir, name), r),
        call_ensures(crate::installer::download::download_to_cache, (dir, name), download),
    ensures
        r.dest@ == joined(dir@, name@),
        r.tmp@ == joined(dir@, seq!['.'] + name@ + ".tmp"@),
        download@ == joined(dir@, name@),
{
    reveal_strlit(".");
    assert("."@ =~= seq!['.']);
}

/// What a spec says is where the binary goes and what is recorded.
pub proof fn law_spec_says_where_it_goes(
    spec_of: &InstallSpec,
    dl: &Downloaded,
    now: Timestamp,
    place: InstallPaths,
    r: InstallResult,
)
    requires
        call_ensures(InstallSpec::install, (spec_of, dl, now), r),
        call_ensures(InstallSpec::place, (spec_of,), place),
    ensures
        place.dest@ == joined(spec_of.install_dir@, spec_of.install_name@),
        place.tmp@ == joined(spec_of.install_dir@, seq!['.'] + spec_of.install_name@ + ".tmp"@),
        r.installed_path@ == place.dest@,
        r.tool_entry.install_path@ == place.dest@,
        r.tool_entry.binary_name@ == spec_of.install_name@,
        r.tool_entry.repo@ == spec_of.repo@,
        r.tool_entry.installed_tag@ == spec_of.release.tag_name@,
        r.tool_entry.installed_sha256 == dl.sha256,
        r.tool_entry.etag is None,
        r.tool_entry.last_checked == Some(now),
        r.tool_entry.published_at == Some(spec_of.release.published_at),
{
    reveal_strlit(".");
    assert("."@ =~= seq!['.']);
}

/// The pattern that is recorded of an installed tool is the one that is made of its asset and its tag.
pub proof fn law_pattern_is_recorded(
    spec_of: &InstallSpec,
    dl: &Downloaded,
    now: Timestamp,
    name: &str,
    tag: &str,
    pattern: String,
    r: InstallResult,
)
    requires
        call_ensures(InstallSpec::install, (spec_of, dl, now), r),
        call_ensures(crate::matcher::pattern::asset_to_pattern, (name, tag), pattern),
        name@ == spec_of.asset.name@,
        tag@ == spec_of.release.tag_name@,
    ensures
        r.tool_entry.asset_pattern@ == pattern@,
{
}

/// An archive is unpacked into a directory that is put behind the cache.
pub proof fn law_archives_are_put_behind_the_cache(
    spec_of: &InstallSpec,
    dl: &mut Downloaded,
    cache: &str,
    archive: bool,
    r: Source,
)
    requires
        call_ensures(InstallSpec::source, (spec_of, dl, cache), r),
        call_ensures(installer::is_archive, (spec_of.asset,), archive),
    ensures
        final(dl).asset_path == old(dl).asset_path,
        final(dl).sha256 == old(dl).sha256,
        final(dl).guard.temp_files@ == old(dl).guard.temp_files@,
        archive <==> r is Archive,
        !archive ==> final(dl).guard.temp_dirs@ == old(dl).guard.temp_dirs@,
        r matches Source::Archive { extract_dir } ==> extract_dir@ == joined(
            cache@,
            spec_of.asset.name@ + "-extract"@,
        ) && final(dl).guard.temp_dirs@ == old(dl).guard.temp_dirs@.push(extract_dir),
{
}

/// A file without a name is no archive, and any other is what its name says.
pub proof fn law_kind_is_by_the_name(path: &str, name: Option<&str>, r: ArchiveKind)
    requires
        call_ensures(extract::extract_archive, (path,), r),
        call_ensures(paths::file_name, (path,), name),
    ensures
        name matches Some(n) ==> ({
            let l = unicode::lowercase(n@);
            let gz = text::has_suffix(l, ".tar.gz"@) || text::has_suffix(l, ".tgz"@);
            let xz = text::has_suffix(l, ".tar.xz"@);
            let bz = text::has_suffix(l, ".tar.bz2"@);
            let zip = text::has_suffix(l, ".zip"@);
            &&& r == ArchiveKind::TarGz <==> gz
            &&& r == ArchiveKind::TarXz <==> xz
            &&& r == ArchiveKind::TarBz2 <==> bz
            &&& r == ArchiveKind::Zip <==> zip
        }),
{
    if let Some(n) = name {
        crate::laws::archives::lemma_one_ending(unicode::lowercase(n@));
    }
}

/// A tool goes where it is or, if its path has no directory, to the fallback; an update goes there, too.
pub proof fn law_directory_of_a_tool_is_above_it(
    entry: &ToolEntry,
    path: &str,
    fallback: &str,
    above: Option<&str>,
    r: &str,
    name: String,
    release: Release,
    asset: Asset,
    etag: Option<String>,
    pending: PendingUpdate,
)
    requires
        call_ensures(ToolEntry::install_dir, (entry, fallback), r),
        call_ensures(PendingUpdate::new, (name, *entry, release, asset, fallback, etag), pending),
        path@ == entry.install_path@,
        call_ensures(paths::parent, (path,), above),
    ensures
        above matches Some(d) ==> r@ == d@,
        above is None ==> r@ == fallback@,
        pending.install_dir@ == r@,
        pending.name == name && pending.entry == *entry && pending.release == release && pending.asset
            == asset && pending.new_etag == etag,
{
}

/// A repository without a slash goes by all of itself; the name of a spec is its own or that one.
pub proof fn law_repository_without_a_slash(
    repo: &str,
    alias: Option<&str>,
    plain: &str,
    r: String,
    b: InstallSpecBuilder,
    built: InstallSpec,
)
    requires
        call_ensures(installer::default_binary_name, (repo,), plain),
        call_ensures(installer::install_name_of, (repo, alias), r),
        call_ensures(InstallSpecBuilder::build, (b,), built),
        b.install_dir is Some,
        b.repo@ == repo@,
    ensures
        !repo@.contains('/') ==> plain@ == repo@,
        alias matches Some(a) ==> r@ == a@,
        alias is None ==> r@ == plain@,
        built.find_name@ == plain@,
        b.install_name matches Some(n) ==> built.install_name@ == n@,
        b.install_name is None ==> built.install_name@ == plain@,
{
    if !repo@.contains('/') {
        assert forall|j: int| 0 <= j < repo@.len() implies repo@[j] != '/' by {
            assert(repo@.contains(repo@[j]));
        }
        text::lemma_behind_last_is(repo@, '/', 0);
        assert(repo@.skip(0) =~= repo@);
    }
}

/// A binary whose path has no name cannot be adopted; else it goes by the name of its path.
pub proof fn law_adopted_binary_goes_by_its_name(
    path: &str,
    facts: &FileFacts,
    state: &State,
    file: Option<&str>,
    r: Adoption,
)
    requires
        call_ensures(adopt::cmd_adopt, (path, facts, state), r),
        call_ensures(paths::file_name, (path,), file),
        facts.exists && facts.is_file && facts.executable,
    ensures
        file is None ==> (r matches Adoption::Refuse { error } && error@
            == "could not determine binary name from path"@),
        file matches Some(f) ==> (r is Managed <==> !nameless(state.pairs(), f@)),
        file matches Some(f) ==> (r matches Adoption::Adopt { name } ==> name@ == f@),
        file is Some ==> !(r is Refuse),
{
    if let Some(f) = file {
        crate::laws::tools::law_lookup_is_by_name(state.pairs(), f@);
    }
}

/// The data directory is the one above the state; if there is none, there is nothing to remove.
pub proof fn law_data_is_above_the_state(
    own: &uninstall::OwnPaths,
    state: &str,
    above: Option<&str>,
    r: Option<uninstall::Step>,
)
    requires
        call_ensures(uninstall::run_option, (uninstall::UninstallOption::Data, own), r),
        state@ == own.state@,
        call_ensures(paths::parent, (state,), above),
    ensures
        above is None ==> r is None,
        above matches Some(d) ==> (r matches Some(uninstall::Step::Dir { path, note: Some(n) }) && path@
            == d@ && n@ == "Deleted "@ + d@),
{
}

/// The file that is looked for is put behind each directory of the search path.
pub proof fn law_name_is_put_behind_every_directory(
    path_var: &str,
    name: &str,
    r: Vec<String>,
    i: int,
)
    requires
        call_ensures(install::find_on_path, (path_var, name), r),
    ensures
        r@.len() == text::pieces(path_var@, ':').len(),
        0 <= i < r@.len() ==> r@[i]@ == joined(text::pieces(path_var@, ':')[i], name@),
{
    let view = |t: String| t@;
    assert(r@.map_values(view) == install::candidates_on(path_var@, name@));
    assert(r@.map_values(view).len() == r@.len());
    if 0 <= i < r@.len() {
        assert(r@.map_values(view)[i] == r@[i]@);
    }
}

} // verus!
