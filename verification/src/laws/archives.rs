//! Archives, and the binaries inside them.

use vstd::prelude::*;

use crate::error::GhrError;
use crate::github::types::{Asset, Release, Timestamp};
use crate::installer;
use crate::installer::binary;
use crate::installer::binary::InstallPaths;
use crate::installer::extract;
use crate::installer::extract::{ArchiveKind, BinarySearchResult, WalkedFile};
use crate::installer::{
    Downloaded, InstallGuard, InstallResult, InstallSpec, InstallSpecBuilder, Located, Source,
};
use crate::laws::picking;
use crate::paths;
use crate::text;
use crate::unicode;

verus! {

/// The whole name of the file is this one.
pub open spec fn goes_by(file: WalkedFile, name: Seq<char>) -> bool {
    match file.name {
        Some(n) => n@ == name,
        None => false,
    }
}

/// The file at this place has the name, and none before it has.
pub open spec fn first_of_that_name(files: Seq<WalkedFile>, name: Seq<char>, i: int) -> bool {
    &&& 0 <= i < files.len()
    &&& goes_by(files[i], name)
    &&& forall|k: int| 0 <= k < i ==> !goes_by(#[trigger] files[k], name)
}

/// No file has the name.
pub open spec fn unnamed(files: Seq<WalkedFile>, name: Seq<char>) -> bool {
    forall|k: int| 0 <= k < files.len() ==> !goes_by(#[trigger] files[k], name)
}

/// The file at this place is a program, and no other is.
pub open spec fn only_program(files: Seq<WalkedFile>, i: int) -> bool {
    &&& 0 <= i < files.len()
    &&& files[i].elf
    &&& forall|k: int| 0 <= k < files.len() && k != i ==> !(#[trigger] files[k]).elf
}

proof fn lemma_named(files: Seq<WalkedFile>, name: Seq<char>)
    ensures
        0 <= extract::named_position(files, name) <= files.len(),
        extract::named_position(files, name) == files.len() <==> unnamed(files, name),
        extract::named_position(files, name) < files.len() ==> first_of_that_name(
            files,
            name,
            extract::named_position(files, name),
        ),
    decreases files.len(),
{
    if files.len() > 0 {
        assert(extract::is_named(files[0], name) == goes_by(files[0], name));
        if !extract::is_named(files[0], name) {
            let more = files.drop_first();
            lemma_named(more, name);
            let p = extract::named_position(files, name);
            assert forall|k: int| 0 <= k < p && k < files.len() implies !goes_by(
                #[trigger] files[k],
                name,
            ) by {
                if k > 0 {
                    assert(files[k] == more[k - 1]);
                }
            }
            if p < files.len() {
                assert(files[p] == more[p - 1]);
            }
        } else {
            assert(goes_by(files[0], name));
        }
    }
}

/// A file whose whole name is the one that is searched for is found, the first of them if there are
/// several. What else is found is the only program of an archive without such a file. Of several
/// programs all are offered, in their order; without any, nothing is found.
pub proof fn law_binary_goes_by_its_whole_name(
    files: Vec<WalkedFile>,
    name: &str,
    r: BinarySearchResult,
) -> (order: Seq<int>)
    requires
        call_ensures(extract::find_binary, (files, name), r),
    ensures
        forall|i: int| #[trigger]
            first_of_that_name(files@, name@, i) ==> r == BinarySearchResult::Found(files@[i].path),
        forall|i: int|
            unnamed(files@, name@) && #[trigger] only_program(files@, i)
                ==> r == BinarySearchResult::Found(files@[i].path),
        r matches BinarySearchResult::Found(p) ==> exists|i: int|
            0 <= i < files@.len() && (#[trigger] files@[i]).path == p && (first_of_that_name(
                files@,
                name@,
                i,
            ) || unnamed(files@, name@) && only_program(files@, i)),
        r is NotFound <==> unnamed(files@, name@) && forall|k: int|
            0 <= k < files@.len() ==> !(#[trigger] files@[k]).elf,
        r matches BinarySearchResult::Multiple(list) ==> {
            &&& unnamed(files@, name@)
            &&& picking::ascending(order, files@.len())
            &&& order.len() == list@.len()
            &&& list@.len() >= 2
            &&& forall|k: int|
                0 <= k < list@.len() ==> list@[k] == files@[#[trigger] order[k]].path
                    && files@[order[k]].elf
            &&& forall|i: int|
                0 <= i < files@.len() && files@[i].elf ==> #[trigger] order.contains(i)
        },
{
    let all = files@;
    let f = |w: WalkedFile| w.elf;
    lemma_named(all, name@);
    let p = extract::named_position(all, name@);
    let order = picking::lemma_kept(all, f);
    let programs = extract::elf_paths(all);
    assert(programs.len() == order.len());
    assert forall|k: int| 0 <= k < order.len() implies programs[k] == all[#[trigger] order[k]].path
        && all[order[k]].elf by {
        assert(f(all[order[k]]));
    }
    assert forall|i: int| #[trigger] first_of_that_name(all, name@, i) implies i == p by {
        if i < p {
            assert(!goes_by(all[i], name@));
        } else if p < i {
            assert(!goes_by(all[p], name@));
        }
    }
    assert forall|i: int| #[trigger] only_program(all, i) implies order.len() == 1 && order[0] == i by {
        assert(f(all[i]));
        assert(order.contains(i));
        if order.len() > 1 {
            assert(order[0] < order[1]);
            assert(f(all[order[0]]) && f(all[order[1]]));
        }
        assert(f(all[order[0]]));
    }
    if order.len() == 1 {
        assert(only_program(all, order[0])) by {
            assert(f(all[order[0]]));
            assert forall|k: int| 0 <= k < all.len() && k != order[0] implies !(
            #[trigger] all[k]).elf by {
                if all[k].elf {
                    assert(f(all[k]));
                    assert(order.contains(k));
                }
            }
        }
        assert(programs[0] == all[order[0]].path);
    }
    if order.len() == 0 {
        assert forall|k: int| 0 <= k < all.len() implies !(#[trigger] all[k]).elf by {
            if all[k].elf {
                assert(f(all[k]));
                assert(order.contains(k));
            }
        }
    } else {
        assert(all[order[0]].elf);
    }
    assert forall|i: int| 0 <= i < all.len() && all[i].elf implies #[trigger] order.contains(i) by {
        assert(f(all[i]));
    }
    order
}

/// What was found is taken, several are left to choose from, and none is an error.
pub proof fn law_search_decides(found: BinarySearchResult, r: Result<Located, GhrError>)
    requires
        call_ensures(installer::locate, (found,), r),
    ensures
        found matches BinarySearchResult::Found(p) ==> r == Ok::<Located, GhrError>(Located::One(p)),
        found matches BinarySearchResult::Multiple(l) ==> r == Ok::<Located, GhrError>(
            Located::Choose(l),
        ),
        found is NotFound <==> r is Err,
        r matches Err(e) ==> e is BinaryNotFoundInArchive,
{
}

/// A path ends in this name.
pub open spec fn leads_to(path: Seq<char>, dir: Seq<char>, name: Seq<char>) -> bool {
    &&& path == dir + seq!['/'] + name
    &&& dir.len() > 0
    &&& paths::plain_name(name)
}

/// A file is unpacked by the ending of its name, in any letter case, wherever it is.
pub proof fn law_endings_tell_the_kind(path: &str, dir: Seq<char>, name: Seq<char>, r: ArchiveKind)
    requires
        call_ensures(extract::extract_archive, (path,), r),
        leads_to(path@, dir, name),
    ensures
        ({
            let n = unicode::lowercase(name);
            let gz = text::has_suffix(n, ".tar.gz"@) || text::has_suffix(n, ".tgz"@);
            let xz = text::has_suffix(n, ".tar.xz"@);
            let bz = text::has_suffix(n, ".tar.bz2"@);
            let zip = text::has_suffix(n, ".zip"@);
            &&& r == ArchiveKind::TarGz <==> gz
            &&& r == ArchiveKind::TarXz <==> xz
            &&& r == ArchiveKind::TarBz2 <==> bz
            &&& r == ArchiveKind::Zip <==> zip
            &&& r == ArchiveKind::Raw <==> !gz && !xz && !bz && !zip
        }),
{
    installer::law_repo_names_the_binary(dir, name);
    assert(text::behind_last(path@, '/') == name);
    lemma_one_ending(unicode::lowercase(name));
}

pub proof fn lemma_one_ending(n: Seq<char>)
    ensures
        text::has_suffix(n, ".tar.gz"@) || text::has_suffix(n, ".tgz"@) ==> n.last() == 'z' && n[n.len()
            - 2] == 'g',
        text::has_suffix(n, ".tar.xz"@) ==> n.last() == 'z' && n[n.len() - 2] == 'x',
        text::has_suffix(n, ".tar.bz2"@) ==> n.last() == '2',
        text::has_suffix(n, ".zip"@) ==> n.last() == 'p',
{
    reveal_strlit(".tar.gz");
    reveal_strlit(".tgz");
    reveal_strlit(".tar.xz");
    reveal_strlit(".tar.bz2");
    reveal_strlit(".zip");
    if text::has_suffix(n, ".tar.gz"@) {
        let s = n.subrange(n.len() - 7, n.len() as int);
        assert(s[6] == n[n.len() - 1] && s[5] == n[n.len() - 2]);
    }
    if text::has_suffix(n, ".tgz"@) {
        let s = n.subrange(n.len() - 4, n.len() as int);
        assert(s[3] == n[n.len() - 1] && s[2] == n[n.len() - 2]);
    }
    if text::has_suffix(n, ".tar.xz"@) {
        let s = n.subrange(n.len() - 7, n.len() as int);
        assert(s[6] == n[n.len() - 1] && s[5] == n[n.len() - 2]);
    }
    if text::has_suffix(n, ".tar.bz2"@) {
        let s = n.subrange(n.len() - 8, n.len() as int);
        assert(s[7] == n[n.len() - 1]);
    }
    if text::has_suffix(n, ".zip"@) {
        let s = n.subrange(n.len() - 4, n.len() as int);
        assert(s[3] == n[n.len() - 1]);
    }
}

/// An asset is an archive if its name has one of the endings or its content type says so, in any
/// letter case; and not otherwise.
pub proof fn law_archives_go_by_name_or_type(asset: &Asset, r: bool)
    requires
        call_ensures(installer::is_archive, (asset,), r),
    ensures
        ({
            let n = unicode::lowercase(asset.name@);
            let t = unicode::lowercase(asset.content_type@);
            &&& text::has_suffix(n, ".tar.gz"@) ==> r
            &&& text::has_suffix(n, ".tgz"@) ==> r
            &&& text::has_suffix(n, ".tar.xz"@) ==> r
            &&& text::has_suffix(n, ".tar.bz2"@) ==> r
            &&& text::has_suffix(n, ".zip"@) ==> r
            &&& text::has_part(t, "gzip"@) ==> r
            &&& text::has_part(t, "x-tar"@) ==> r
            &&& text::has_part(t, "x-xz"@) ==> r
            &&& text::has_part(t, "x-bzip2"@) ==> r
            &&& t == "application/zip"@ ==> r
            &&& r ==> text::has_suffix(n, ".tar.gz"@) || text::has_suffix(n, ".tgz"@)
                || text::has_suffix(n, ".tar.xz"@) || text::has_suffix(n, ".tar.bz2"@)
                || text::has_suffix(n, ".zip"@) || text::has_part(t, "gzip"@) || text::has_part(
                t,
                "x-tar"@,
            ) || text::has_part(t, "x-xz"@) || text::has_part(t, "x-bzip2"@) || t
                == "application/zip"@
        }),
{
}

/// A program begins with the byte 127 and the letters `ELF`, and what begins so is one.
pub proof fn law_programs_begin_alike(start: &[u8], r: bool)
    requires
        call_ensures(extract::is_elf, (start,), r),
    ensures
        r <==> start@.len() >= 4 && start@[0] == 127 && start@[1] == 'E' as u8 && start@[2] == 'L' as u8
            && start@[3] == 'F' as u8,
{
    let s = start@;
    if s.len() >= 4 {
        let t = s.take(4);
        assert(t[0] == s[0] && t[1] == s[1] && t[2] == s[2] && t[3] == s[3]);
        assert('E' as u8 == 0x45 && 'L' as u8 == 0x4c && 'F' as u8 == 0x46);
        if s[0] == 127 && s[1] == 0x45 && s[2] == 0x4c && s[3] == 0x46 {
            assert(t =~= seq![0x7fu8, 0x45u8, 0x4cu8, 0x46u8]);
        }
    }
}

/// A file can be run if its owner, its group or the others may run it.
pub proof fn law_someone_may_run_it(mode: u32, r: bool)
    requires
        call_ensures(extract::is_executable, (mode,), r),
    ensures
        r <==> mode & 0o100 != 0 || mode & 0o010 != 0 || mode & 0o001 != 0,
{
    assert(mode & 0o111 != 0 <==> mode & 0o100 != 0 || mode & 0o010 != 0 || mode & 0o001 != 0)
        by (bit_vector);
}

/// A binary that was made executable can be read and run by all and written by its owner, and has no
/// permission besides these and its own.
pub proof fn law_permissions_are_added(mode: u32, r: u32)
    requires
        call_ensures(binary::make_executable, (mode,), r),
    ensures
        r & 0o755 == 0o755,
        r & mode == mode,
        r & !0o755 == mode & !0o755,
{
    assert((mode | 0o755) & 0o755 == 0o755) by (bit_vector);
    assert((mode | 0o755) & mode == mode) by (bit_vector);
    assert((mode | 0o755) & !0o755 == mode & !0o755) by (bit_vector);
}

/// A binary goes below its directory under its name; before that it is beside it, hidden, under
/// another one.
pub proof fn law_binary_is_written_beside_its_place(dir: &str, name: &str, r: InstallPaths)
    requires
        call_ensures(binary::atomic_install, (dir, name), r),
        dir@.len() > 0,
        dir@.last() != '/',
        paths::plain_name(name@),
    ensures
        r.dest@ == dir@ + seq!['/'] + name@,
        r.tmp@ == dir@ + seq!['/'] + seq!['.'] + name@ + seq!['.', 't', 'm', 'p'],
{
    reveal_strlit(".");
    reveal_strlit(".tmp");
    assert(name@.contains(name@[0]));
    assert("."@ =~= seq!['.']);
    assert(".tmp"@ =~= seq!['.', 't', 'm', 'p']);
    let t = "."@ + name@ + ".tmp"@;
    assert(t[0] == '.');
    assert(r.dest@ =~= dir@ + seq!['/'] + name@);
    assert(r.tmp@ =~= dir@ + seq!['/'] + seq!['.'] + name@ + seq!['.', 't', 'm', 'p']);
}

/// A repository `owner/name` names its tool by what stands behind the last stroke, and an alias takes
/// its place.
pub proof fn law_alias_or_repository_names_the_tool(
    repo: &str,
    alias: Option<&str>,
    owner: Seq<char>,
    name: Seq<char>,
    plain: &str,
    r: String,
)
    requires
        call_ensures(installer::default_binary_name, (repo,), plain),
        call_ensures(installer::install_name_of, (repo, alias), r),
        repo@ == owner + seq!['/'] + name,
        !name.contains('/'),
    ensures
        plain@ == name,
        alias is None ==> r@ == name,
        alias matches Some(a) ==> r@ == a@,
{
    installer::law_repo_names_the_binary(owner, name);
}

/// A spec begins with nothing set, and each setting changes only itself.
pub proof fn law_settings_change_only_themselves<'a>(
    repo: &'a str,
    release: &'a Release,
    asset: &'a Asset,
    b: InstallSpecBuilder<'a>,
    dir: &'a str,
    name: String,
    begun: InstallSpecBuilder<'a>,
    with_dir: InstallSpecBuilder<'a>,
    with_name: InstallSpecBuilder<'a>,
)
    requires
        call_ensures(InstallSpec::builder, (repo, release, asset), begun),
        call_ensures(InstallSpecBuilder::install_dir, (b, dir), with_dir),
        call_ensures(InstallSpecBuilder::install_name, (b, name), with_name),
    ensures
        begun.repo == repo && begun.release == release && begun.asset == asset,
        begun.install_dir is None && begun.install_name is None,
        with_dir.install_dir == Some(dir),
        with_dir.install_name == b.install_name,
        with_dir.repo == b.repo && with_dir.release == b.release && with_dir.asset == b.asset,
        with_name.install_name == Some(name),
        with_name.install_dir == b.install_dir,
        with_name.repo == b.repo && with_name.release == b.release && with_name.asset == b.asset,
{
}

/// What is to be removed in the end grows by what is tracked, and by nothing else.
pub proof fn law_tracked_files_are_added(
    at_first: InstallGuard,
    a: &mut InstallGuard,
    b: &mut InstallGuard,
    path: String,
    r: (),
)
    requires
        call_ensures(InstallGuard::new, (), at_first),
        call_ensures(InstallGuard::track_file, (a, path), r),
        call_ensures(InstallGuard::track_dir, (b, path), r),
    ensures
        at_first.temp_files@.len() == 0 && at_first.temp_dirs@.len() == 0,
        final(a).temp_files@ == old(a).temp_files@ + seq![path],
        final(a).temp_dirs@ == old(a).temp_dirs@,
        final(b).temp_dirs@ == old(b).temp_dirs@ + seq![path],
        final(b).temp_files@ == old(b).temp_files@,
{
    assert(old(a).temp_files@.push(path) =~= old(a).temp_files@ + seq![path]);
    assert(old(b).temp_dirs@.push(path) =~= old(b).temp_dirs@ + seq![path]);
}

/// What is built is what was set: the names are by the repository unless one was given.
pub proof fn law_spec_is_what_was_set(
    b: InstallSpecBuilder,
    r: InstallSpec,
    owner: Seq<char>,
    name: Seq<char>,
)
    requires
        call_ensures(InstallSpecBuilder::build, (b,), r),
        b.install_dir is Some,
        b.repo@ == owner + seq!['/'] + name,
        !name.contains('/'),
    ensures
        r.repo == b.repo,
        r.release == b.release,
        r.asset == b.asset,
        r.install_dir == b.install_dir->0,
        r.find_name@ == name,
        b.install_name matches Some(n) ==> r.install_name@ == n@,
        b.install_name is None ==> r.install_name@ == name,
{
    installer::law_repo_names_the_binary(owner, name);
}

/// An archive is unpacked below the cache, into a directory of its own that is removed in the end;
/// another asset is the binary itself. Nothing else of the download changes.
pub proof fn law_archives_are_unpacked_aside(
    spec_of: &InstallSpec,
    dl: &mut Downloaded,
    cache: &str,
    archive: bool,
    r: Source,
)
    requires
        call_ensures(InstallSpec::source, (spec_of, dl, cache), r),
        call_ensures(installer::is_archive, (spec_of.asset,), archive),
        cache@.len() > 0,
        cache@.last() != '/',
        paths::plain_name(spec_of.asset.name@),
    ensures
        final(dl).asset_path == old(dl).asset_path,
        final(dl).sha256 == old(dl).sha256,
        final(dl).guard.temp_files@ == old(dl).guard.temp_files@,
        archive <==> r is Archive,
        !archive ==> r is Raw && final(dl).guard.temp_dirs@ == old(dl).guard.temp_dirs@,
        r matches Source::Archive { extract_dir } ==> extract_dir@ == cache@ + seq!['/']
            + spec_of.asset.name@ + "-extract"@ && final(dl).guard.temp_dirs@ == old(
            dl,
        ).guard.temp_dirs@ + seq![extract_dir],
{
    let n = spec_of.asset.name@ + "-extract"@;
    reveal_strlit("-extract");
    assert(spec_of.asset.name@.contains(spec_of.asset.name@[0]));
    assert(n[0] == spec_of.asset.name@[0]);
    if let Source::Archive { extract_dir } = r {
        assert(extract_dir@ =~= cache@ + seq!['/'] + spec_of.asset.name@ + "-extract"@);
        assert(final(dl).guard.temp_dirs@ =~= old(dl).guard.temp_dirs@ + seq![extract_dir]);
    }
}

/// What is recorded of an installed tool is its release, its place, its name, the digest of the
/// download and this moment. No ETag is recorded, and the tool is not behind its own release.
pub proof fn law_installed_tool_is_recorded(
    spec_of: &InstallSpec,
    dl: &Downloaded,
    now: Timestamp,
    place: InstallPaths,
    r: InstallResult,
)
    requires
        call_ensures(InstallSpec::install, (spec_of, dl, now), r),
        call_ensures(InstallSpec::place, (spec_of,), place),
        spec_of.install_dir@.len() > 0,
        spec_of.install_dir@.last() != '/',
        paths::plain_name(spec_of.install_name@),
    ensures
        place.dest@ == spec_of.install_dir@ + seq!['/'] + spec_of.install_name@,
        r.installed_path@ == place.dest@,
        r.tool_entry.install_path@ == place.dest@,
        r.tool_entry.repo@ == spec_of.repo@,
        r.tool_entry.installed_tag@ == spec_of.release.tag_name@,
        r.tool_entry.binary_name@ == spec_of.install_name@,
        r.tool_entry.installed_sha256 == dl.sha256,
        r.tool_entry.etag is None,
        r.tool_entry.last_checked == Some(now),
        r.tool_entry.published_at == Some(spec_of.release.published_at),
{
    assert(spec_of.install_name@.contains(spec_of.install_name@[0]));
    assert(place.dest@ =~= spec_of.install_dir@ + seq!['/'] + spec_of.install_name@);
}

} // verus!
