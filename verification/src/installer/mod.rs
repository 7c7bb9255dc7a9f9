//! From a release and an asset to an installed binary.

pub mod binary;
pub mod checksum;
pub mod digest;
pub mod download;
pub mod extract;

use vstd::prelude::*;

use std::path::PathBuf;

use crate::error::GhrError;
use crate::github::types::{Asset, Release, Timestamp};
use crate::matcher::pattern;
use crate::paths;
use crate::state::{copy_opt, ToolEntry};
use crate::text;
use crate::unicode;
use binary::InstallPaths;
use checksum::{ChecksumAlgo, ChecksumError};
use extract::BinarySearchResult;

verus! {

// ---- Names ----------------------------------------------------------------------------------------

/// The name of a tool by its repository: what stands behind the owner. The binary inside an archive
/// goes by this name, and the installed one does if it has no alias.
pub fn default_binary_name(repo: &str) -> (r: &str)
    ensures
        r@ == text::behind_last(repo@, '/'),
{
    text::after_last(repo, '/')
}

/// The name that a tool is installed under: its alias, or the name by its repository.
pub open spec fn install_name_for(repo: Seq<char>, alias: Option<Seq<char>>) -> Seq<char> {
    match alias {
        Some(a) => a,
        None => text::behind_last(repo, '/'),
    }
}

/// The name that a tool is installed under.
pub fn install_name_of(repo: &str, alias: Option<&str>) -> (r: String)
    ensures
        r@ == install_name_for(repo@, text::opt_str(alias)),
{
    match alias {
        Some(a) => a.to_owned(),
        None => default_binary_name(repo).to_owned(),
    }
}

/// The repository `owner/name` goes by the name.
pub proof fn law_repo_names_the_binary(owner: Seq<char>, name: Seq<char>)
    requires
        !name.contains('/'),
    ensures
        install_name_for(owner + seq!['/'] + name, None) == name,
{
    let repo = owner + seq!['/'] + name;
    assert forall|j: int| owner.len() + 1 <= j < repo.len() implies repo[j] != '/' by {
        assert(repo[j] == name[j - owner.len() - 1]);
        assert(name.contains(name[j - owner.len() - 1]));
    }
    text::lemma_behind_last_is(repo, '/', owner.len() as int + 1);
    assert(repo.skip(owner.len() as int + 1) =~= name);
}

// ---- Downloads ----------------------------------------------------------------------------------

/// What is to be removed when an installation is over, however it ends.
#[derive(Debug)]
pub struct InstallGuard {
    pub temp_files: Vec<String>,
    pub temp_dirs: Vec<String>,
}

impl InstallGuard {
    /// Nothing to remove.
    pub fn new() -> (r: Self)
        ensures
            r.temp_files@ == Seq::<String>::empty(),
            r.temp_dirs@ == Seq::<String>::empty(),
    {
        InstallGuard { temp_files: Vec::new(), temp_dirs: Vec::new() }
    }

    /// Remove this file, too.
    pub fn track_file(&mut self, path: String)
        ensures
            final(self).temp_files@ == old(self).temp_files@.push(path),
            final(self).temp_dirs@ == old(self).temp_dirs@,
    {
        self.temp_files.push(path);
    }

    /// Remove this directory, too.
    pub fn track_dir(&mut self, path: String)
        ensures
            final(self).temp_dirs@ == old(self).temp_dirs@.push(path),
            final(self).temp_files@ == old(self).temp_files@,
    {
        self.temp_dirs.push(path);
    }
}

/// An asset that was downloaded and, if the release publishes a checksum, verified.
#[derive(Debug)]
pub struct Downloaded {
    pub asset_path: String,
    pub sha256: Option<String>,
    pub guard: InstallGuard,
}

/// The file with the checksums that a release publishes.
pub struct Published<'a> {
    pub content: &'a str,
    pub name: &'a str,
}

/// The digest of a download: the verified one if a checksum was published for it, and else its own.
/// An error if the checksum does not hold.
pub open spec fn digest_for(
    published: Option<Published>,
    contents: Seq<u8>,
    asset_name: Seq<char>,
) -> Option<Seq<char>> {
    match published {
        None => Some(ChecksumAlgo::Sha256.hex(contents)),
        Some(p) => checksum::verified_digest(p.content@, contents, asset_name),
    }
}

impl Downloaded {
    /// A download whose contents are these. It is verified against the published checksums, if
    /// there are any, and else gets its own digest. The file is to be removed in the end.
    pub fn fetch(
        asset_path: &str,
        contents: &[u8],
        asset_name: &str,
        published: Option<Published>,
    ) -> (r: Result<Downloaded, ChecksumError>)
        ensures
            r is Ok <==> digest_for(published, contents@, asset_name@) is Some,
            r matches Err(e) ==> published is Some && checksum::failure_is(
                published->0.content@,
                contents@,
                asset_name@,
                published->0.name@,
                e,
            ),
            r matches Ok(dl) ==> dl.asset_path@ == asset_path@ && text::opt_string(dl.sha256)
                == digest_for(published, contents@, asset_name@) && dl.guard.temp_files@.len() == 1
                && dl.guard.temp_files@[0]@ == asset_path@ && dl.guard.temp_dirs@.len() == 0,
    {
        let sha256 = match published {
            Some(p) => match checksum::verify_checksum(p.content, contents, asset_name, p.name) {
                Ok(hash) => Some(hash),
                Err(e) => {
                    return Err(e);
                },
            },
            None => Some(checksum::sha256_file(contents)),
        };
        let mut guard = InstallGuard::new();
        guard.track_file(asset_path.to_owned());
        Ok(Downloaded { asset_path: asset_path.to_owned(), sha256, guard })
    }
}

// ---- Specs ----------------------------------------------------------------------------------------

/// A tool that was installed.
#[derive(Debug)]
pub struct InstallResult {
    pub tool_entry: ToolEntry,
    pub installed_path: String,
}

/// What to install: a release and one of its assets, where to, and under which names.
pub struct InstallSpec<'a> {
    pub repo: &'a str,
    pub release: &'a Release,
    pub asset: &'a Asset,
    pub install_dir: &'a str,
    /// The name of the binary inside an archive: by the repository, never the alias.
    pub find_name: String,
    /// The name of the installed file and of the tool in the state.
    pub install_name: String,
}

/// An [`InstallSpec`] in the making. The directory has to be set; the name is by the repository if
/// it is not set.
pub struct InstallSpecBuilder<'a> {
    pub repo: &'a str,
    pub release: &'a Release,
    pub asset: &'a Asset,
    pub install_dir: Option<&'a str>,
    pub install_name: Option<String>,
}

impl<'a> InstallSpec<'a> {
    /// Begin with what is installed.
    pub fn builder(repo: &'a str, release: &'a Release, asset: &'a Asset) -> (r: InstallSpecBuilder<
        'a,
    >)
        ensures
            r == (InstallSpecBuilder {
                repo,
                release,
                asset,
                install_dir: None,
                install_name: None,
            }),
    {
        InstallSpecBuilder { repo, release, asset, install_dir: None, install_name: None }
    }
}

impl<'a> InstallSpecBuilder<'a> {
    /// Install into this directory.
    pub fn install_dir(self, dir: &'a str) -> (r: Self)
        ensures
            r == (InstallSpecBuilder { install_dir: Some(dir), ..self }),
    {
        let mut out = self;
        out.install_dir = Some(dir);
        out
    }

    /// Install under this name: an alias, or the name that the tool already has.
    pub fn install_name(self, name: String) -> (r: Self)
        ensures
            r == (InstallSpecBuilder { install_name: Some(name), ..self }),
    {
        let mut out = self;
        out.install_name = Some(name);
        out
    }

    /// The finished spec. The directory must have been set.
    pub fn build(self) -> (r: InstallSpec<'a>)
        requires
            self.install_dir is Some,
        ensures
            r.repo == self.repo,
            r.release == self.release,
            r.asset == self.asset,
            Some(r.install_dir) == self.install_dir,
            r.find_name@ == text::behind_last(self.repo@, '/'),
            r.install_name@ == install_name_for(
                self.repo@,
                text::opt_string(self.install_name),
            ),
    {
        let find_name = default_binary_name(self.repo).to_owned();
        let install_name = match self.install_name {
            Some(n) => n,
            None => find_name.clone(),
        };
        let install_dir = match self.install_dir {
            Some(d) => d,
            None => "",
        };
        InstallSpec {
            repo: self.repo,
            release: self.release,
            asset: self.asset,
            install_dir,
            find_name,
            install_name,
        }
    }
}

// ---- Installing -----------------------------------------------------------------------------------

/// The name of the asset says that it is an archive.
pub open spec fn archive_by_name(lower: Seq<char>) -> bool {
    ||| text::has_suffix(lower, ".tar.gz"@)
    ||| text::has_suffix(lower, ".tgz"@)
    ||| text::has_suffix(lower, ".tar.xz"@)
    ||| text::has_suffix(lower, ".tar.bz2"@)
    ||| text::has_suffix(lower, ".zip"@)
}

/// The content type of the asset says that it is an archive.
pub open spec fn archive_by_type(ct: Seq<char>) -> bool {
    ||| text::has_part(ct, "gzip"@)
    ||| text::has_part(ct, "x-tar"@)
    ||| text::has_part(ct, "x-xz"@)
    ||| text::has_part(ct, "x-bzip2"@)
    ||| ct == "application/zip"@
}

/// The asset is an archive, by its name or its content type in any letter case.
pub open spec fn archive_asset(asset: Asset) -> bool {
    archive_by_name(unicode::lowercase(asset.name@)) || archive_by_type(
        unicode::lowercase(asset.content_type@),
    )
}

/// Whether an asset is an archive, by its name or, for assets without an ending, by its type.
pub fn is_archive(asset: &Asset) -> (r: bool)
    ensures
        r == archive_asset(*asset),
{
    let lower_text = unicode::to_lowercase(asset.name.as_str());
    let ct_text = unicode::to_lowercase(asset.content_type.as_str());
    let lower = lower_text.as_str();
    let ct = ct_text.as_str();
    text::ends_with(lower, ".tar.gz") || text::ends_with(lower, ".tgz") || text::ends_with(
        lower,
        ".tar.xz",
    ) || text::ends_with(lower, ".tar.bz2") || text::ends_with(lower, ".zip") || text::contains(
        ct,
        "gzip",
    ) || text::contains(ct, "x-tar") || text::contains(ct, "x-xz") || text::contains(
        ct,
        "x-bzip2",
    ) || text::same_text(ct, "application/zip")
}

/// An asset whose name says that it is an archive is unpacked as one, wherever it was downloaded
/// to.
pub proof fn law_named_archives_are_unpacked(name: Seq<char>, cache: Seq<char>)
    requires
        paths::plain_name(name),
        cache.len() > 0,
        cache.last() != '/',
    ensures
        extract::kind_of(paths::joined(cache, name)) != extract::ArchiveKind::Raw
            <==> archive_by_name(unicode::lowercase(name)),
{
    let path = paths::joined(cache, name);
    assert(name.contains(name[0]));
    assert(path =~= cache + seq!['/'] + name);
    law_repo_names_the_binary(cache, name);
    assert(text::behind_last(path, '/') == name);
}

/// Where the binary of an installation comes from.
#[derive(Debug)]
pub enum Source {
    /// The asset is the binary.
    Raw,
    /// The asset is to be unpacked into this directory, and the binary to be found there.
    Archive { extract_dir: String },
}

/// A tool is updated in the directory that it was installed into.
pub proof fn law_updates_stay_in_place(entry: ToolEntry, dir: Seq<char>, fallback: Seq<char>)
    requires
        paths::plain_name(entry.binary_name@),
        dir.len() > 0,
        dir.last() != '/',
        text::behind_last(dir, '/') != seq!['.'],
        entry.install_path@ == paths::joined(dir, entry.binary_name@),
    ensures
        crate::state::dir_of(entry, fallback) == dir,
{
    let name = entry.binary_name@;
    let path = paths::joined(dir, name);
    assert(name.contains(name[0]));
    assert(path =~= dir + seq!['/'] + name);
    law_repo_names_the_binary(dir, name);
    assert(paths::dir_part(path) =~= dir);
    assert(path.contains('/')) by {
        assert(path[dir.len() as int] == '/');
    }
}

/// What comes of the search for the binary inside an archive.
pub enum Located {
    One(PathBuf),
    /// Someone has to choose among these.
    Choose(Vec<PathBuf>),
}

/// The binary that a search found, or the error that there is none.
pub fn locate(found: BinarySearchResult) -> (r: Result<Located, GhrError>)
    ensures
        match found {
            BinarySearchResult::Found(p) => r matches Ok(Located::One(q)) && q == p,
            BinarySearchResult::Multiple(list) => r matches Ok(Located::Choose(l)) && l == list,
            BinarySearchResult::NotFound => r matches Err(GhrError::BinaryNotFoundInArchive),
        },
{
    match found {
        BinarySearchResult::Found(p) => Ok(Located::One(p)),
        BinarySearchResult::Multiple(list) => Ok(Located::Choose(list)),
        BinarySearchResult::NotFound => Err(GhrError::BinaryNotFoundInArchive),
    }
}

impl<'a> InstallSpec<'a> {
    /// Where the binary comes from. The directory that an archive is unpacked into is to be
    /// removed in the end.
    pub fn source(&self, dl: &mut Downloaded, cache_dir: &str) -> (r: Source)
        ensures
            final(dl).asset_path == old(dl).asset_path,
            final(dl).sha256 == old(dl).sha256,
            final(dl).guard.temp_files@ == old(dl).guard.temp_files@,
            !archive_asset(*self.asset) ==> r is Raw && final(dl).guard.temp_dirs@ == old(
                dl,
            ).guard.temp_dirs@,
            archive_asset(*self.asset) ==> (r matches Source::Archive { extract_dir }
                && extract_dir@ == paths::joined(cache_dir@, self.asset.name@ + "-extract"@)
                && final(dl).guard.temp_dirs@ == old(dl).guard.temp_dirs@.push(extract_dir)),
    {
        if is_archive(self.asset) {
            let mut name = self.asset.name.clone();
            name.append("-extract");
            let extract_dir = paths::join(cache_dir, name.as_str());
            dl.guard.track_dir(extract_dir.clone());
            Source::Archive { extract_dir }
        } else {
            Source::Raw
        }
    }

    /// Where the binary goes, and where it is written before: under its name in the directory of
    /// the spec.
    pub fn place(&self) -> (r: InstallPaths)
        ensures
            r.dest@ == paths::joined(self.install_dir@, self.install_name@),
            r.tmp@ == binary::temp_path(self.install_dir@, self.install_name@),
    {
        binary::atomic_install(self.install_dir, self.install_name.as_str())
    }

    /// What is recorded of the tool once its binary is in its place.
    pub fn install(&self, dl: &Downloaded, now: Timestamp) -> (r: InstallResult)
        ensures
            r.installed_path@ == paths::joined(self.install_dir@, self.install_name@),
            r.tool_entry.repo@ == self.repo@,
            r.tool_entry.installed_tag@ == self.release.tag_name@,
            r.tool_entry.install_path@ == r.installed_path@,
            r.tool_entry.binary_name@ == self.install_name@,
            r.tool_entry.asset_pattern@ == pattern::pattern_of(
                self.asset.name@,
                self.release.tag_name@,
            ),
            r.tool_entry.installed_sha256 == dl.sha256,
            r.tool_entry.etag is None,
            r.tool_entry.last_checked == Some(now),
            r.tool_entry.published_at == Some(self.release.published_at),
            !crate::state::behind(r.tool_entry, self.release.published_at),
    {
        let installed_path = self.place().dest;
        let asset_pattern = pattern::asset_to_pattern(
            self.asset.name.as_str(),
            self.release.tag_name.as_str(),
        );
        let tool_entry = ToolEntry {
            repo: self.repo.to_owned(),
            installed_tag: self.release.tag_name.clone(),
            install_path: installed_path.clone(),
            binary_name: self.install_name.clone(),
            asset_pattern,
            installed_sha256: copy_opt(&dl.sha256),
            etag: None,
            last_checked: Some(now),
            published_at: Some(self.release.published_at),
        };
        InstallResult { tool_entry, installed_path }
    }
}

} // verus!
