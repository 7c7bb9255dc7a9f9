//! Archives, and the binary inside them.

use vstd::prelude::*;

use std::path::PathBuf;

use crate::paths;
use crate::text;
use crate::unicode;

verus! {

/// The path of a file, as std holds it.
#[verifier::external_type_specification]
#[verifier::external_body]
pub struct ExPathBuf(std::path::PathBuf);

/// How a file is to be unpacked.
#[derive(Clone, Copy, Debug, PartialEq, Eq, Structural)]
pub enum ArchiveKind {
    TarGz,
    TarXz,
    TarBz2,
    Zip,
    /// Not an archive, but the binary itself.
    Raw,
}

/// The kind of a file, by its name in lower case.
pub open spec fn kind_by_name(lower: Seq<char>) -> ArchiveKind {
    if text::has_suffix(lower, ".tar.gz"@) || text::has_suffix(lower, ".tgz"@) {
        ArchiveKind::TarGz
    } else if text::has_suffix(lower, ".tar.xz"@) {
        ArchiveKind::TarXz
    } else if text::has_suffix(lower, ".tar.bz2"@) {
        ArchiveKind::TarBz2
    } else if text::has_suffix(lower, ".zip"@) {
        ArchiveKind::Zip
    } else {
        ArchiveKind::Raw
    }
}

/// The kind of the file at a path.
pub open spec fn kind_of(path: Seq<char>) -> ArchiveKind {
    match paths::file_name_of(path) {
        Some(name) => kind_by_name(unicode::lowercase(name)),
        None => kind_by_name(unicode::lowercase(""@)),
    }
}

/// How the file at a path is to be unpacked, by its name in any letter case.
pub fn extract_archive(archive_path: &str) -> (r: ArchiveKind)
    ensures
        r == kind_of(archive_path@),
{
    let name = match paths::file_name(archive_path) {
        Some(n) => n,
        None => "",
    };
    let lower_text = unicode::to_lowercase(name);
    let lower = lower_text.as_str();
    if text::ends_with(lower, ".tar.gz") || text::ends_with(lower, ".tgz") {
        ArchiveKind::TarGz
    } else if text::ends_with(lower, ".tar.xz") {
        ArchiveKind::TarXz
    } else if text::ends_with(lower, ".tar.bz2") {
        ArchiveKind::TarBz2
    } else if text::ends_with(lower, ".zip") {
        ArchiveKind::Zip
    } else {
        ArchiveKind::Raw
    }
}

/// A file that was found below a directory.
pub struct WalkedFile {
    pub path: PathBuf,
    /// Its name, if that is a text.
    pub name: Option<String>,
    /// It begins as programs do.
    pub elf: bool,
}

/// Where the binary is.
pub enum BinarySearchResult {
    Found(PathBuf),
    /// Any of these may be it.
    Multiple(Vec<PathBuf>),
    NotFound,
}

/// The file has this name.
pub open spec fn is_named(file: WalkedFile, name: Seq<char>) -> bool {
    file.name matches Some(n) && n@ == name
}

/// The position of the first file of a name, or the length if there is none.
pub open spec fn named_position(files: Seq<WalkedFile>, name: Seq<char>) -> int
    decreases files.len(),
{
    if files.len() == 0 || is_named(files[0], name) {
        0
    } else {
        1 + named_position(files.drop_first(), name)
    }
}

/// The paths of the programs among some files.
pub open spec fn elf_paths(files: Seq<WalkedFile>) -> Seq<PathBuf> {
    files.filter(|f: WalkedFile| f.elf).map_values(|f: WalkedFile| f.path)
}

/// What is found: the first file of the name and, if there is none, the only program, or all of
/// them if there are several.
pub open spec fn search_result(files: Seq<WalkedFile>, name: Seq<char>, r: BinarySearchResult) -> bool {
    let i = named_position(files, name);
    let programs = elf_paths(files);
    if i < files.len() {
        r == BinarySearchResult::Found(files[i].path)
    } else if programs.len() == 0 {
        r is NotFound
    } else if programs.len() == 1 {
        r == BinarySearchResult::Found(programs[0])
    } else {
        r matches BinarySearchResult::Multiple(list) && list@ == programs
    }
}

/// Locate the binary among the files of an extracted archive, in the order in which they were
/// found: the first file named `binary_name`, or else the only program. Several programs are all
/// returned for the caller to choose.
pub fn find_binary(files: Vec<WalkedFile>, binary_name: &str) -> (r: BinarySearchResult)
    ensures
        search_result(files@, binary_name@, r),
{
    let ghost all = files@;
    let mut elf_files: Vec<PathBuf> = Vec::new();
    proof {
        assert(all.skip(0) =~= all);
        reveal(Seq::filter);
        assert(all.take(0) =~= Seq::<WalkedFile>::empty());
        assert(elf_paths(all.take(0)) =~= Seq::<PathBuf>::empty());
    }
    for file in walk: files.into_iter()
        invariant
            walk.seq() == all,
            named_position(all, binary_name@) == walk.index() + named_position(
                all.skip(walk.index() as int),
                binary_name@,
            ),
            elf_files@ == elf_paths(all.take(walk.index() as int)),
    {
        let ghost k = walk.index() as int;
        proof {
            assert(file == all[k]);
            assert(all.skip(k).drop_first() =~= all.skip(k + 1));
            assert(all.skip(k)[0] == all[k]);
            reveal(Seq::filter);
            assert(all.take(k + 1).drop_last() =~= all.take(k));
            let f = |f: WalkedFile| f.elf;
            let p = |f: WalkedFile| f.path;
            assert(all.take(k).filter(f).push(all[k]).map_values(p) =~= all.take(k).filter(
                f,
            ).map_values(p).push(all[k].path));
        }
        let same = match &file.name {
            Some(have) => text::same_text(have.as_str(), binary_name),
            None => false,
        };
        if same {
            assert(named_position(all, binary_name@) == k && k < all.len());
            return BinarySearchResult::Found(file.path);
        }
        if file.elf {
            elf_files.push(file.path);
        }
    }
    proof {
        assert(all.take(all.len() as int) =~= all);
    }
    if elf_files.len() == 0 {
        BinarySearchResult::NotFound
    } else if elf_files.len() == 1 {
        BinarySearchResult::Found(elf_files.remove(0))
    } else {
        BinarySearchResult::Multiple(elf_files)
    }
}

/// A file begins with these bytes if it is a program.
pub open spec fn elf_magic() -> Seq<u8> {
    seq![0x7f, 0x45, 0x4c, 0x46]
}

/// Whether a file is a program, by its first bytes.
pub fn is_elf(start: &[u8]) -> (r: bool)
    ensures
        r == (start@.len() >= 4 && start@.take(4) == elf_magic()),
{
    if start.len() < 4 {
        return false;
    }
    let r = start[0] == 0x7f && start[1] == 0x45 && start[2] == 0x4c && start[3] == 0x46;
    proof {
        if r {
            assert(start@.take(4) =~= elf_magic());
        } else if start@.take(4) == elf_magic() {
            assert(start@.take(4)[0] == start@[0] && start@.take(4)[1] == start@[1] && start@.take(
                4,
            )[2] == start@[2] && start@.take(4)[3] == start@[3]);
        }
    }
    r
}

/// Whether someone may run a file, by its permissions.
pub fn is_executable(mode: u32) -> (r: bool)
    ensures
        r == (mode & 0o111 != 0),
{
    mode & 0o111 != 0
}

} // verus!
