//! Where a binary goes, and how it is made executable.

use vstd::prelude::*;

use crate::paths;

verus! {

/// The permissions with those added that let everyone read and run a file, and its owner write it.
pub fn make_executable(mode: u32) -> (r: u32)
    ensures
        r == mode | 0o755,
{
    mode | 0o755
}

/// A file that was made executable is executable, and has all the permissions that it had.
pub proof fn law_made_executable(mode: u32)
    ensures
        (mode | 0o755) & 0o111 == 0o111,
        (mode | 0o755) & mode == mode,
{
    assert((mode | 0o755) & 0o111 == 0o111) by (bit_vector);
    assert((mode | 0o755) & mode == mode) by (bit_vector);
}

/// Where a binary is written before it takes its place.
pub open spec fn temp_path(dest_dir: Seq<char>, binary_name: Seq<char>) -> Seq<char> {
    paths::joined(dest_dir, "."@ + binary_name + ".tmp"@)
}

/// The place of a binary, and where it is written before it takes that place.
pub struct InstallPaths {
    pub dest: String,
    pub tmp: String,
}

/// Where to write a binary and what to rename it to, so that no part of one is ever in its place.
pub fn atomic_install(dest_dir: &str, binary_name: &str) -> (r: InstallPaths)
    ensures
        r.dest@ == paths::joined(dest_dir@, binary_name@),
        r.tmp@ == temp_path(dest_dir@, binary_name@),
{
    let mut tmp_name = ".".to_owned();
    tmp_name.append(binary_name);
    tmp_name.append(".tmp");
    InstallPaths {
        dest: paths::join(dest_dir, binary_name),
        tmp: paths::join(dest_dir, tmp_name.as_str()),
    }
}

/// The binary is written beside its place, under another name.
pub proof fn law_written_beside(dest_dir: Seq<char>, binary_name: Seq<char>)
    requires
        paths::plain_name(binary_name),
    ensures
        temp_path(dest_dir, binary_name) != paths::joined(dest_dir, binary_name),
        temp_path(dest_dir, binary_name).len() == paths::joined(dest_dir, binary_name).len() + 5,
{
    reveal_strlit(".");
    reveal_strlit(".tmp");
    let tmp_name = "."@ + binary_name + ".tmp"@;
    assert(tmp_name[0] == '.');
    assert(binary_name.contains(binary_name[0]));
    assert(temp_path(dest_dir, binary_name).len() == paths::joined(dest_dir, binary_name).len()
        + 5);
}

} // verus!
