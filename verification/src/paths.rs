//! Paths as texts: components, joining, the home directory, and the directories of the user.

use vstd::prelude::*;

use crate::text;

verus! {

// ---- What std::path knows of paths -----------------------------------------------------------

/// The last component that `Path::file_name` finds in a path.
pub uninterp spec fn std_file_name(path: Seq<char>) -> Option<Seq<char>>;

/// What `Path::parent` leaves of a path.
pub uninterp spec fn std_parent(path: Seq<char>) -> Option<Seq<char>>;

/// What `Path::strip_prefix` leaves of a path.
pub uninterp spec fn std_strip_prefix(path: Seq<char>, base: Seq<char>) -> Option<Seq<char>>;

/// Whether two paths are equal as `Path` compares them.
pub uninterp spec fn std_same_path(a: Seq<char>, b: Seq<char>) -> bool;

/// A component that names a file or directory of its own.
pub open spec fn plain_name(name: Seq<char>) -> bool {
    name.len() > 0 && !name.contains('/') && name != seq!['.'] && name != seq!['.', '.']
}

/// A relative path with no separator at its ends and no `.` as its first or last component.
pub open spec fn tidy(rest: Seq<char>) -> bool {
    let first = rest.take(text::find_first(rest, text::CharClass::Only('/')));
    let last = text::behind_last(rest, '/');
    &&& rest.len() > 0
    &&& rest[0] != '/'
    &&& rest.last() != '/'
    &&& first != seq!['.']
    &&& last != seq!['.']
}

/// What stands before the last separator of a path.
pub open spec fn dir_part(path: Seq<char>) -> Seq<char> {
    path.take(path.len() - text::behind_last(path, '/').len() - 1)
}

/// A directory that does not end with a separator or a component `.`, a separator, and a plain
/// name.
pub open spec fn under_dir(path: Seq<char>) -> bool {
    let name = text::behind_last(path, '/');
    let dir = dir_part(path);
    &&& plain_name(name)
    &&& name.len() + 1 < path.len()
    &&& dir.last() != '/'
    &&& text::behind_last(dir, '/') != seq!['.']
}

/// What stands in a path behind the base and one character.
pub open spec fn below(path: Seq<char>, base: Seq<char>) -> Seq<char> {
    path.skip(base.len() as int + 1)
}

/// The path is the base, a separator and a tidy rest.
pub open spec fn lies_under(path: Seq<char>, base: Seq<char>) -> bool {
    &&& base.len() > 0
    &&& text::has_prefix(path, base)
    &&& path.len() > base.len()
    &&& path[base.len() as int] == '/'
    &&& tidy(below(path, base))
}

/// Calls `Path::file_name`. The result depends on the path alone. Where what stands behind the
/// last separator is a plain name, it is that name; of paths that end otherwise nothing is said.
#[verifier::external_body]
fn path_file_name(path: &str) -> (r: Option<&str>)
    ensures
        text::opt_str(r) == std_file_name(path@),
        plain_name(text::behind_last(path@, '/')) ==> text::opt_str(r) == Some(
            text::behind_last(path@, '/'),
        ),
{
    std::path::Path::new(path).file_name().and_then(|n| n.to_str())
}

/// Calls `Path::parent`. The result depends on the path alone. A plain name has the empty path as
/// its parent; a directory that does not end with a separator or a component `.`, a separator and
/// a plain name have that directory; of paths of another form nothing is said.
#[verifier::external_body]
fn path_parent(path: &str) -> (r: Option<&str>)
    ensures
        text::opt_str(r) == std_parent(path@),
        plain_name(path@) ==> text::opt_str(r) == Some(Seq::<char>::empty()),
        under_dir(path@) ==> text::opt_str(r) == Some(dir_part(path@)),
{
    std::path::Path::new(path).parent().and_then(|p| p.to_str())
}

/// Calls `Path::strip_prefix`. The result depends on the two paths alone. From a path that is the
/// base, a separator and a tidy rest it leaves the rest, and from the base itself nothing. The base
/// `~` is no prefix of a path that does not begin with a component `~`. Of paths of another form
/// nothing is said.
#[verifier::external_body]
fn path_strip_prefix<'a>(path: &'a str, base: &str) -> (r: Option<&'a str>)
    ensures
        text::opt_str(r) == std_strip_prefix(path@, base@),
        path@ == base@ ==> text::opt_str(r) == Some(Seq::<char>::empty()),
        lies_under(path@, base@) ==> text::opt_str(r) == Some(below(path@, base@)),
        base@ == seq!['~'] && !begins_with_tilde(path@) ==> r is None,
{
    std::path::Path::new(path).strip_prefix(base).ok().and_then(|p| p.to_str())
}

/// Compares two paths as `Path` does, component by component. The result depends on the two paths
/// alone, and a path equals itself.
#[verifier::external_body]
fn path_eq(a: &str, b: &str) -> (r: bool)
    ensures
        r == std_same_path(a@, b@),
        a@ == b@ ==> r,
{
    std::path::Path::new(a) == std::path::Path::new(b)
}

// ---- Components -----------------------------------------------------------------------------------

/// The path begins with a component `~`.
pub open spec fn begins_with_tilde(path: Seq<char>) -> bool {
    path.len() > 0 && path[0] == '~' && (path.len() == 1 || path[1] == '/')
}

/// The last component of a path, if it names something.
pub open spec fn file_name_of(path: Seq<char>) -> Option<Seq<char>> {
    if plain_name(text::behind_last(path, '/')) {
        Some(text::behind_last(path, '/'))
    } else {
        std_file_name(path)
    }
}

/// The path without its last component.
pub open spec fn parent_of(path: Seq<char>) -> Option<Seq<char>> {
    if plain_name(path) {
        Some(Seq::empty())
    } else if under_dir(path) {
        Some(dir_part(path))
    } else {
        std_parent(path)
    }
}

/// What stands in a path behind the base, if it lies there.
pub open spec fn strip_prefix_of(path: Seq<char>, base: Seq<char>) -> Option<Seq<char>> {
    if path == base {
        Some(Seq::empty())
    } else if lies_under(path, base) {
        Some(below(path, base))
    } else if base == seq!['~'] && !begins_with_tilde(path) {
        None
    } else {
        std_strip_prefix(path, base)
    }
}

/// The two paths have the same components.
pub open spec fn same_path_of(a: Seq<char>, b: Seq<char>) -> bool {
    a == b || std_same_path(a, b)
}

/// The last component of a path, if it names something.
pub fn file_name(path: &str) -> (r: Option<&str>)
    ensures
        text::opt_str(r) == file_name_of(path@),
{
    path_file_name(path)
}

/// The path without its last component.
pub fn parent(path: &str) -> (r: Option<&str>)
    ensures
        text::opt_str(r) == parent_of(path@),
{
    path_parent(path)
}

/// What stands in a path behind the base, if it lies there.
pub fn strip_prefix<'a>(path: &'a str, base: &str) -> (r: Option<&'a str>)
    ensures
        text::opt_str(r) == strip_prefix_of(path@, base@),
{
    path_strip_prefix(path, base)
}

/// Whether two paths have the same components.
pub fn same_path(a: &str, b: &str) -> (r: bool)
    ensures
        r == same_path_of(a@, b@),
{
    path_eq(a, b)
}

// ---- Joining ------------------------------------------------------------------------------------

/// A path put behind another: an absolute path takes its place, else a separator comes between
/// them unless the first is empty or ends with one.
pub open spec fn joined(base: Seq<char>, rest: Seq<char>) -> Seq<char> {
    if rest.len() > 0 && rest[0] == '/' {
        rest
    } else if base.len() == 0 || base.last() == '/' {
        base + rest
    } else {
        base + seq!['/'] + rest
    }
}

/// A path put behind another.
pub fn join(base: &str, rest: &str) -> (r: String)
    ensures
        r@ == joined(base@, rest@),
{
    let b = text::chars_of(base);
    let v = text::chars_of(rest);
    if v.len() > 0 && v[0] == '/' {
        return rest.to_owned();
    }
    let mut out = base.to_owned();
    if b.len() > 0 && b[b.len() - 1] != '/' {
        out.push('/');
        assert(base@.push('/') + rest@ =~= base@ + seq!['/'] + rest@);
    }
    out.append(rest);
    out
}

// ---- The directories of the user ----------------------------------------------------------------

/// A directory of the user: the one that is known, or else the given one below the home directory,
/// which is empty if it is not known either.
pub open spec fn user_dir(
    dir: Option<Seq<char>>,
    home: Option<Seq<char>>,
    below_home: Seq<char>,
) -> Seq<char> {
    match dir {
        Some(d) => d,
        None => match home {
            Some(h) => joined(h, below_home),
            None => joined(Seq::empty(), below_home),
        },
    }
}

/// A directory of the user.
pub fn user_dir_of(dir: Option<&str>, home: Option<&str>, below_home: &str) -> (r: String)
    ensures
        r@ == user_dir(text::opt_str(dir), text::opt_str(home), below_home@),
{
    match dir {
        Some(d) => d.to_owned(),
        None => match home {
            Some(h) => join(h, below_home),
            None => {
                proof {
                    reveal_strlit("");
                    assert(""@ =~= Seq::<char>::empty());
                }
                join("", below_home)
            },
        },
    }
}

// ---- The home directory ----------------------------------------------------------------------------

/// A path with the home directory in place of a leading `~`; as it is if no home is known.
pub open spec fn expanded(path: Seq<char>, home: Option<Seq<char>>) -> Seq<char> {
    match (strip_prefix_of(path, seq!['~']), home) {
        (Some(rest), Some(h)) => joined(h, rest),
        _ => path,
    }
}

/// A path with `~` in place of the home directory it lies in.
pub open spec fn shortened(path: Seq<char>, home: Option<Seq<char>>) -> Seq<char> {
    match home {
        Some(h) => match strip_prefix_of(path, h) {
            Some(rest) => joined(seq!['~'], rest),
            None => path,
        },
        None => path,
    }
}

/// Put the home directory in place of a leading `~`.
pub fn expand_tilde(path: &str, home: Option<&str>) -> (r: String)
    ensures
        r@ == expanded(path@, text::opt_str(home)),
{
    proof {
        reveal_strlit("~");
        assert("~"@ =~= seq!['~']);
    }
    let stripped = strip_prefix(path, "~");
    match (stripped, home) {
        (Some(rest), Some(h)) => join(h, rest),
        _ => path.to_owned(),
    }
}

/// Put `~` in place of the home directory.
pub fn shorten_home(path: &str, home: Option<&str>) -> (r: String)
    ensures
        r@ == shortened(path@, text::opt_str(home)),
{
    proof {
        reveal_strlit("~");
        assert("~"@ =~= seq!['~']);
    }
    match home {
        Some(h) => match strip_prefix(path, h) {
            Some(rest) => join("~", rest),
            None => path.to_owned(),
        },
        None => path.to_owned(),
    }
}

/// A directory below the home directory, written with `~`, is the same directory when read back.
pub proof fn law_home_is_restored(path: Seq<char>, home: Seq<char>)
    requires
        lies_under(path, home),
        home.last() != '/',
    ensures
        shortened(path, Some(home)) == seq!['~', '/'] + below(path, home),
        expanded(shortened(path, Some(home)), Some(home)) == path,
{
    let tail = below(path, home);
    let short = seq!['~', '/'] + tail;
    if path == home {
        assert(path.len() == home.len());
    }
    assert(seq!['~'] + seq!['/'] + tail =~= short);
    let tilde = seq!['~'];
    assert(short.subrange(0, 1) =~= tilde);
    assert(below(short, tilde) =~= tail);
    assert(home + seq!['/'] + tail =~= path) by {
        assert(path.subrange(0, home.len() as int) == home);
        assert forall|i: int| 0 <= i < home.len() implies home[i] == path[i] by {
            assert(path.subrange(0, home.len() as int)[i] == path[i]);
        }
    }
}

/// A directory that neither lies in the home directory nor begins with `~` is written and read
/// back as it is.
pub proof fn law_other_directories_stay(path: Seq<char>, home: Option<Seq<char>>)
    requires
        !begins_with_tilde(path),
        home matches Some(h) ==> strip_prefix_of(path, h) is None,
    ensures
        shortened(path, home) == path,
        expanded(shortened(path, home), home) == path,
{
    let tilde = seq!['~'];
    if lies_under(path, tilde) {
        assert(path.subrange(0, 1)[0] == path[0]);
    }
    assert(strip_prefix_of(path, tilde) is None);
}

} // verus!
