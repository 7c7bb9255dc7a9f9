//! The download cache, and the progress of a download.

use vstd::prelude::*;

use crate::paths;
use crate::text;

verus! {

/// The directory of the download cache.
pub open spec fn cache_dir_at(dir: Option<Seq<char>>, home: Option<Seq<char>>) -> Seq<char> {
    paths::joined(paths::user_dir(dir, home, ".cache"@), "ghr"@)
}

/// The directory of the download cache: below the cache directory of the user, or below `.cache`
/// in the home directory if that is not known.
pub fn cache_dir(dir: Option<&str>, home: Option<&str>) -> (r: String)
    ensures
        r@ == cache_dir_at(text::opt_str(dir), text::opt_str(home)),
{
    let base = paths::user_dir_of(dir, home, ".cache");
    paths::join(base.as_str(), "ghr")
}

/// How a download is shown.
#[derive(Debug)]
pub struct ProgressStyle {
    /// A bar can be drawn, because the total is known.
    pub bar: bool,
    pub template: &'static str,
    /// What stands before it.
    pub prefix: String,
}

/// How a download of `total` bytes is shown: as a bar, or as a spinner if the total is not known.
/// The prefix is padded to a width if one is given.
pub fn make_progress_bar(total: u64, prefix: &str, prefix_len: Option<usize>) -> (r: ProgressStyle)
    ensures
        r.bar == (total > 0),
        r.template@ == if total > 0 {
            "{prefix:.bold}  {bar:45.green/black.dim}  {bytes:>10} / {total_bytes:<10}  {bytes_per_sec:>12}  eta {eta}"@
        } else {
            "{prefix:.bold}  {spinner:.green}  {bytes}  {bytes_per_sec}"@
        },
        r.prefix@ == match prefix_len {
            Some(w) => text::padded(prefix@, w as nat),
            None => prefix@,
        },
{
    let padded = match prefix_len {
        Some(w) => text::pad_right(prefix, w),
        None => prefix.to_owned(),
    };
    let template = if total > 0 {
        "{prefix:.bold}  {bar:45.green/black.dim}  {bytes:>10} / {total_bytes:<10}  {bytes_per_sec:>12}  eta {eta}"
    } else {
        "{prefix:.bold}  {spinner:.green}  {bytes}  {bytes_per_sec}"
    };
    ProgressStyle { bar: total > 0, template, prefix: padded }
}

/// Where a download is kept.
pub fn download_to_cache(cache: &str, filename: &str) -> (r: String)
    ensures
        r@ == paths::joined(cache@, filename@),
{
    paths::join(cache, filename)
}

} // verus!
