//! Releases and their assets, as the GitHub API describes them.

use vstd::prelude::*;

verus! {

/// A moment in UTC: seconds since the epoch, and the nanoseconds behind them. In a leap second the
/// nanoseconds run on past a thousand million.
#[derive(Clone, Copy, Debug, PartialEq, Eq, Structural)]
pub struct Timestamp {
    pub seconds: i64,
    pub nanos: u32,
}

/// `a` comes after `b`.
pub open spec fn later(a: Timestamp, b: Timestamp) -> bool {
    a.seconds > b.seconds || (a.seconds == b.seconds && a.nanos > b.nanos)
}

/// The second of the day.
pub open spec fn second_of_day(t: Timestamp) -> int {
    t.seconds as int % 86_400
}

/// The leap second, if any, that lies between the two moments by the seconds of their days.
pub open spec fn leap_between(a: Timestamp, b: Timestamp) -> int {
    if second_of_day(a) > second_of_day(b) && b.nanos >= 1_000_000_000 {
        1
    } else if second_of_day(a) < second_of_day(b) && a.nanos >= 1_000_000_000 {
        -1
    } else {
        0
    }
}

/// The nanoseconds from `b` to `a`.
pub open spec fn nanos_between(a: Timestamp, b: Timestamp) -> int {
    (a.seconds - b.seconds + leap_between(a, b)) * 1_000_000_000 + (a.nanos - b.nanos)
}

/// The second of the day of a moment.
fn day_second(seconds: i64) -> (r: i128)
    ensures
        r == seconds as int % 86_400,
{
    proof {
        vstd::arithmetic::div_mod::lemma_mod_multiples_vanish(
            1_000_000_000_000_000,
            seconds as int,
            86_400,
        );
    }
    (86_400_000_000_000_000_000i128 + seconds as i128) % 86_400
}

impl Timestamp {
    /// The nanoseconds since `earlier`, less than nothing if that comes later.
    pub fn nanos_since(self, earlier: Timestamp) -> (r: i128)
        ensures
            r == nanos_between(self, earlier),
    {
        let a: i64 = self.seconds;
        let b: i64 = earlier.seconds;
        let day_a = day_second(a);
        let day_b = day_second(b);
        let leap: i128 = if day_a > day_b && earlier.nanos >= 1_000_000_000 {
            1
        } else if day_a < day_b && self.nanos >= 1_000_000_000 {
            -1
        } else {
            0
        };
        (a as i128 - b as i128 + leap) * 1_000_000_000 + (self.nanos as i128 - earlier.nanos
            as i128)
    }

    /// Whether this moment comes after `other`.
    pub fn is_after(self, other: Timestamp) -> (r: bool)
        ensures
            r == later(self, other),
    {
        self.seconds > other.seconds || (self.seconds == other.seconds && self.nanos > other.nanos)
    }
}

/// One file of a release.
#[derive(Debug)]
pub struct Asset {
    pub name: String,
    pub browser_download_url: String,
    pub size: u64,
    pub content_type: String,
}

impl Clone for Asset {
    fn clone(&self) -> (r: Self)
        ensures
            r == *self,
    {
        Asset {
            name: self.name.clone(),
            browser_download_url: self.browser_download_url.clone(),
            size: self.size,
            content_type: self.content_type.clone(),
        }
    }
}

/// A copy of a list of assets.
pub fn copy_assets(assets: &Vec<Asset>) -> (r: Vec<Asset>)
    ensures
        r@ == assets@,
{
    let mut out: Vec<Asset> = Vec::new();
    for i in 0..assets.len()
        invariant
            out@ == assets@.take(i as int),
    {
        out.push(assets[i].clone());
    }
    out
}

/// One release of a repository.
#[derive(Debug)]
pub struct Release {
    pub tag_name: String,
    pub published_at: Timestamp,
    pub prerelease: bool,
    pub draft: bool,
    pub assets: Vec<Asset>,
    pub html_url: String,
}

impl Clone for Release {
    fn clone(&self) -> (r: Self)
        ensures
            r.tag_name == self.tag_name,
            r.published_at == self.published_at,
            r.prerelease == self.prerelease,
            r.draft == self.draft,
            r.assets@ == self.assets@,
            r.html_url == self.html_url,
    {
        Release {
            tag_name: self.tag_name.clone(),
            published_at: self.published_at,
            prerelease: self.prerelease,
            draft: self.draft,
            assets: copy_assets(&self.assets),
            html_url: self.html_url.clone(),
        }
    }
}

} // verus!
