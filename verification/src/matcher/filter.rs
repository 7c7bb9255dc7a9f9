//! Hard filters: assets that can never be the binary to install.

use vstd::prelude::*;

use crate::github::types::Asset;
use crate::installer::checksum;
use crate::text;
use crate::unicode;

verus! {

/// Endings of checksum and signature files.
pub open spec fn checksum_extensions() -> Seq<Seq<char>> {
    seq![
        ".sha256"@,
        ".sha512"@,
        ".sha384"@,
        ".sha224"@,
        ".sha2"@,
        ".sha1"@,
        ".sha"@,
        ".digest"@,
        ".checksum"@,
        ".md5"@,
        ".sig"@,
        ".asc"@,
        ".minisig"@,
        ".b64"@,
    ]
}

/// Names of files that hold the checksums of a release.
pub open spec fn checksum_names() -> Seq<Seq<char>> {
    seq![
        "checksums.txt"@,
        "sha256sums"@,
        "sha256sums.txt"@,
        "sha512sums"@,
        "sha512sums.txt"@,
        "sha256sum"@,
        "sha256sum.txt"@,
        "checksums.sha256"@,
        "checksums"@,
        "checksum.txt"@,
    ]
}

/// Words that name another operating system.
pub open spec fn os_reject_terms() -> Seq<Seq<char>> {
    seq!["windows"@, "darwin"@, "macos"@, "osx"@, "win32"@, "win64"@]
}

/// Endings of files for another operating system.
pub open spec fn os_reject_extensions() -> Seq<Seq<char>> {
    seq![".exe"@, ".msi"@, ".dmg"@, ".pkg"@]
}

/// A name in lower case that says it is the source code.
pub open spec fn source_name(lower: Seq<char>) -> bool {
    text::has_part(lower, "source code"@) || text::has_part(lower, "source_code"@)
}

/// A name in lower case of a checksum or signature file.
pub open spec fn checksum_name(lower: Seq<char>) -> bool {
    text::has_any_suffix(lower, checksum_extensions()) || checksum_names().contains(lower)
}

/// A name in lower case of a file for another operating system.
pub open spec fn foreign_os_name(lower: Seq<char>) -> bool {
    text::has_any_part(lower, os_reject_terms()) || text::has_any_suffix(
        lower,
        os_reject_extensions(),
    )
}

/// The asset is no source archive.
pub open spec fn passes_source(a: Asset) -> bool {
    !source_name(unicode::lowercase(a.name@))
}

/// The asset is no checksum or signature file.
pub open spec fn passes_checksum(a: Asset) -> bool {
    !checksum_name(unicode::lowercase(a.name@))
}

/// The asset is not for another operating system.
pub open spec fn passes_os(a: Asset) -> bool {
    !foreign_os_name(unicode::lowercase(a.name@))
}

/// The asset passes all hard filters.
pub open spec fn passes_all(a: Asset) -> bool {
    passes_source(a) && passes_checksum(a) && passes_os(a)
}

/// Whether a name in lower case says it is the source code.
pub fn is_source_archive(name: &str) -> (r: bool)
    ensures
        r == source_name(name@),
{
    text::contains(name, "source code") || text::contains(name, "source_code")
}

/// Whether a name in lower case is that of a checksum or signature file.
fn is_checksum_name(lower: &str) -> (r: bool)
    ensures
        r == checksum_name(lower@),
{
    let extensions: [&str; 14] = [
        ".sha256",
        ".sha512",
        ".sha384",
        ".sha224",
        ".sha2",
        ".sha1",
        ".sha",
        ".digest",
        ".checksum",
        ".md5",
        ".sig",
        ".asc",
        ".minisig",
        ".b64",
    ];
    let names: [&str; 10] = [
        "checksums.txt",
        "sha256sums",
        "sha256sums.txt",
        "sha512sums",
        "sha512sums.txt",
        "sha256sum",
        "sha256sum.txt",
        "checksums.sha256",
        "checksums",
        "checksum.txt",
    ];
    proof {
        assert(text::texts(extensions@) =~= checksum_extensions());
        assert(text::texts(names@) =~= checksum_names());
    }
    text::ends_with_any(lower, &extensions) || text::is_one_of(lower, &names)
}

/// Whether a name in lower case is that of a file for another operating system.
fn is_foreign_os_name(lower: &str) -> (r: bool)
    ensures
        r == foreign_os_name(lower@),
{
    let terms: [&str; 6] = ["windows", "darwin", "macos", "osx", "win32", "win64"];
    let extensions: [&str; 4] = [".exe", ".msi", ".dmg", ".pkg"];
    proof {
        assert(text::texts(terms@) =~= os_reject_terms());
        assert(text::texts(extensions@) =~= os_reject_extensions());
    }
    text::contains_any(lower, &terms) || text::ends_with_any(lower, &extensions)
}

/// Remove source archives. What stays keeps its order.
pub fn filter_source_archives(assets: Vec<Asset>) -> (r: Vec<Asset>)
    ensures
        r@ == assets@.filter(|a: Asset| passes_source(a)),
{
    let mut out: Vec<Asset> = Vec::new();
    for i in 0..assets.len()
        invariant
            out@ == assets@.take(i as int).filter(|a: Asset| passes_source(a)),
    {
        proof {
            reveal(Seq::filter);
            assert(assets@.take(i + 1).drop_last() =~= assets@.take(i as int));
        }
        let lower = unicode::to_lowercase(assets[i].name.as_str());
        if !is_source_archive(lower.as_str()) {
            out.push(assets[i].clone());
        }
    }
    proof {
        assert(assets@.take(assets@.len() as int) =~= assets@);
    }
    out
}

/// Remove checksum, signature and verification files. What stays keeps its order.
pub fn filter_checksums(assets: Vec<Asset>) -> (r: Vec<Asset>)
    ensures
        r@ == assets@.filter(|a: Asset| passes_checksum(a)),
{
    let mut out: Vec<Asset> = Vec::new();
    for i in 0..assets.len()
        invariant
            out@ == assets@.take(i as int).filter(|a: Asset| passes_checksum(a)),
    {
        proof {
            reveal(Seq::filter);
            assert(assets@.take(i + 1).drop_last() =~= assets@.take(i as int));
        }
        let lower = unicode::to_lowercase(assets[i].name.as_str());
        if !is_checksum_name(lower.as_str()) {
            out.push(assets[i].clone());
        }
    }
    proof {
        assert(assets@.take(assets@.len() as int) =~= assets@);
    }
    out
}

/// Remove assets for other operating systems than Linux. What stays keeps its order.
pub fn filter_os(assets: Vec<Asset>) -> (r: Vec<Asset>)
    ensures
        r@ == assets@.filter(|a: Asset| passes_os(a)),
{
    let mut out: Vec<Asset> = Vec::new();
    for i in 0..assets.len()
        invariant
            out@ == assets@.take(i as int).filter(|a: Asset| passes_os(a)),
    {
        proof {
            reveal(Seq::filter);
            assert(assets@.take(i + 1).drop_last() =~= assets@.take(i as int));
        }
        let lower = unicode::to_lowercase(assets[i].name.as_str());
        if !is_foreign_os_name(lower.as_str()) {
            out.push(assets[i].clone());
        }
    }
    proof {
        assert(assets@.take(assets@.len() as int) =~= assets@);
    }
    out
}

/// Filtering by three conditions one after the other is filtering by all of them.
proof fn lemma_filters_compose(assets: Seq<Asset>)
    ensures
        assets.filter(|a: Asset| passes_source(a)).filter(|a: Asset| passes_checksum(a)).filter(
            |a: Asset| passes_os(a),
        ) == assets.filter(|a: Asset| passes_all(a)),
    decreases assets.len(),
{
    reveal(Seq::filter);
    if assets.len() > 0 {
        let front = assets.drop_last();
        lemma_filters_compose(front);
        let x = assets.last();
        let f1 = |a: Asset| passes_source(a);
        let f2 = |a: Asset| passes_checksum(a);
        let f3 = |a: Asset| passes_os(a);
        if passes_source(x) {
            assert(front.filter(f1).push(x).drop_last() =~= front.filter(f1));
            if passes_checksum(x) {
                let s = front.filter(f1).filter(f2);
                assert(s.push(x).drop_last() =~= s);
            }
        }
    }
}

/// A file for the checksum of one asset never stays.
pub proof fn law_sidecars_are_removed(asset: Asset, target: Seq<char>)
    requires
        checksum::sidecar_name(asset.name@, target),
    ensures
        !passes_checksum(asset),
{
    let lower = unicode::lowercase(asset.name@);
    let dot = unicode::lowercase(target).len() as int;
    let ending = lower.skip(dot + 1);
    let endings = checksum::sidecar_extensions();
    let k = endings.index_of(ending);
    assert(endings[k] == ending);
    reveal_strlit("sha256");
    reveal_strlit("sha512");
    reveal_strlit("sha384");
    reveal_strlit("sha224");
    reveal_strlit("sha2");
    reveal_strlit("sha");
    reveal_strlit("digest");
    reveal_strlit("checksum");
    reveal_strlit(".sha256");
    reveal_strlit(".sha512");
    reveal_strlit(".sha384");
    reveal_strlit(".sha224");
    reveal_strlit(".sha2");
    reveal_strlit(".sha");
    reveal_strlit(".digest");
    reveal_strlit(".checksum");
    let i = if k <= 4 {
        k
    } else {
        k + 1
    };
    let dotted = seq!['.'] + ending;
    assert(lower.subrange(dot, lower.len() as int) =~= dotted);
    assert(checksum_extensions()[i] =~= dotted);
    assert(text::has_suffix(lower, checksum_extensions()[i]));
}

/// Apply all hard filters. What stays keeps its order.
pub fn apply_hard_filters(assets: Vec<Asset>) -> (r: Vec<Asset>)
    ensures
        r@ == assets@.filter(|a: Asset| passes_all(a)),
{
    proof {
        lemma_filters_compose(assets@);
    }
    let assets = filter_source_archives(assets);
    let assets = filter_checksums(assets);
    filter_os(assets)
}

} // verus!
