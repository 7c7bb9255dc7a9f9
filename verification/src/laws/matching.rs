//! Which asset of a release is chosen.

use vstd::prelude::*;

use crate::error::GhrError;
use crate::github::types::Asset;
use crate::laws::picking;
use crate::matcher;
use crate::matcher::filter;
use crate::matcher::pattern;
use crate::matcher::score;
use crate::matcher::score::{ArchMatch, AssetScore, Format, ScoredAsset};
use crate::matcher::{match_asset, match_stored_pattern, MatchOutput};
use crate::picker;
use crate::picker::{NextPick, Offer};
use crate::text;
use crate::unicode;

verus! {

// ---- Filters ------------------------------------------------------------------------------------

/// A name in lower case that can never be that of the binary: source code, a checksum, a signature, or
/// a file for another operating system.
pub open spec fn hopeless_name(n: Seq<char>) -> bool {
    hopeless_source(n) || hopeless_sum(n) || hopeless_system(n)
}

/// The name of source code.
pub open spec fn hopeless_source(n: Seq<char>) -> bool {
    exists|w: Seq<char>| (w == "source code"@ || w == "source_code"@) && #[trigger] text::has_part(n, w)
}

/// The name of a file with a checksum or a signature.
pub open spec fn hopeless_sum(n: Seq<char>) -> bool {
    ||| exists|e: Seq<char>|
        (e == ".sha256"@ || e == ".sha512"@ || e == ".sha384"@ || e == ".sha224"@ || e == ".sha2"@ || e
            == ".sha1"@ || e == ".sha"@ || e == ".digest"@ || e == ".checksum"@ || e == ".md5"@ || e
            == ".sig"@ || e == ".asc"@ || e == ".minisig"@ || e == ".b64"@) && #[trigger]
        text::has_suffix(n, e)
    ||| n == "checksums.txt"@ || n == "checksum.txt"@ || n == "checksums"@ || n == "checksums.sha256"@
    ||| n == "sha256sums"@ || n == "sha256sums.txt"@ || n == "sha256sum"@ || n == "sha256sum.txt"@
    ||| n == "sha512sums"@ || n == "sha512sums.txt"@
}

/// The name of a file for another operating system.
pub open spec fn hopeless_system(n: Seq<char>) -> bool {
    ||| exists|w: Seq<char>|
        (w == "windows"@ || w == "darwin"@ || w == "macos"@ || w == "osx"@ || w == "win32"@ || w
            == "win64"@) && #[trigger] text::has_part(n, w)
    ||| exists|e: Seq<char>|
        (e == ".exe"@ || e == ".msi"@ || e == ".dmg"@ || e == ".pkg"@) && #[trigger] text::has_suffix(
            n,
            e,
        )
}

proof fn lemma_source(n: Seq<char>)
    ensures
        filter::source_name(n) == hopeless_source(n),
{
}

proof fn lemma_sum(n: Seq<char>)
    ensures
        filter::checksum_name(n) == hopeless_sum(n),
{
    let ends = filter::checksum_extensions();
    let names = filter::checksum_names();
    assert(ends.len() == 14 && names.len() == 10);
    if exists|e: Seq<char>|
        (e == ".sha256"@ || e == ".sha512"@ || e == ".sha384"@ || e == ".sha224"@ || e == ".sha2"@ || e
            == ".sha1"@ || e == ".sha"@ || e == ".digest"@ || e == ".checksum"@ || e == ".md5"@ || e
            == ".sig"@ || e == ".asc"@ || e == ".minisig"@ || e == ".b64"@) && #[trigger]
        text::has_suffix(n, e) {
        assert(ends[0] == ".sha256"@ && ends[1] == ".sha512"@ && ends[2] == ".sha384"@ && ends[3]
            == ".sha224"@ && ends[4] == ".sha2"@ && ends[5] == ".sha1"@ && ends[6] == ".sha"@
            && ends[7] == ".digest"@ && ends[8] == ".checksum"@ && ends[9] == ".md5"@ && ends[10]
            == ".sig"@ && ends[11] == ".asc"@ && ends[12] == ".minisig"@ && ends[13] == ".b64"@);
        assert(text::has_any_suffix(n, ends));
    }
    if names.contains(n) {
        let k = names.index_of(n);
        assert(names[k] == n);
    }
    assert(names[0] == "checksums.txt"@ && names[1] == "sha256sums"@ && names[2] == "sha256sums.txt"@
        && names[3] == "sha512sums"@ && names[4] == "sha512sums.txt"@ && names[5] == "sha256sum"@
        && names[6] == "sha256sum.txt"@ && names[7] == "checksums.sha256"@ && names[8]
        == "checksums"@ && names[9] == "checksum.txt"@);
}

proof fn lemma_system(n: Seq<char>)
    ensures
        filter::foreign_os_name(n) == hopeless_system(n),
{
    let words = filter::os_reject_terms();
    let ends = filter::os_reject_extensions();
    assert(words.len() == 6 && ends.len() == 4);
    assert(words[0] == "windows"@ && words[1] == "darwin"@ && words[2] == "macos"@ && words[3]
        == "osx"@ && words[4] == "win32"@ && words[5] == "win64"@);
    assert(ends[0] == ".exe"@ && ends[1] == ".msi"@ && ends[2] == ".dmg"@ && ends[3] == ".pkg"@);
}

/// Each filter takes out exactly the assets with names of its kind, in any letter case, and leaves the
/// others in their order.
pub proof fn law_filters_go_by_the_name(
    assets: Vec<Asset>,
    source: Vec<Asset>,
    sums: Vec<Asset>,
    system: Vec<Asset>,
    all: Vec<Asset>,
)
    requires
        call_ensures(filter::filter_source_archives, (assets,), source),
        call_ensures(filter::filter_checksums, (assets,), sums),
        call_ensures(filter::filter_os, (assets,), system),
        call_ensures(filter::apply_hard_filters, (assets,), all),
    ensures
        source@ == assets@.filter(|a: Asset| !hopeless_source(unicode::lowercase(a.name@))),
        sums@ == assets@.filter(|a: Asset| !hopeless_sum(unicode::lowercase(a.name@))),
        system@ == assets@.filter(|a: Asset| !hopeless_system(unicode::lowercase(a.name@))),
        all@ == assets@.filter(|a: Asset| !hopeless_name(unicode::lowercase(a.name@))),
{
    assert forall|i: int| 0 <= i < assets@.len() implies ({
        let a = #[trigger] assets@[i];
        let n = unicode::lowercase(a.name@);
        &&& filter::passes_source(a) == !hopeless_source(n)
        &&& filter::passes_checksum(a) == !hopeless_sum(n)
        &&& filter::passes_os(a) == !hopeless_system(n)
        &&& filter::passes_all(a) == !hopeless_name(n)
    }) by {
        let n = unicode::lowercase(assets@[i].name@);
        lemma_source(n);
        lemma_sum(n);
        lemma_system(n);
    }
    lemma_same_filter(
        assets@,
        |a: Asset| filter::passes_source(a),
        |a: Asset| !hopeless_source(unicode::lowercase(a.name@)),
    );
    lemma_same_filter(
        assets@,
        |a: Asset| filter::passes_checksum(a),
        |a: Asset| !hopeless_sum(unicode::lowercase(a.name@)),
    );
    lemma_same_filter(
        assets@,
        |a: Asset| filter::passes_os(a),
        |a: Asset| !hopeless_system(unicode::lowercase(a.name@)),
    );
    lemma_same_filter(
        assets@,
        |a: Asset| filter::passes_all(a),
        |a: Asset| !hopeless_name(unicode::lowercase(a.name@)),
    );
}

proof fn lemma_same_filter(s: Seq<Asset>, f: spec_fn(Asset) -> bool, g: spec_fn(Asset) -> bool)
    requires
        forall|i: int| 0 <= i < s.len() ==> f(#[trigger] s[i]) == g(s[i]),
    ensures
        s.filter(f) == s.filter(g),
    decreases s.len(),
{
    reveal(Seq::filter);
    if s.len() > 0 {
        let front = s.drop_last();
        assert forall|i: int| 0 <= i < front.len() implies f(#[trigger] front[i]) == g(front[i]) by {
            assert(f(s[i]) == g(s[i]));
        }
        lemma_same_filter(front, f, g);
        assert(f(s[s.len() - 1]) == g(s[s.len() - 1]));
    }
}

/// A name in lower case is that of source code if it says so.
pub proof fn law_source_code_says_so(name: &str, r: bool)
    requires
        call_ensures(filter::is_source_archive, (name,), r),
    ensures
        r <==> hopeless_source(name@),
{
    lemma_source(name@);
}

/// An asset passes all filters exactly if its name is not hopeless.
pub proof fn law_passing_is_by_the_name(a: Asset)
    ensures
        filter::passes_all(a) <==> !hopeless_name(unicode::lowercase(a.name@)),
{
    lemma_source(unicode::lowercase(a.name@));
    lemma_sum(unicode::lowercase(a.name@));
    lemma_system(unicode::lowercase(a.name@));
}

// ---- Points -------------------------------------------------------------------------------------

/// The word is one of the names of a machine.
pub open spec fn names_machine(w: Seq<char>, machine: Seq<char>) -> bool {
    ||| machine == "x86_64"@ && (w == "x86_64"@ || w == "amd64"@ || w == "x64"@ || w == "amd_64"@)
    ||| machine == "aarch64"@ && (w == "aarch64"@ || w == "arm64"@)
    ||| machine == "armv7"@ && (w == "armv7"@ || w == "armhf"@ || w == "arm"@)
    ||| machine == "i686"@ && (w == "i686"@ || w == "i386"@ || w == "x86"@ || w == "386"@)
}

/// The text holds one of the names of a machine.
pub open spec fn mentions(n: Seq<char>, machine: Seq<char>) -> bool {
    exists|w: Seq<char>| names_machine(w, machine) && #[trigger] text::has_part(n, w)
}

/// One of the four machines that are known.
pub open spec fn known_machine(m: Seq<char>) -> bool {
    m == "x86_64"@ || m == "aarch64"@ || m == "armv7"@ || m == "i686"@
}

proof fn lemma_literals_differ()
    ensures
        "x86_64"@ != "aarch64"@,
        "x86_64"@ != "armv7"@,
        "x86_64"@ != "i686"@,
        "aarch64"@ != "armv7"@,
        "aarch64"@ != "i686"@,
        "armv7"@ != "i686"@,
{
    reveal_strlit("x86_64");
    reveal_strlit("aarch64");
    reveal_strlit("armv7");
    reveal_strlit("i686");
    assert("x86_64"@.len() == 6 && "aarch64"@.len() == 7 && "armv7"@.len() == 5 && "i686"@.len() == 4);
}

proof fn lemma_terms(n: Seq<char>, m: Seq<char>, w: Seq<char>)
    ensures
        score::arch_terms(m).contains(w) == names_machine(w, m),
        text::has_any_part(n, score::arch_terms(m)) == mentions(n, m),
{
    lemma_literals_differ();
    let t = score::arch_terms(m);
    assert forall|v: Seq<char>| #[trigger] t.contains(v) == names_machine(v, m) by {
        if t.contains(v) {
            let k = t.index_of(v);
            assert(t[k] == v);
        }
        if m == "x86_64"@ {
            assert(t.len() == 4 && t[0] == "x86_64"@ && t[1] == "amd64"@ && t[2] == "x64"@ && t[3]
                == "amd_64"@);
        } else if m == "aarch64"@ {
            assert(t.len() == 2 && t[0] == "aarch64"@ && t[1] == "arm64"@);
        } else if m == "armv7"@ {
            assert(t.len() == 3 && t[0] == "armv7"@ && t[1] == "armhf"@ && t[2] == "arm"@);
        } else if m == "i686"@ {
            assert(t.len() == 4 && t[0] == "i686"@ && t[1] == "i386"@ && t[2] == "x86"@ && t[3]
                == "386"@);
        }
    }
    crate::laws::text::law_any_is_one_of_them(n, t);
    if mentions(n, m) {
        let v = choose|v: Seq<char>| names_machine(v, m) && #[trigger] text::has_part(n, v);
        assert(t.contains(v));
    }
}

proof fn lemma_foreign(n: Seq<char>, m: Seq<char>)
    requires
        known_machine(m),
    ensures
        text::has_any_part(n, score::foreign_terms(m)) <==> exists|o: Seq<char>|
            known_machine(o) && o != m && #[trigger] mentions(n, o),
{
    lemma_literals_differ();
    let a = score::terms_unless("x86_64"@, m);
    let b = score::terms_unless("aarch64"@, m);
    let c = score::terms_unless("armv7"@, m);
    let d = score::terms_unless("i686"@, m);
    let all = score::foreign_terms(m);
    lemma_terms(n, "x86_64"@, n);
    lemma_terms(n, "aarch64"@, n);
    lemma_terms(n, "armv7"@, n);
    lemma_terms(n, "i686"@, n);
    assert(all == a + b + c + d);
    if text::has_any_part(n, all) {
        let k = choose|k: int| 0 <= k < all.len() && text::has_part(n, #[trigger] all[k]);
        if k < a.len() {
            assert(a[k] == all[k]);
            assert(mentions(n, "x86_64"@));
        } else if k < a.len() + b.len() {
            assert(b[k - a.len()] == all[k]);
            assert(mentions(n, "aarch64"@));
        } else if k < a.len() + b.len() + c.len() {
            assert(c[k - a.len() - b.len()] == all[k]);
            assert(mentions(n, "armv7"@));
        } else {
            assert(d[k - a.len() - b.len() - c.len()] == all[k]);
            assert(mentions(n, "i686"@));
        }
    }
    if exists|o: Seq<char>| known_machine(o) && o != m && #[trigger] mentions(n, o) {
        let o = choose|o: Seq<char>| known_machine(o) && o != m && #[trigger] mentions(n, o);
        let t = score::arch_terms(o);
        let k = choose|k: int| 0 <= k < t.len() && text::has_part(n, #[trigger] t[k]);
        let at = if o == "x86_64"@ {
            k
        } else if o == "aarch64"@ {
            a.len() + k
        } else if o == "armv7"@ {
            a.len() + b.len() + k
        } else {
            a.len() + b.len() + c.len() + k
        };
        assert(all[at] == t[k]);
    }
}

/// What a machine reports is read without white space around it and in any letter case; each of its
/// names means the machine, and an unknown name means `x86_64`.
pub proof fn law_machine_is_read(raw: &str, r: &'static str)
    requires
        call_ensures(score::canonical_arch, (raw,), r),
    ensures
        ({
            let w = unicode::lowercase(text::trim_both(raw@, text::CharClass::White));
            &&& r@ == score::canonical_of(raw@)
            &&& known_machine(r@)
            &&& names_machine(w, r@) || (r@ == "x86_64"@ && forall|m: Seq<char>|
                !#[trigger] names_machine(w, m))
        }),
{
    let w = unicode::lowercase(text::trim_both(raw@, text::CharClass::White));
    lemma_literals_differ();
    lemma_terms(w, "x86_64"@, w);
    lemma_terms(w, "aarch64"@, w);
    lemma_terms(w, "armv7"@, w);
    lemma_terms(w, "i686"@, w);
}

/// The machine is the one that was reported or, if none was, the one that the program was built for; in
/// small letters, and what was reported without white space around it.
pub proof fn law_reported_machine_counts(uname: Option<&str>, built_for: &str, r: String)
    requires
        call_ensures(score::detect_arch, (uname, built_for), r),
    ensures
        uname matches Some(t) ==> r@ == unicode::lowercase(text::trim_both(t@, text::CharClass::White)),
        uname is None ==> r@ == unicode::lowercase(built_for@),
{
}

/// The names of a machine are its own, and the foreign ones are those of the other three.
pub proof fn law_machines_have_their_names(
    machine: &str,
    own: Vec<&'static str>,
    foreign: Vec<&'static str>,
    w: Seq<char>,
)
    requires
        call_ensures(score::arch_synonyms_for, (machine,), own),
        call_ensures(score::foreign_arch_terms, (machine,), foreign),
    ensures
        text::texts(own@).contains(w) <==> names_machine(w, machine@),
        text::texts(foreign@).contains(w) <==> exists|o: Seq<char>|
            known_machine(o) && o != machine@ && #[trigger] names_machine(w, o),
{
    let m = machine@;
    lemma_terms(w, m, w);
    lemma_literals_differ();
    let a = score::terms_unless("x86_64"@, m);
    let b = score::terms_unless("aarch64"@, m);
    let c = score::terms_unless("armv7"@, m);
    let d = score::terms_unless("i686"@, m);
    let all = score::foreign_terms(m);
    lemma_terms(w, "x86_64"@, w);
    lemma_terms(w, "aarch64"@, w);
    lemma_terms(w, "armv7"@, w);
    lemma_terms(w, "i686"@, w);
    assert(all == a + b + c + d);
    if all.contains(w) {
        let k = all.index_of(w);
        assert(all[k] == w);
        if k < a.len() {
            assert(a[k] == w);
            assert(names_machine(w, "x86_64"@));
        } else if k < a.len() + b.len() {
            assert(b[k - a.len()] == w);
            assert(names_machine(w, "aarch64"@));
        } else if k < a.len() + b.len() + c.len() {
            assert(c[k - a.len() - b.len()] == w);
            assert(names_machine(w, "armv7"@));
        } else {
            assert(d[k - a.len() - b.len() - c.len()] == w);
            assert(names_machine(w, "i686"@));
        }
    }
    if exists|o: Seq<char>| known_machine(o) && o != m && #[trigger] names_machine(w, o) {
        let o = choose|o: Seq<char>| known_machine(o) && o != m && #[trigger] names_machine(w, o);
        let t = score::arch_terms(o);
        assert(t.contains(w));
        let k = t.index_of(w);
        assert(t[k] == w);
        let at = if o == "x86_64"@ {
            k
        } else if o == "aarch64"@ {
            a.len() + k
        } else if o == "armv7"@ {
            a.len() + b.len() + k
        } else {
            a.len() + b.len() + c.len() + k
        };
        assert(all[at] == w);
    }
}

/// The form of an asset is told by the ending of its name.
pub proof fn law_endings_tell_the_form(name: &str, r: Format)
    requires
        call_ensures(score::asset_format, (name,), r),
    ensures
        ({
            let n = name@;
            let package = text::has_suffix(n, ".deb"@) || text::has_suffix(n, ".rpm"@);
            let tar = text::has_suffix(n, ".tar.gz"@) || text::has_suffix(n, ".tar.xz"@)
                || text::has_suffix(n, ".tar.bz2"@) || text::has_suffix(n, ".tgz"@);
            let zip = text::has_suffix(n, ".zip"@);
            let image = text::has_suffix(unicode::lowercase(n), ".appimage"@);
            &&& package <==> r == Format::Package
            &&& !package ==> (tar <==> r == Format::Tar)
            &&& !package && !tar ==> (zip <==> r == Format::Zip)
            &&& !package && !tar && !zip ==> (image <==> r == Format::AppImage)
        }),
{
}

/// The word for a match says how the machine is named.
pub proof fn law_matches_have_words(m: ArchMatch, r: &'static str)
    requires
        call_ensures(ArchMatch::label, (m,), r),
    ensures
        m == ArchMatch::Exact ==> r@ == "EXACT"@,
        m == ArchMatch::Synonym ==> r@ == "SYNONYM"@,
        m == ArchMatch::Missing ==> r@ == "NONE"@,
{
}

/// The points of an asset: 1000 for the machine's own name, 800 for another name of it, and far below
/// nothing for naming another machine alone; 200 for `linux`; 100 for the GNU library, and else 50 for
/// a static one; and by the ending 400 for a bare binary, 300 for a tar, 200 for a zip, 100 for an
/// AppImage, and far below nothing for a package.
pub proof fn law_points_add_up(asset: &Asset, arch: &str, r: AssetScore)
    requires
        call_ensures(score::score_asset, (asset, arch), r),
    ensures
        ({
            let n = unicode::lowercase(asset.name@);
            let m = score::canonical_of(arch@);
            let for_machine: int = if mentions(n, m) {
                if text::has_part(n, m) {
                    1000
                } else {
                    800
                }
            } else if exists|o: Seq<char>| known_machine(o) && o != m && #[trigger] mentions(n, o) {
                -9999
            } else {
                0
            };
            let for_linux: int = if text::has_part(n, "linux"@) {
                200
            } else {
                0
            };
            let for_library: int = if text::has_part(n, "gnu"@) || text::has_part(n, "glibc"@) {
                100
            } else if text::has_part(n, "musl"@) || text::has_part(n, "static"@) {
                50
            } else {
                0
            };
            let for_form: int = if text::has_suffix(n, ".deb"@) || text::has_suffix(n, ".rpm"@) {
                -9999
            } else if text::has_suffix(n, ".tar.gz"@) || text::has_suffix(n, ".tar.xz"@)
                || text::has_suffix(n, ".tar.bz2"@) || text::has_suffix(n, ".tgz"@) {
                300
            } else if text::has_suffix(n, ".zip"@) {
                200
            } else if text::has_suffix(unicode::lowercase(n), ".appimage"@) {
                100
            } else {
                400
            };
            &&& r.total == for_machine + for_linux + for_library + for_form
            &&& r.total == score::total_of(asset.name@, arch@)
            &&& r.arch_match == ArchMatch::Exact <==> mentions(n, m) && text::has_part(n, m)
            &&& r.arch_match == ArchMatch::Synonym <==> mentions(n, m) && !text::has_part(n, m)
        }),
{
    let n = unicode::lowercase(asset.name@);
    let m = score::canonical_of(arch@);
    lemma_literals_differ();
    lemma_terms(n, m, n);
    lemma_foreign(n, m);
}

// ---- Ranking ------------------------------------------------------------------------------------

/// The asset passes the filters and has points.
pub open spec fn contends(a: Asset, arch: Seq<char>) -> bool {
    filter::passes_all(a) && score::total_of(a.name@, arch) > 0
}

/// The elements of a ranking are those of the list, each at one place; ties are in the order of the
/// list.
proof fn lemma_ranked(list: Seq<ScoredAsset>) -> (perm: Seq<int>)
    ensures
        perm.len() == list.len(),
        score::ranked(list).len() == list.len(),
        forall|k: int|
            0 <= k < perm.len() ==> 0 <= (#[trigger] perm[k]) < list.len() && score::ranked(list)[k]
                == list[perm[k]],
        forall|k: int, l: int| 0 <= k < l < perm.len() ==> #[trigger] perm[k] != #[trigger] perm[l],
        forall|k: int, l: int|
            0 <= k < l < perm.len() && list[perm[k]].score.total == list[perm[l]].score.total
                ==> #[trigger] perm[k] < #[trigger] perm[l],
        forall|i: int| 0 <= i < list.len() ==> #[trigger] perm.contains(i),
    decreases list.len(),
{
    if list.len() == 0 {
        Seq::empty()
    } else {
        let front = list.drop_last();
        let x = list.last();
        let n = front.len() as int;
        let before = lemma_ranked(front);
        let ranking = score::ranked(front);
        let p = score::rank_position(ranking, x.score.total);
        score::lemma_rank_position(ranking, x.score.total);
        let perm = before.insert(p, n);
        let after = ranking.insert(p, x);
        assert(score::ranked(list) == after);
        assert forall|k: int| 0 <= k < perm.len() implies 0 <= (#[trigger] perm[k]) < list.len()
            && after[k] == list[perm[k]] && (k != p ==> perm[k] < n) by {
            if k < p {
                assert(perm[k] == before[k]);
            } else if k > p {
                assert(perm[k] == before[k - 1]);
            }
        }
        assert forall|k: int, l: int| 0 <= k < l < perm.len() implies #[trigger] perm[k]
            != #[trigger] perm[l] && (list[perm[k]].score.total == list[perm[l]].score.total
            ==> perm[k] < perm[l]) by {
            let a = if k < p { k } else { k - 1 };
            let b = if l < p { l } else { l - 1 };
            if k != p {
                assert(perm[k] == before[a]);
                assert(front[before[a]] == list[before[a]]);
            }
            if l != p {
                assert(perm[l] == before[b]);
                assert(front[before[b]] == list[before[b]]);
            }
            if k == p {
                assert(ranking[b].score.total < x.score.total);
                assert(ranking[b] == front[before[b]]);
            }
        }
        assert forall|i: int| 0 <= i < list.len() implies #[trigger] perm.contains(i) by {
            if i < n {
                assert(before.contains(i));
                let k = before.index_of(i);
                assert(before[k] == i);
                assert(perm[if k < p { k } else { k + 1 }] == i);
            } else {
                assert(perm[p] == i);
            }
        }
        perm
    }
}

/// The candidates are the contending assets, each at one place of the ranking; ties are in the order of
/// the assets.
proof fn rank_order(assets: Seq<Asset>, arch: Seq<char>) -> (order: Seq<int>)
    ensures
        order.len() == matcher::candidates(assets, arch).len(),
        forall|k: int|
            0 <= k < order.len() ==> 0 <= (#[trigger] order[k]) < assets.len() && contends(
                assets[order[k]],
                arch,
            ) && matcher::candidates(assets, arch)[k] == score::scored(assets[order[k]], arch),
        forall|k: int, l: int| 0 <= k < l < order.len() ==> #[trigger] order[k] != #[trigger] order[l],
        forall|k: int, l: int|
            0 <= k < l < order.len() && matcher::candidates(assets, arch)[k].score.total
                == matcher::candidates(assets, arch)[l].score.total ==> #[trigger] order[k]
                < #[trigger] order[l],
        forall|i: int|
            0 <= i < assets.len() && contends(#[trigger] assets[i], arch) ==> order.contains(i),
{
    let pass = |a: Asset| filter::passes_all(a);
    let scored = |a: Asset| score::scored(a, arch);
    let good = |s: ScoredAsset| s.score.total > 0;
    let kept = assets.filter(pass);
    let mapped = kept.map_values(scored);
    let list = mapped.filter(good);
    assert(list == score::contenders(kept, arch));
    assert(matcher::candidates(assets, arch) == score::ranked(list));
    let first = picking::lemma_kept(assets, pass);
    let second = picking::lemma_kept(mapped, good);
    let perm = lemma_ranked(list);
    let place = |k: int| first[second[k]];
    assert forall|k: int| 0 <= k < list.len() implies 0 <= #[trigger] place(k) < assets.len() && contends(
        assets[place(k)],
        arch,
    ) && list[k] == score::scored(assets[place(k)], arch) by {
        let j = second[k];
        assert(good(mapped[j]) && list[k] == mapped[j]);
        assert(mapped[j] == scored(kept[j]));
        assert(kept[j] == assets[first[j]] && pass(assets[first[j]]));
        score::law_points_fit(assets[first[j]].name@, arch);
    }
    assert forall|k: int, l: int| 0 <= k < l < list.len() implies #[trigger] place(k)
        < #[trigger] place(l) by {
        assert(second[k] < second[l]);
    }
    let order = Seq::new(perm.len(), |k: int| place(perm[k]));
    assert forall|k: int| 0 <= k < order.len() implies 0 <= (#[trigger] order[k]) < assets.len()
        && contends(assets[order[k]], arch) && matcher::candidates(assets, arch)[k] == score::scored(
        assets[order[k]],
        arch,
    ) by {
        assert(order[k] == place(perm[k]));
        assert(list[perm[k]] == score::ranked(list)[k]);
    }
    assert forall|k: int, l: int| 0 <= k < l < order.len() implies #[trigger] order[k]
        != #[trigger] order[l] && (matcher::candidates(assets, arch)[k].score.total
        == matcher::candidates(assets, arch)[l].score.total ==> order[k] < order[l]) by {
        assert(perm[k] != perm[l]);
        assert(order[k] == place(perm[k]) && order[l] == place(perm[l]));
        assert(list[perm[k]] == score::ranked(list)[k] && list[perm[l]] == score::ranked(list)[l]);
        if perm[k] < perm[l] {
            assert(place(perm[k]) < place(perm[l]));
        } else {
            assert(place(perm[l]) < place(perm[k]));
        }
    }
    assert forall|i: int| 0 <= i < assets.len() && contends(#[trigger] assets[i], arch) implies order.contains(
        i,
    ) by {
        assert(pass(assets[i]));
        assert(first.contains(i));
        let j = first.index_of(i);
        assert(first[j] == i);
        assert(mapped[j] == scored(kept[j]) && kept[j] == assets[first[j]]);
        score::law_points_fit(assets[i].name@, arch);
        assert(good(mapped[j]));
        assert(second.contains(j));
        let m = second.index_of(j);
        assert(second[m] == j);
        assert(perm.contains(m));
        let k = perm.index_of(m);
        assert(perm[k] == m);
        assert(order[k] == place(m) && place(m) == i);
    }
    order
}

/// Ranking keeps the assets with points, each once and with its own score, the best first and those with
/// the same points in their order.
pub proof fn law_ranking_keeps_the_assets_with_points(
    assets: Vec<Asset>,
    arch: &str,
    r: Vec<ScoredAsset>,
) -> (order: Seq<int>)
    requires
        call_ensures(score::score_and_rank, (assets, arch), r),
    ensures
        order.len() == r@.len(),
        forall|k: int|
            0 <= k < order.len() ==> 0 <= (#[trigger] order[k]) < assets@.len() && r@[k].asset
                == assets@[order[k]] && r@[k].score.total == score::total_of(
                assets@[order[k]].name@,
                arch@,
            ) && r@[k].score.total > 0,
        forall|k: int, l: int|
            0 <= k < l < order.len() ==> #[trigger] order[k] != #[trigger] order[l] && r@[k].score.total
                >= r@[l].score.total && (r@[k].score.total == r@[l].score.total ==> order[k]
                < order[l]),
        forall|i: int|
            0 <= i < assets@.len() && score::total_of((#[trigger] assets@[i]).name@, arch@) > 0
                ==> order.contains(i),
{
    let scored = |a: Asset| score::scored(a, arch@);
    let good = |s: ScoredAsset| s.score.total > 0;
    let mapped = assets@.map_values(scored);
    let list = mapped.filter(good);
    assert(list == score::contenders(assets@, arch@));
    let places = picking::lemma_kept(mapped, good);
    let perm = lemma_ranked(list);
    score::law_ranking_is_sorted(list);
    let order = Seq::new(perm.len(), |k: int| places[perm[k]]);
    assert forall|k: int| 0 <= k < order.len() implies 0 <= (#[trigger] order[k]) < assets@.len()
        && r@[k].asset == assets@[order[k]] && r@[k].score.total == score::total_of(
        assets@[order[k]].name@,
        arch@,
    ) && r@[k].score.total > 0 by {
        let j = places[perm[k]];
        assert(r@[k] == list[perm[k]] && list[perm[k]] == mapped[j] && good(mapped[j]));
        assert(mapped[j] == scored(assets@[j]));
        score::law_points_fit(assets@[j].name@, arch@);
    }
    assert forall|k: int, l: int| 0 <= k < l < order.len() implies #[trigger] order[k]
        != #[trigger] order[l] && r@[k].score.total >= r@[l].score.total && (r@[k].score.total
        == r@[l].score.total ==> order[k] < order[l]) by {
        assert(perm[k] != perm[l]);
        assert(r@[k] == list[perm[k]] && r@[l] == list[perm[l]]);
        if perm[k] < perm[l] {
            assert(places[perm[k]] < places[perm[l]]);
        } else {
            assert(places[perm[l]] < places[perm[k]]);
        }
    }
    assert forall|i: int|
        0 <= i < assets@.len() && score::total_of((#[trigger] assets@[i]).name@, arch@) > 0 implies order.contains(
        i,
    ) by {
        score::law_points_fit(assets@[i].name@, arch@);
        assert(mapped[i] == scored(assets@[i]));
        assert(good(mapped[i]));
        assert(places.contains(i));
        let m = places.index_of(i);
        assert(places[m] == i);
        assert(perm.contains(m));
        let k = perm.index_of(m);
        assert(perm[k] == m);
        assert(order[k] == i);
    }
    order
}

/// The pattern accepts the name of this asset and of no other.
pub open spec fn only_hit(assets: Seq<Asset>, pattern: Seq<char>, k: int) -> bool {
    &&& 0 <= k < assets.len()
    &&& pattern::accepts(pattern, assets[k].name@)
    &&& forall|i: int|
        0 <= i < assets.len() && i != k ==> !pattern::accepts(pattern, (#[trigger] assets[i]).name@)
}

proof fn lemma_hits(assets: Seq<Asset>, pattern: Seq<char>)
    ensures
        forall|k: int| #[trigger] only_hit(assets, pattern, k) ==> matcher::pattern_hits(assets, pattern)
            == seq![assets[k]],
        matcher::pattern_hits(assets, pattern).len() == 1 ==> exists|k: int| #[trigger]
            only_hit(assets, pattern, k),
        matcher::pattern_hits(assets, pattern).len() == 0 ==> forall|i: int|
            0 <= i < assets.len() ==> !pattern::accepts(pattern, (#[trigger] assets[i]).name@),
    decreases assets.len(),
{
    reveal(Seq::filter);
    let hits = matcher::pattern_hits(assets, pattern);
    if assets.len() > 0 {
        let front = assets.drop_last();
        let n = front.len() as int;
        lemma_hits(front, pattern);
        let old_hits = matcher::pattern_hits(front, pattern);
        let x = assets.last();
        if old_hits.len() == 0 {
            assert forall|i: int| 0 <= i < n implies !pattern::accepts(
                pattern,
                (#[trigger] assets[i]).name@,
            ) by {
                assert(front[i] == assets[i]);
            }
        }
        if pattern::accepts(pattern, x.name@) {
            if hits.len() == 1 {
                assert(only_hit(assets, pattern, n));
            }
        } else if hits.len() == 1 {
            let k = choose|k: int| #[trigger] only_hit(front, pattern, k);
            assert(only_hit(assets, pattern, k)) by {
                assert forall|i: int| 0 <= i < assets.len() && i != k implies !pattern::accepts(
                    pattern,
                    (#[trigger] assets[i]).name@,
                ) by {
                    if i < n {
                        assert(front[i] == assets[i]);
                    }
                }
                assert(front[k] == assets[k]);
            }
        }
        assert forall|k: int| #[trigger] only_hit(assets, pattern, k) implies hits == seq![
            assets[k],
        ] by {
            if k < n {
                assert(front[k] == assets[k]);
                assert forall|i: int| 0 <= i < front.len() && i != k implies !pattern::accepts(
                    pattern,
                    (#[trigger] front[i]).name@,
                ) by {
                    assert(assets[i] == front[i]);
                }
                assert(only_hit(front, pattern, k));
                assert(!pattern::accepts(pattern, assets[n].name@));
            } else {
                if old_hits.len() > 0 {
                    front.lemma_filter_pred(|a: Asset| pattern::accepts(pattern, a.name@), 0);
                    front.lemma_filter_contains_rev(
                        |a: Asset| pattern::accepts(pattern, a.name@),
                        old_hits[0],
                    );
                    let j = front.index_of(old_hits[0]);
                    assert(assets[j] == front[j]);
                }
                assert(hits =~= seq![assets[k]]);
            }
        }
    }
}

/// Every asset comes out with the score that it has by itself.
pub proof fn law_score_is_that_of_the_asset(
    assets: Vec<Asset>,
    arch: &str,
    stored: Option<&str>,
    repo: &str,
    tag: &str,
    r: Result<MatchOutput, GhrError>,
    asset: &Asset,
    own: AssetScore,
    k: int,
)
    requires
        call_ensures(match_asset, (assets, arch, stored, repo, tag), r),
        call_ensures(score::score_asset, (asset, arch), own),
    ensures
        r matches Ok(MatchOutput::AutoSelected(s)) ==> s.asset == *asset ==> s.score == own,
        r matches Ok(MatchOutput::NeedsInteraction(list)) ==> 0 <= k < list@.len() && list@[k].asset
            == *asset ==> list@[k].score == own,
{
    let all = assets@;
    if let Some(p) = stored {
        lemma_hits(all, p@);
    }
    let order = rank_order(all, arch@);
    if let Ok(MatchOutput::AutoSelected(s)) = r {
        if !(stored is Some && matcher::pattern_hits(all, stored->0@).len() == 1) {
            assert(s == score::scored(all[order[0]], arch@));
        }
    }
    if let Ok(MatchOutput::NeedsInteraction(list)) = r {
        if 0 <= k < list@.len() {
            assert(list@[k] == score::scored(all[order[k]], arch@));
        }
    }
}

/// What is taken without asking, where no saved pattern matches a single asset, is one of the assets
/// that pass the filters and have points, and it leads every other one of them by at least 400.
pub proof fn law_taken_asset_leads(
    assets: Vec<Asset>,
    arch: &str,
    stored: Option<&str>,
    repo: &str,
    tag: &str,
    r: Result<MatchOutput, GhrError>,
    s: ScoredAsset,
)
    requires
        call_ensures(match_asset, (assets, arch, stored, repo, tag), r),
        stored matches Some(p) ==> forall|k: int| !#[trigger] only_hit(assets@, p@, k),
        r == Ok::<MatchOutput, GhrError>(MatchOutput::AutoSelected(s)),
    ensures
        s.score.total == score::total_of(s.asset.name@, arch@),
        exists|i: int|
            0 <= i < assets@.len() && #[trigger] assets@[i] == s.asset && contends(assets@[i], arch@)
                && forall|j: int|
                0 <= j < assets@.len() && j != i && contends(#[trigger] assets@[j], arch@)
                    ==> score::total_of(s.asset.name@, arch@) - score::total_of(
                    assets@[j].name@,
                    arch@,
                ) >= 400,
        forall|j: int|
            0 <= j < assets@.len() && contends(#[trigger] assets@[j], arch@) ==> score::total_of(
                s.asset.name@,
                arch@,
            ) >= score::total_of(assets@[j].name@, arch@),
{
    let all = assets@;
    if let Some(p) = stored {
        lemma_hits(all, p@);
    }
    let list = matcher::candidates(all, arch@);
    let order = rank_order(all, arch@);
    score::law_ranking_is_sorted(
        score::contenders(all.filter(|a: Asset| filter::passes_all(a)), arch@),
    );
    assert(matcher::choice_among(list) == matcher::Choice::Auto(s));
    let i = order[0];
    assert(list[0] == score::scored(all[i], arch@));
    score::law_points_fit(s.asset.name@, arch@);
    assert forall|j: int|
        0 <= j < all.len() && j != i && contends(#[trigger] all[j], arch@) implies score::total_of(
        s.asset.name@,
        arch@,
    ) - score::total_of(all[j].name@, arch@) >= 400 by {
        let k = order.index_of(j);
        assert(order[k] == j);
        assert(list[k] == score::scored(all[j], arch@));
        score::law_points_fit(all[j].name@, arch@);
        assert(list[1].score.total >= list[k].score.total);
    }
    assert(all[i] == s.asset);
    assert forall|j: int|
        0 <= j < all.len() && contends(#[trigger] all[j], arch@) implies score::total_of(
        s.asset.name@,
        arch@,
    ) >= score::total_of(all[j].name@, arch@) by {
        if j == i {
            assert(all[j] == s.asset);
        }
    }
}

/// Where someone has to choose, all assets that pass the filters and have points are offered, each
/// once and with its points, the best first and those with the same points in their order; and none of
/// them leads all others by 400.
pub proof fn law_offered_assets_are_the_contenders(
    assets: Vec<Asset>,
    arch: &str,
    stored: Option<&str>,
    repo: &str,
    tag: &str,
    r: Result<MatchOutput, GhrError>,
    list: Vec<ScoredAsset>,
) -> (order: Seq<int>)
    requires
        call_ensures(match_asset, (assets, arch, stored, repo, tag), r),
        r == Ok::<MatchOutput, GhrError>(MatchOutput::NeedsInteraction(list)),
    ensures
        order.len() == list@.len() >= 2,
        forall|k: int|
            0 <= k < order.len() ==> 0 <= (#[trigger] order[k]) < assets@.len() && contends(
                assets@[order[k]],
                arch@,
            ) && list@[k].asset == assets@[order[k]] && list@[k].score.total == score::total_of(
                assets@[order[k]].name@,
                arch@,
            ),
        forall|k: int, l: int| 0 <= k < l < order.len() ==> #[trigger] order[k] != #[trigger] order[l],
        forall|i: int|
            0 <= i < assets@.len() && contends(#[trigger] assets@[i], arch@) ==> order.contains(i),
        forall|k: int, l: int|
            0 <= k < l < list@.len() ==> (#[trigger] list@[k]).score.total >= (
            #[trigger] list@[l]).score.total,
        forall|k: int, l: int|
            0 <= k < l < list@.len() && list@[k].score.total == list@[l].score.total
                ==> #[trigger] order[k] < #[trigger] order[l],
        list@[0].score.total - list@[1].score.total < 400,
{
    let all = assets@;
    if let Some(p) = stored {
        lemma_hits(all, p@);
    }
    let order = rank_order(all, arch@);
    score::law_ranking_is_sorted(
        score::contenders(all.filter(|a: Asset| filter::passes_all(a)), arch@),
    );
    assert forall|k: int| 0 <= k < order.len() implies list@[k].score.total == score::total_of(
        all[#[trigger] order[k]].name@,
        arch@,
    ) by {
        score::law_points_fit(all[order[k]].name@, arch@);
    }
    order
}

/// An error means that no asset passes the filters and has points, and that no saved pattern matches a
/// single one; it names the repository and the release.
pub proof fn law_nothing_fits(
    assets: Vec<Asset>,
    arch: &str,
    stored: Option<&str>,
    repo: &str,
    tag: &str,
    r: Result<MatchOutput, GhrError>,
)
    requires
        call_ensures(match_asset, (assets, arch, stored, repo, tag), r),
    ensures
        r is Err <==> (forall|i: int|
            0 <= i < assets@.len() ==> !contends(#[trigger] assets@[i], arch@)) && (
        stored matches Some(p) ==> forall|k: int| !#[trigger] only_hit(assets@, p@, k)),
        r matches Err(e) ==> e matches GhrError::NoCompatibleAssets { repo: x, tag: y } && x@ == repo@
            && y@ == tag@,
{
    let all = assets@;
    if let Some(p) = stored {
        lemma_hits(all, p@);
    }
    let order = rank_order(all, arch@);
    let list = matcher::candidates(all, arch@);
    if list.len() > 0 {
        assert(contends(all[order[0]], arch@));
    } else {
        assert forall|i: int| 0 <= i < all.len() implies !contends(#[trigger] all[i], arch@) by {
            if contends(all[i], arch@) {
                assert(order.contains(i));
            }
        }
    }
    if r is Err {
        if let Some(p) = stored {
            assert forall|k: int| !#[trigger] only_hit(all, p@, k) by {}
        }
    }
}

/// A saved pattern that matches a single asset decides: that asset is taken, whatever its points.
pub proof fn law_single_hit_is_taken(
    assets: Vec<Asset>,
    arch: &str,
    stored: &str,
    repo: &str,
    tag: &str,
    r: Result<MatchOutput, GhrError>,
    k: int,
)
    requires
        call_ensures(match_asset, (assets, arch, Some(stored), repo, tag), r),
        only_hit(assets@, stored@, k),
    ensures
        r matches Ok(MatchOutput::AutoSelected(s)) && s.asset == assets@[k] && s.score.total
            == score::total_of(assets@[k].name@, arch@),
{
    lemma_hits(assets@, stored@);
    score::law_points_fit(assets@[k].name@, arch@);
}

/// Looking for the asset of a saved pattern finds it exactly if it is the only one.
pub proof fn law_stored_pattern_finds_one(assets: &Vec<Asset>, pat: &str, r: Option<Asset>)
    requires
        call_ensures(match_stored_pattern, (assets, pat), r),
    ensures
        r is Some <==> exists|k: int| #[trigger] only_hit(assets@, pat@, k),
        r matches Some(a) ==> exists|k: int| #[trigger] only_hit(assets@, pat@, k) && a == assets@[k],
{
    lemma_hits(assets@, pat@);
}

/// The asset that was picked is the one of the list.
pub proof fn law_picked_asset_is_of_the_list(assets: Vec<Asset>, index: usize, r: Asset)
    requires
        call_ensures(picker::pick, (assets, index), r),
        index < assets@.len(),
    ensures
        r == assets@[index as int],
{
}

// ---- Patterns -----------------------------------------------------------------------------------

/// A pattern with one star accepts exactly the names that begin and end as it does, with anything
/// between; a pattern without one accepts itself alone.
pub proof fn law_star_stands_for_any_text(a: Seq<char>, b: Seq<char>, name: Seq<char>)
    requires
        forall|i: int| 0 <= i < a.len() ==> (#[trigger] a[i]) != '*' && a[i] != '?' && a[i] != '[',
        forall|i: int| 0 <= i < b.len() ==> (#[trigger] b[i]) != '*' && b[i] != '?' && b[i] != '[',
    ensures
        pattern::accepts(a + seq!['*'] + b, name) <==> exists|m: Seq<char>| name == #[trigger] (a + m
            + b),
        pattern::accepts(a, name) <==> name == a,
{
    let p = a + seq!['*'] + b;
    assert forall|i: int| 0 <= i < p.len() implies (#[trigger] p[i]) != '?' && p[i] != '[' by {
        if i < a.len() {
            assert(p[i] == a[i]);
        } else if i > a.len() {
            assert(p[i] == b[i - a.len() - 1]);
        }
    }
    assert forall|i: int, j: int|
        0 <= i < p.len() && j == i + 1 && j < p.len() implies !(#[trigger] p[i] == '*'
        && #[trigger] p[j] == '*') by {
        if i < a.len() {
            assert(p[i] == a[i]);
        } else {
            assert(p[j] == b[j - a.len() - 1]);
        }
    }
    assert(pattern::stars_only(p));
    assert(pattern::stars_only(a));
    lemma_exact(a, name);
    lemma_one_star(a, b, name);
}

proof fn lemma_exact(a: Seq<char>, name: Seq<char>)
    requires
        forall|i: int| 0 <= i < a.len() ==> (#[trigger] a[i]) != '*',
    ensures
        pattern::star_match(a, name) <==> name == a,
    decreases a.len(),
{
    if a.len() > 0 {
        assert(a[0] != '*');
        if name.len() > 0 {
            let more = a.drop_first();
            assert forall|i: int| 0 <= i < more.len() implies (#[trigger] more[i]) != '*' by {
                assert(a[i + 1] != '*');
            }
            lemma_exact(more, name.drop_first());
            if name[0] == a[0] && name.drop_first() == more {
                assert(name =~= seq![name[0]] + name.drop_first());
                assert(a =~= seq![a[0]] + more);
            }
        }
    } else if name.len() == 0 {
        assert(name =~= a);
    }
}

/// A star followed by a text without stars accepts what ends with that text.
proof fn lemma_star_end(b: Seq<char>, name: Seq<char>)
    requires
        forall|i: int| 0 <= i < b.len() ==> (#[trigger] b[i]) != '*',
    ensures
        pattern::star_match(seq!['*'] + b, name) <==> exists|m: Seq<char>| name == #[trigger] (m + b),
    decreases name.len(),
{
    let p = seq!['*'] + b;
    assert(p.drop_first() =~= b);
    lemma_exact(b, name);
    if name.len() > 0 {
        lemma_star_end(b, name.drop_first());
        if pattern::star_match(p, name.drop_first()) {
            let m = choose|m: Seq<char>| name.drop_first() == #[trigger] (m + b);
            assert(name =~= seq![name[0]] + name.drop_first());
            assert(seq![name[0]] + (m + b) =~= (seq![name[0]] + m) + b);
        }
        if exists|m: Seq<char>| name == #[trigger] (m + b) {
            let m = choose|m: Seq<char>| name == #[trigger] (m + b);
            if m.len() == 0 {
                assert(name =~= b);
            } else {
                assert(name.drop_first() =~= m.drop_first() + b);
            }
        }
    } else {
        if exists|m: Seq<char>| name == #[trigger] (m + b) {
            let m = choose|m: Seq<char>| name == #[trigger] (m + b);
            assert(name =~= b);
        }
    }
    if pattern::star_match(b, name) {
        assert(name =~= Seq::<char>::empty() + b);
    }
}

proof fn lemma_one_star(a: Seq<char>, b: Seq<char>, name: Seq<char>)
    requires
        forall|i: int| 0 <= i < a.len() ==> (#[trigger] a[i]) != '*',
        forall|i: int| 0 <= i < b.len() ==> (#[trigger] b[i]) != '*',
    ensures
        pattern::star_match(a + seq!['*'] + b, name) <==> exists|m: Seq<char>| name == #[trigger] (a
            + m + b),
    decreases a.len(),
{
    let p = a + seq!['*'] + b;
    if a.len() == 0 {
        assert(p =~= seq!['*'] + b);
        lemma_star_end(b, name);
        assert forall|m: Seq<char>| #[trigger] (a + m + b) == m + b by {
            assert(a + m + b =~= m + b);
        }
        if exists|m: Seq<char>| name == #[trigger] (m + b) {
            let m = choose|m: Seq<char>| name == #[trigger] (m + b);
            assert(name == a + m + b);
        }
    } else {
        assert(p[0] == a[0] && a[0] != '*');
        let more = a.drop_first();
        assert(p.drop_first() =~= more + seq!['*'] + b);
        assert forall|i: int| 0 <= i < more.len() implies (#[trigger] more[i]) != '*' by {
            assert(a[i + 1] != '*');
        }
        if name.len() > 0 {
            lemma_one_star(more, b, name.drop_first());
            if name[0] == a[0] && exists|m: Seq<char>| name.drop_first() == #[trigger] (more + m + b) {
                let m = choose|m: Seq<char>| name.drop_first() == #[trigger] (more + m + b);
                assert(name =~= seq![name[0]] + name.drop_first());
                assert(a =~= seq![a[0]] + more);
                assert(seq![a[0]] + (more + m + b) =~= a + m + b);
            }
            if exists|m: Seq<char>| name == #[trigger] (a + m + b) {
                let m = choose|m: Seq<char>| name == #[trigger] (a + m + b);
                assert(name.drop_first() =~= more + m + b);
                assert(name[0] == a[0]);
            }
        } else if exists|m: Seq<char>| name == #[trigger] (a + m + b) {
            let m = choose|m: Seq<char>| name == #[trigger] (a + m + b);
            assert((a + m + b).len() > 0);
        }
    }
}

/// A pattern of lone stars and other characters is read from the front: a star stands for any text, any
/// other character for itself, and nothing is left at the end.
pub proof fn law_patterns_are_read_from_the_front(c: char, rest: Seq<char>, name: Seq<char>)
    requires
        forall|i: int| 0 <= i < rest.len() ==> (#[trigger] rest[i]) != '?' && rest[i] != '[',
        forall|i: int, j: int|
            0 <= i < rest.len() && j == i + 1 && j < rest.len() ==> !(#[trigger] rest[i] == '*'
                && #[trigger] rest[j] == '*'),
        c != '?' && c != '[',
        c == '*' && rest.len() > 0 ==> rest[0] != '*',
    ensures
        pattern::accepts(Seq::empty(), name) <==> name.len() == 0,
        c != '*' ==> (pattern::accepts(seq![c] + rest, name) <==> name.len() > 0 && name[0] == c
            && pattern::accepts(rest, name.skip(1))),
        c == '*' ==> (pattern::accepts(seq![c] + rest, name) <==> exists|k: int|
            0 <= k <= name.len() && #[trigger] pattern::accepts(rest, name.skip(k))),
{
    let p = seq![c] + rest;
    assert(p.drop_first() =~= rest);
    assert forall|i: int| 0 <= i < p.len() implies (#[trigger] p[i]) != '?' && p[i] != '[' by {
        if i > 0 {
            assert(p[i] == rest[i - 1]);
        }
    }
    assert forall|i: int, j: int| 0 <= i < p.len() && j == i + 1 && j < p.len() implies !(
    #[trigger] p[i] == '*' && #[trigger] p[j] == '*') by {
        assert(p[j] == rest[j - 1]);
        if i > 0 {
            assert(p[i] == rest[i - 1]);
        }
    }
    assert(pattern::stars_only(p));
    assert(pattern::stars_only(rest));
    assert(pattern::stars_only(Seq::empty()));
    if c != '*' {
        if name.len() > 0 {
            assert(name.skip(1) =~= name.drop_first());
        }
    } else {
        lemma_star_skips(rest, name);
    }
}

proof fn lemma_star_skips(rest: Seq<char>, name: Seq<char>)
    requires
        pattern::stars_only(rest),
    ensures
        pattern::star_match(seq!['*'] + rest, name) <==> exists|k: int|
            0 <= k <= name.len() && #[trigger] pattern::accepts(rest, name.skip(k)),
    decreases name.len(),
{
    let p = seq!['*'] + rest;
    assert(p.drop_first() =~= rest);
    assert(name.skip(0) =~= name);
    if pattern::star_match(rest, name) {
        assert(pattern::accepts(rest, name.skip(0)));
    }
    if name.len() > 0 {
        let more = name.drop_first();
        lemma_star_skips(rest, more);
        if pattern::star_match(p, more) {
            let k = choose|k: int| 0 <= k <= more.len() && #[trigger] pattern::accepts(rest, more.skip(k));
            assert(more.skip(k) =~= name.skip(k + 1));
            assert(pattern::accepts(rest, name.skip(k + 1)));
        }
        if exists|k: int| 0 <= k <= name.len() && #[trigger] pattern::accepts(rest, name.skip(k)) {
            let k = choose|k: int| 0 <= k <= name.len() && #[trigger] pattern::accepts(rest, name.skip(k));
            if k > 0 {
                assert(name.skip(k) =~= more.skip(k - 1));
                assert(pattern::accepts(rest, more.skip(k - 1)));
            }
        }
    }
}

/// A pattern with another wildcard than a lone star accepts what the library for patterns says, and
/// nothing if it is not valid.
pub proof fn law_other_wildcards_are_left_to_the_library(p: Seq<char>, name: Seq<char>, i: int)
    requires
        0 <= i < p.len(),
        p[i] == '?' || p[i] == '[' || (p[i] == '*' && i + 1 < p.len() && p[i + 1] == '*'),
    ensures
        pattern::accepts(p, name) <==> pattern::glob_valid(p) && pattern::glob_matches(p, name),
{
    let j = i + 1;
    assert(p[i] == '?' || p[i] == '[' || (p[i] == '*' && j < p.len() && p[j] == '*'));
}

/// The names that a pattern accepts are found, in their order, and no others.
pub proof fn law_accepted_names_are_found(pat: &str, names: &[&str], r: Vec<&str>) -> (order: Seq<int>)
    requires
        call_ensures(pattern::match_pattern, (pat, names), r),
    ensures
        picking::ascending(order, text::texts(names@).len()),
        order.len() == text::texts(r@).len(),
        forall|k: int|
            0 <= k < order.len() ==> text::texts(r@)[k] == text::texts(names@)[#[trigger] order[k]],
        forall|i: int|
            0 <= i < text::texts(names@).len() ==> (#[trigger] order.contains(i) <==> pattern::accepts(
                pat@,
                text::texts(names@)[i],
            )),
{
    let all = text::texts(names@);
    let f = |n: Seq<char>| pattern::accepts(pat@, n);
    let order = picking::lemma_kept(all, f);
    assert(text::texts(r@) == all.filter(f));
    assert forall|i: int| 0 <= i < all.len() implies (#[trigger] order.contains(i)
        <==> pattern::accepts(pat@, all[i])) by {
        assert(f(all[i]) == pattern::accepts(pat@, all[i]));
    }
    order
}

/// The pattern that is saved for an asset has a star for each place of the tag, one after the other; if
/// the tag is not in the name, for those of the tag without the `v` before it; and if that is not there
/// either, the pattern is the name.
pub proof fn law_saved_pattern_has_a_star_for_each_version(
    name: &str,
    tag: &str,
    version: Seq<char>,
    r: String,
)
    requires
        call_ensures(pattern::asset_to_pattern, (name, tag), r),
        tag@ == seq!['v'] + version,
        version.len() > 0,
        version[0] != 'v',
    ensures
        text::has_part(name@, tag@) ==> r@ == text::replaced(name@, tag@, seq!['*']),
        !text::has_part(name@, tag@) ==> r@ == text::replaced(name@, version, seq!['*']),
        !text::has_part(name@, tag@) && !text::has_part(name@, version) ==> r@ == name@,
{
    reveal_strlit("*");
    assert("*"@ =~= seq!['*']);
    text::lemma_trim_front_is(tag@, text::CharClass::Only('v'), 1);
    assert(tag@.skip(1) =~= version);
    if text::has_part(name@, tag@) {
        lemma_replacing_shortens(name@, tag@);
    } else {
        crate::laws::text::law_absent_part_is_not_replaced(name@, tag@, "*"@);
        if !text::has_part(name@, version) {
            crate::laws::text::law_absent_part_is_not_replaced(name@, version, "*"@);
        }
    }
}

/// Putting a star for a longer part makes a text shorter.
proof fn lemma_replacing_shortens(s: Seq<char>, part: Seq<char>)
    requires
        part.len() >= 2,
    ensures
        text::replaced(s, part, seq!['*']).len() <= s.len(),
        text::has_part(s, part) ==> text::replaced(s, part, seq!['*']).len() < s.len(),
    decreases s.len(),
{
    if s.len() == 0 {
        if text::has_part(s, part) {
            let i = choose|i: int| text::occurs_at(s, part, i);
        }
    } else if text::has_prefix(s, part) {
        lemma_replacing_shortens(s.skip(part.len() as int), part);
    } else {
        let more = s.drop_first();
        lemma_replacing_shortens(more, part);
        if text::has_part(s, part) {
            let i = choose|i: int| text::occurs_at(s, part, i);
            if i == 0 {
                assert(text::has_prefix(s, part));
            } else {
                assert(more.subrange(i - 1, i - 1 + part.len()) =~= s.subrange(i, i + part.len()));
                assert(text::occurs_at(more, part, i - 1));
            }
        }
    }
}

/// The pattern that is saved for an asset has a star for the first place of the tag or, where the tag
/// is not in the name, of the tag without the `v` before it.
pub proof fn law_saved_pattern_has_a_star_for_the_version(
    name: &str,
    tag: &str,
    r: String,
    before: Seq<char>,
    version: Seq<char>,
    after: Seq<char>,
)
    requires
        call_ensures(pattern::asset_to_pattern, (name, tag), r),
        name@ == before + version + after,
        version.len() > 0,
        version != seq!['*'],
        tag@ == version || (tag@ == seq!['v'] + version && version[0] != 'v' && !text::has_part(
            name@,
            tag@,
        )),
        forall|i: int| 0 <= i < before.len() ==> !text::occurs_at(name@, version, i),
        !text::has_part(after, version),
    ensures
        r@ == before + seq!['*'] + after,
{
    reveal_strlit("*");
    assert("*"@ =~= seq!['*']);
    crate::laws::text::law_first_place_is_replaced(before, version, after, "*"@);
    crate::laws::text::law_absent_part_is_not_replaced(after, version, "*"@);
    if tag@ == version {
        if before + seq!['*'] + after == name@ {
            assert(version.len() == 1);
            assert(name@[before.len() as int] == version[0]);
            assert((before + seq!['*'] + after)[before.len() as int] == '*');
            assert(version =~= seq!['*']);
        }
    } else {
        crate::laws::text::law_absent_part_is_not_replaced(name@, tag@, "*"@);
        text::lemma_trim_front_is(tag@, text::CharClass::Only('v'), 1);
        assert(tag@.skip(1) =~= version);
    }
}

// ---- Asking -------------------------------------------------------------------------------------

/// The offer is the choice of the matcher: what is taken is offered as chosen, with a note that names
/// it, and what is to be chosen from is offered in the same order.
pub proof fn law_offer_follows_the_choice(
    release: &crate::github::types::Release,
    assets: Vec<Asset>,
    arch: &str,
    stored: Option<&str>,
    repo: &str,
    r: Result<Offer, GhrError>,
    tag: &str,
    m: Result<MatchOutput, GhrError>,
)
    requires
        call_ensures(picker::select_asset, (release, arch, stored, repo), r),
        call_ensures(match_asset, (assets, arch, stored, repo, tag), m),
        assets@ == release.assets@,
        tag@ == release.tag_name@,
    ensures
        match m {
            Ok(MatchOutput::AutoSelected(s)) => r matches Ok(Offer::Chosen { asset, note }) && asset
                == s.asset && note@ == "Auto-selected asset: "@ + s.asset.name@ + " (arch match: "@ + (
            match s.score.arch_match {
                ArchMatch::Exact => "EXACT"@,
                ArchMatch::Synonym => "SYNONYM"@,
                ArchMatch::Missing => "NONE"@,
            }) + ", "@ + arch@ + ")"@,
            Ok(MatchOutput::NeedsInteraction(list)) => r matches Ok(Offer::Ask { assets: offered })
                && offered@.len() == list@.len() && forall|k: int|
                0 <= k < list@.len() ==> #[trigger] offered@[k] == list@[k].asset,
            Err(_) => r matches Err(GhrError::NoCompatibleAssets { repo: x, tag: y }) && x@ == repo@
                && y@ == tag@,
        },
{
}

/// Nobody is asked where one asset was chosen, or where the user said yes to everything: then the best
/// is taken.
pub proof fn law_yes_takes_the_best(offer: Offer, yes: bool, r: NextPick)
    requires
        call_ensures(picker::next_pick, (offer, yes), r),
    ensures
        match offer {
            Offer::Chosen { asset, note } => r matches NextPick::Done { asset: a, note: n } && a == asset
                && n == Some(note),
            Offer::Ask { assets } => if yes && assets@.len() > 0 {
                r matches NextPick::Done { asset: a, note: n } && a == assets@[0] && n is None
            } else {
                r matches NextPick::Ask { assets: list } && list@ == assets@
            },
        },
{
}

} // verus!
