//! How well an asset fits the machine, and the ranking by it.

use vstd::prelude::*;

use crate::github::types::Asset;
use crate::text;
use crate::text::CharClass;
use crate::unicode;

verus! {

// Scoring weights.
pub const SCORE_ARCH_EXACT: i32 = 1000;

pub const SCORE_ARCH_SYNONYM: i32 = 800;

pub const SCORE_LINUX_KEYWORD: i32 = 200;

pub const SCORE_GNU: i32 = 100;

pub const SCORE_MUSL: i32 = 50;

pub const SCORE_FORMAT_RAW: i32 = 400;

pub const SCORE_FORMAT_TAR: i32 = 300;

pub const SCORE_FORMAT_ZIP: i32 = 200;

pub const SCORE_FORMAT_APPIMG: i32 = 100;

pub const SCORE_FORMAT_REJECT: i32 = -9999;

/// How far ahead of the second the first has to be to be taken without asking.
pub const CONFIDENCE_THRESHOLD: i32 = 400;

/// How the name of an asset names the architecture of the machine.
#[derive(Clone, Copy, Debug, PartialEq, Eq, Structural)]
pub enum ArchMatch {
    /// By its canonical name.
    Exact,
    /// By another name of it.
    Synonym,
    /// Not at all.
    Missing,
}

impl ArchMatch {
    /// The word for a kind of match.
    pub open spec fn word(self) -> Seq<char> {
        match self {
            ArchMatch::Exact => "EXACT"@,
            ArchMatch::Synonym => "SYNONYM"@,
            ArchMatch::Missing => "NONE"@,
        }
    }

    /// The word to show for it.
    pub fn label(self) -> (r: &'static str)
        ensures
            r@ == self.word(),
    {
        match self {
            ArchMatch::Exact => "EXACT",
            ArchMatch::Synonym => "SYNONYM",
            ArchMatch::Missing => "NONE",
        }
    }
}

/// The score of an asset.
#[derive(Clone, Copy, Debug, PartialEq, Eq, Structural)]
pub struct AssetScore {
    pub arch_match: ArchMatch,
    pub total: i32,
}

/// An asset with its score.
#[derive(Debug)]
pub struct ScoredAsset {
    pub asset: Asset,
    pub score: AssetScore,
}

/// All names of the architecture that has this canonical name.
pub open spec fn arch_terms(canonical: Seq<char>) -> Seq<Seq<char>> {
    if canonical == "x86_64"@ {
        seq!["x86_64"@, "amd64"@, "x64"@, "amd_64"@]
    } else if canonical == "aarch64"@ {
        seq!["aarch64"@, "arm64"@]
    } else if canonical == "armv7"@ {
        seq!["armv7"@, "armhf"@, "arm"@]
    } else if canonical == "i686"@ {
        seq!["i686"@, "i386"@, "x86"@, "386"@]
    } else {
        Seq::empty()
    }
}

/// The names of one architecture, unless it is that of the machine.
pub open spec fn terms_unless(arch: Seq<char>, canonical: Seq<char>) -> Seq<Seq<char>> {
    if arch == canonical {
        Seq::empty()
    } else {
        arch_terms(arch)
    }
}

/// All names of the other architectures.
pub open spec fn foreign_terms(canonical: Seq<char>) -> Seq<Seq<char>> {
    terms_unless("x86_64"@, canonical) + terms_unless("aarch64"@, canonical) + terms_unless(
        "armv7"@,
        canonical,
    ) + terms_unless("i686"@, canonical)
}

/// The canonical name of the architecture that a machine reports; `x86_64` if it is unknown.
pub open spec fn canonical_of(raw: Seq<char>) -> Seq<char> {
    let arch = unicode::lowercase(text::trim_both(raw, CharClass::White));
    if arch_terms("x86_64"@).contains(arch) {
        "x86_64"@
    } else if arch_terms("aarch64"@).contains(arch) {
        "aarch64"@
    } else if arch_terms("armv7"@).contains(arch) {
        "armv7"@
    } else if arch_terms("i686"@).contains(arch) {
        "i686"@
    } else {
        "x86_64"@
    }
}

/// How a name in lower case names the architecture.
pub open spec fn arch_match_of(name: Seq<char>, canonical: Seq<char>) -> ArchMatch {
    if text::has_any_part(name, arch_terms(canonical)) {
        if text::has_part(name, canonical) {
            ArchMatch::Exact
        } else {
            ArchMatch::Synonym
        }
    } else {
        ArchMatch::Missing
    }
}

/// The points for the architecture.
pub open spec fn arch_points(name: Seq<char>, canonical: Seq<char>) -> int {
    match arch_match_of(name, canonical) {
        ArchMatch::Exact => SCORE_ARCH_EXACT as int,
        ArchMatch::Synonym => SCORE_ARCH_SYNONYM as int,
        ArchMatch::Missing => if text::has_any_part(name, foreign_terms(canonical)) {
            SCORE_FORMAT_REJECT as int
        } else {
            0
        },
    }
}

/// The points for naming Linux.
pub open spec fn linux_points(name: Seq<char>) -> int {
    if text::has_part(name, "linux"@) {
        SCORE_LINUX_KEYWORD as int
    } else {
        0
    }
}

/// The name says that the C library is the GNU one.
pub open spec fn names_gnu(name: Seq<char>) -> bool {
    text::has_part(name, "gnu"@) || text::has_part(name, "glibc"@)
}

/// The name says that the binary brings its own C library.
pub open spec fn names_musl(name: Seq<char>) -> bool {
    text::has_part(name, "musl"@) || text::has_part(name, "static"@)
}

/// The points for the C library.
pub open spec fn libc_points(name: Seq<char>) -> int {
    if names_gnu(name) {
        SCORE_GNU as int
    } else if names_musl(name) {
        SCORE_MUSL as int
    } else {
        0
    }
}

/// The forms an asset can come in.
#[derive(Clone, Copy, Debug, PartialEq, Eq, Structural)]
pub enum Format {
    /// A package of a distribution.
    Package,
    Tar,
    Zip,
    AppImage,
    /// Anything else: a bare binary.
    Raw,
}

/// The form that a name in lower case tells by its ending.
pub open spec fn format_of(name: Seq<char>) -> Format {
    if text::has_suffix(name, ".deb"@) || text::has_suffix(name, ".rpm"@) {
        Format::Package
    } else if text::has_suffix(name, ".tar.gz"@) || text::has_suffix(name, ".tar.xz"@)
        || text::has_suffix(name, ".tar.bz2"@) || text::has_suffix(name, ".tgz"@) {
        Format::Tar
    } else if text::has_suffix(name, ".zip"@) {
        Format::Zip
    } else if text::has_suffix(unicode::lowercase(name), ".appimage"@) {
        Format::AppImage
    } else {
        Format::Raw
    }
}

/// The points for the form.
pub open spec fn format_points(format: Format) -> int {
    match format {
        Format::Package => SCORE_FORMAT_REJECT as int,
        Format::Tar => SCORE_FORMAT_TAR as int,
        Format::Zip => SCORE_FORMAT_ZIP as int,
        Format::AppImage => SCORE_FORMAT_APPIMG as int,
        Format::Raw => SCORE_FORMAT_RAW as int,
    }
}

/// All points of an asset by its name.
pub open spec fn total_of(asset_name: Seq<char>, arch_raw: Seq<char>) -> int {
    let name = unicode::lowercase(asset_name);
    arch_points(name, canonical_of(arch_raw)) + linux_points(name) + libc_points(name)
        + format_points(format_of(name))
}

/// The score of an asset by its name.
pub open spec fn score_of(asset_name: Seq<char>, arch_raw: Seq<char>) -> AssetScore {
    AssetScore {
        arch_match: arch_match_of(unicode::lowercase(asset_name), canonical_of(arch_raw)),
        total: total_of(asset_name, arch_raw) as i32,
    }
}

/// The asset with its score.
pub open spec fn scored(a: Asset, arch_raw: Seq<char>) -> ScoredAsset {
    ScoredAsset { asset: a, score: score_of(a.name@, arch_raw) }
}

/// The assets with their scores, without those that have no points.
pub open spec fn contenders(assets: Seq<Asset>, arch_raw: Seq<char>) -> Seq<ScoredAsset> {
    assets.map_values(|a: Asset| scored(a, arch_raw)).filter(|s: ScoredAsset| s.score.total > 0)
}

/// Where an asset goes in a ranking: behind all that have at least its points.
pub open spec fn rank_position(ranking: Seq<ScoredAsset>, total: i32) -> int
    decreases ranking.len(),
{
    if ranking.len() == 0 || ranking.last().score.total >= total {
        ranking.len() as int
    } else {
        rank_position(ranking.drop_last(), total)
    }
}

/// The list from the most to the fewest points; those with the same points keep their order.
pub open spec fn ranked(list: Seq<ScoredAsset>) -> Seq<ScoredAsset>
    decreases list.len(),
{
    if list.len() == 0 {
        list
    } else {
        let front = ranked(list.drop_last());
        front.insert(rank_position(front, list.last().score.total), list.last())
    }
}

/// The names of the architecture that has this canonical name.
pub fn arch_synonyms_for(canonical: &str) -> (r: Vec<&'static str>)
    ensures
        text::texts(r@) == arch_terms(canonical@),
{
    let r: Vec<&'static str> = if text::same_text(canonical, "x86_64") {
        vec!["x86_64", "amd64", "x64", "amd_64"]
    } else if text::same_text(canonical, "aarch64") {
        vec!["aarch64", "arm64"]
    } else if text::same_text(canonical, "armv7") {
        vec!["armv7", "armhf", "arm"]
    } else if text::same_text(canonical, "i686") {
        vec!["i686", "i386", "x86", "386"]
    } else {
        Vec::new()
    };
    assert(text::texts(r@) =~= arch_terms(canonical@));
    r
}

/// The names of `arch`, put behind `out` unless `arch` is the architecture of the machine.
fn push_terms_unless(out: &mut Vec<&'static str>, arch: &'static str, canonical: &str)
    ensures
        text::texts(final(out)@) == text::texts(old(out)@) + terms_unless(arch@, canonical@),
{
    if text::same_text(arch, canonical) {
        assert(text::texts(out@) =~= text::texts(old(out)@) + terms_unless(arch@, canonical@));
        return;
    }
    let more = arch_synonyms_for(arch);
    for i in 0..more.len()
        invariant
            text::texts(more@) == arch_terms(arch@),
            text::texts(out@) == text::texts(old(out)@) + arch_terms(arch@).take(i as int),
    {
        let ghost before = text::texts(out@);
        out.push(more[i]);
        proof {
            assert(text::texts(out@) =~= before.push(more@[i as int]@));
            assert(text::texts(more@)[i as int] == more@[i as int]@);
            assert(text::texts(out@) =~= text::texts(old(out)@) + arch_terms(arch@).take(i + 1));
        }
    }
    assert(arch_terms(arch@).take(more@.len() as int) =~= arch_terms(arch@));
}

/// All names of the other architectures than the machine's.
pub fn foreign_arch_terms(user_canonical: &str) -> (r: Vec<&'static str>)
    ensures
        text::texts(r@) == foreign_terms(user_canonical@),
{
    let mut out: Vec<&'static str> = Vec::new();
    assert(text::texts(out@) =~= Seq::<Seq<char>>::empty());
    push_terms_unless(&mut out, "x86_64", user_canonical);
    push_terms_unless(&mut out, "aarch64", user_canonical);
    push_terms_unless(&mut out, "armv7", user_canonical);
    push_terms_unless(&mut out, "i686", user_canonical);
    assert(text::texts(out@) =~= foreign_terms(user_canonical@));
    out
}

/// The architecture of the machine, from what `uname -m` printed, or from the one that the program
/// was built for if that is not known: trimmed, in lower case.
pub fn detect_arch(uname: Option<&str>, built_for: &str) -> (r: String)
    ensures
        r@ == match uname {
            Some(t) => unicode::lowercase(text::trim_both(t@, CharClass::White)),
            None => unicode::lowercase(built_for@),
        },
{
    match uname {
        Some(t) => unicode::to_lowercase(text::trim(t, CharClass::White)),
        None => unicode::to_lowercase(built_for),
    }
}

/// The canonical name of the architecture that a machine reports; `x86_64` if it is unknown.
pub fn canonical_arch(raw: &str) -> (r: &'static str)
    ensures
        r@ == canonical_of(raw@),
{
    let arch = unicode::to_lowercase(text::trim(raw, CharClass::White));
    let arch = arch.as_str();
    let x86_64 = arch_synonyms_for("x86_64");
    let aarch64 = arch_synonyms_for("aarch64");
    let armv7 = arch_synonyms_for("armv7");
    let i686 = arch_synonyms_for("i686");
    if text::is_one_of(arch, x86_64.as_slice()) {
        "x86_64"
    } else if text::is_one_of(arch, aarch64.as_slice()) {
        "aarch64"
    } else if text::is_one_of(arch, armv7.as_slice()) {
        "armv7"
    } else if text::is_one_of(arch, i686.as_slice()) {
        "i686"
    } else {
        "x86_64"
    }
}

/// The form that a name in lower case tells by its ending.
pub fn asset_format(name: &str) -> (r: Format)
    ensures
        r == format_of(name@),
{
    if text::ends_with(name, ".deb") || text::ends_with(name, ".rpm") {
        Format::Package
    } else if text::ends_with(name, ".tar.gz") || text::ends_with(name, ".tar.xz")
        || text::ends_with(name, ".tar.bz2") || text::ends_with(name, ".tgz") {
        Format::Tar
    } else if text::ends_with(name, ".zip") {
        Format::Zip
    } else if text::ends_with(unicode::to_lowercase(name).as_str(), ".appimage") {
        Format::AppImage
    } else {
        Format::Raw
    }
}

/// Score an asset by its name for the architecture that the machine reports.
pub fn score_asset(asset: &Asset, user_arch_raw: &str) -> (r: AssetScore)
    ensures
        r == score_of(asset.name@, user_arch_raw@),
        r.total == total_of(asset.name@, user_arch_raw@),
{
    let name = unicode::to_lowercase(asset.name.as_str());
    let name = name.as_str();
    let user_canonical = canonical_arch(user_arch_raw);
    let user_syns = arch_synonyms_for(user_canonical);
    let foreign = foreign_arch_terms(user_canonical);
    let mut total: i32 = 0;
    let arch_match = if text::contains_any(name, user_syns.as_slice()) {
        if text::contains(name, user_canonical) {
            total += SCORE_ARCH_EXACT;
            ArchMatch::Exact
        } else {
            total += SCORE_ARCH_SYNONYM;
            ArchMatch::Synonym
        }
    } else if text::contains_any(name, foreign.as_slice()) {
        // Names another architecture.
        total += SCORE_FORMAT_REJECT;
        ArchMatch::Missing
    } else {
        ArchMatch::Missing
    };
    if text::contains(name, "linux") {
        total += SCORE_LINUX_KEYWORD;
    }
    if text::contains(name, "gnu") || text::contains(name, "glibc") {
        total += SCORE_GNU;
    } else if text::contains(name, "musl") || text::contains(name, "static") {
        total += SCORE_MUSL;
    }
    match asset_format(name) {
        Format::Package => {
            total += SCORE_FORMAT_REJECT;
        },
        Format::Tar => {
            total += SCORE_FORMAT_TAR;
        },
        Format::Zip => {
            total += SCORE_FORMAT_ZIP;
        },
        Format::AppImage => {
            total += SCORE_FORMAT_APPIMG;
        },
        Format::Raw => {
            total += SCORE_FORMAT_RAW;
        },
    }
    AssetScore { arch_match, total }
}

pub proof fn lemma_rank_position(ranking: Seq<ScoredAsset>, total: i32)
    ensures
        0 <= rank_position(ranking, total) <= ranking.len(),
        forall|j: int|
            rank_position(ranking, total) <= j < ranking.len() ==> (
            #[trigger] ranking[j]).score.total < total,
        rank_position(ranking, total) > 0 ==> ranking[rank_position(ranking, total)
            - 1].score.total >= total,
    decreases ranking.len(),
{
    if ranking.len() > 0 && ranking.last().score.total < total {
        lemma_rank_position(ranking.drop_last(), total);
        assert forall|j: int| rank_position(ranking, total) <= j < ranking.len() implies (
        #[trigger] ranking[j]).score.total < total by {
            if j < ranking.len() - 1 {
                assert(ranking[j] == ranking.drop_last()[j]);
            }
        }
    }
}

proof fn lemma_rank_position_is(ranking: Seq<ScoredAsset>, total: i32, p: int)
    requires
        0 <= p <= ranking.len(),
        forall|j: int| p <= j < ranking.len() ==> (#[trigger] ranking[j]).score.total < total,
        p > 0 ==> ranking[p - 1].score.total >= total,
    ensures
        rank_position(ranking, total) == p,
{
    lemma_rank_position(ranking, total);
    let q = rank_position(ranking, total);
    if p < q {
        assert(ranking[q - 1].score.total < total);
    } else if q < p {
        assert(ranking[p - 1].score.total < total);
    }
}

/// Put an asset into a ranking, behind all that have at least its points.
fn insert_ranked(ranking: &mut Vec<ScoredAsset>, item: ScoredAsset)
    ensures
        final(ranking)@ == old(ranking)@.insert(
            rank_position(old(ranking)@, item.score.total),
            item,
        ),
{
    let mut p: usize = ranking.len();
    while p > 0 && ranking[p - 1].score.total < item.score.total
        invariant
            p <= ranking@.len(),
            forall|j: int|
                p <= j < ranking@.len() ==> (#[trigger] ranking@[j]).score.total
                    < item.score.total,
        decreases p,
    {
        p -= 1;
    }
    proof {
        lemma_rank_position_is(ranking@, item.score.total, p as int);
    }
    ranking.insert(p, item);
}

/// Score assets that passed the filters and rank them, best first. Those with no points, as for
/// another architecture or in the form of a package, are left out.
pub fn score_and_rank(assets: Vec<Asset>, user_arch: &str) -> (r: Vec<ScoredAsset>)
    ensures
        r@ == ranked(contenders(assets@, user_arch@)),
{
    let mut out: Vec<ScoredAsset> = Vec::new();
    proof {
        assert(assets@.take(0).map_values(|a: Asset| scored(a, user_arch@)) =~= Seq::empty());
        reveal(Seq::filter);
    }
    for i in 0..assets.len()
        invariant
            out@ == ranked(contenders(assets@.take(i as int), user_arch@)),
    {
        let ghost f = |a: Asset| scored(a, user_arch@);
        proof {
            reveal(Seq::filter);
            let now = assets@.take(i as int).map_values(f);
            let next = assets@.take(i + 1).map_values(f);
            assert(next.drop_last() =~= now);
            assert(next.last() == f(assets@[i as int]));
            let list = contenders(assets@.take(i as int), user_arch@);
            assert(list.push(next.last()).drop_last() =~= list);
        }
        let score = score_asset(&assets[i], user_arch);
        if score.total > 0 {
            insert_ranked(&mut out, ScoredAsset { asset: assets[i].clone(), score });
        }
    }
    proof {
        assert(assets@.take(assets@.len() as int) =~= assets@);
    }
    out
}

// ---- Laws -----------------------------------------------------------------------------------

/// Of two assets that differ only in how they name the architecture, the one that names it exactly
/// has more points than the one that uses a synonym, and that one more than one that names none;
/// and the first lead alone is too short to choose without asking.
pub proof fn law_exact_arch_is_preferred(
    exact: Seq<char>,
    synonym: Seq<char>,
    unnamed: Seq<char>,
    arch: Seq<char>,
)
    requires
        ({
            let (e, s, u) = (
                unicode::lowercase(exact),
                unicode::lowercase(synonym),
                unicode::lowercase(unnamed),
            );
            let c = canonical_of(arch);
            &&& arch_match_of(e, c) == ArchMatch::Exact
            &&& arch_match_of(s, c) == ArchMatch::Synonym
            &&& arch_match_of(u, c) == ArchMatch::Missing
            &&& linux_points(e) == linux_points(s) == linux_points(u)
            &&& libc_points(e) == libc_points(s) == libc_points(u)
            &&& format_of(e) == format_of(s) && format_of(s) == format_of(u)
        }),
    ensures
        total_of(exact, arch) > total_of(synonym, arch) > total_of(unnamed, arch),
        total_of(exact, arch) - total_of(synonym, arch) < CONFIDENCE_THRESHOLD,
{
}

/// Of two assets that differ only in the C library, the one for the GNU library has more points
/// than the one for musl; and that lead alone is too short to choose without asking.
pub proof fn law_gnu_is_preferred(gnu: Seq<char>, musl: Seq<char>, arch: Seq<char>)
    requires
        ({
            let (g, m) = (unicode::lowercase(gnu), unicode::lowercase(musl));
            let c = canonical_of(arch);
            &&& names_gnu(g)
            &&& !names_gnu(m) && names_musl(m)
            &&& arch_points(g, c) == arch_points(m, c)
            &&& linux_points(g) == linux_points(m)
            &&& format_of(g) == format_of(m)
        }),
    ensures
        total_of(gnu, arch) > total_of(musl, arch),
        total_of(gnu, arch) - total_of(musl, arch) < CONFIDENCE_THRESHOLD,
{
}

/// Of two assets that differ only in naming Linux, the one that does has more points.
pub proof fn law_linux_is_preferred(with: Seq<char>, without: Seq<char>, arch: Seq<char>)
    requires
        ({
            let (w, o) = (unicode::lowercase(with), unicode::lowercase(without));
            let c = canonical_of(arch);
            &&& text::has_part(w, "linux"@)
            &&& !text::has_part(o, "linux"@)
            &&& arch_points(w, c) == arch_points(o, c)
            &&& libc_points(w) == libc_points(o)
            &&& format_of(w) == format_of(o)
        }),
    ensures
        total_of(with, arch) > total_of(without, arch),
{
}

/// The place of a form in the order of preference: bare binary, tar, zip, AppImage, package.
pub open spec fn format_rank(format: Format) -> int {
    match format {
        Format::Raw => 0,
        Format::Tar => 1,
        Format::Zip => 2,
        Format::AppImage => 3,
        Format::Package => 4,
    }
}

/// Of two assets that differ only in their form, the preferred form has more points.
pub proof fn law_form_is_preferred(better: Seq<char>, worse: Seq<char>, arch: Seq<char>)
    requires
        ({
            let (b, w) = (unicode::lowercase(better), unicode::lowercase(worse));
            let c = canonical_of(arch);
            &&& format_rank(format_of(b)) < format_rank(format_of(w))
            &&& arch_points(b, c) == arch_points(w, c)
            &&& linux_points(b) == linux_points(w)
            &&& libc_points(b) == libc_points(w)
        }),
    ensures
        total_of(better, arch) > total_of(worse, arch),
{
}

/// An asset that names only another architecture, and one that is a package of a distribution, has
/// negative points, whatever else its name holds: it is never ranked.
pub proof fn law_foreign_and_packages_are_rejected(name: Seq<char>, arch: Seq<char>)
    requires
        ({
            let lower = unicode::lowercase(name);
            let c = canonical_of(arch);
            ||| format_of(lower) == Format::Package
            ||| (arch_match_of(lower, c) == ArchMatch::Missing && text::has_any_part(
                lower,
                foreign_terms(c),
            ))
        }),
    ensures
        total_of(name, arch) < 0,
{
}

/// The points never leave the range of the integers that hold them.
pub proof fn law_points_fit(name: Seq<char>, arch: Seq<char>)
    ensures
        score_of(name, arch).total == total_of(name, arch),
{
}

/// A ranking goes from the most to the fewest points.
pub proof fn law_ranking_is_sorted(list: Seq<ScoredAsset>)
    ensures
        forall|i: int, j: int|
            0 <= i <= j < ranked(list).len() ==> (#[trigger] ranked(list)[i]).score.total >= (
            #[trigger] ranked(list)[j]).score.total,
    decreases list.len(),
{
    if list.len() > 0 {
        law_ranking_is_sorted(list.drop_last());
        let front = ranked(list.drop_last());
        let total = list.last().score.total;
        let p = rank_position(front, total);
        lemma_rank_position(front, total);
        let all = ranked(list);
        assert(all == front.insert(p, list.last()));
        assert forall|i: int, j: int| 0 <= i <= j < all.len() implies (
        #[trigger] all[i]).score.total >= (#[trigger] all[j]).score.total by {
            let a = if i < p { i } else { i - 1 };
            let b = if j < p { j } else { j - 1 };
            if i != p && j != p {
                assert(front[a].score.total >= front[b].score.total);
            } else if i == p && j != p {
                assert(front[b].score.total < total);
            } else if j == p && i != p {
                assert(front[a].score.total >= front[p - 1].score.total);
            }
        }
    }
}

/// A ranking holds exactly the assets that were ranked.
pub proof fn law_ranking_keeps_the_assets(list: Seq<ScoredAsset>)
    ensures
        ranked(list).to_multiset() == list.to_multiset(),
    decreases list.len(),
{
    broadcast use vstd::seq_lib::group_to_multiset_ensures;

    if list.len() > 0 {
        law_ranking_keeps_the_assets(list.drop_last());
        let front = ranked(list.drop_last());
        let p = rank_position(front, list.last().score.total);
        lemma_rank_position(front, list.last().score.total);
        front.insert_ensures(p, list.last());
        assert(list =~= list.drop_last().push(list.last()));
        assert(ranked(list).to_multiset() =~= front.to_multiset().insert(list.last()));
    }
}

/// Assets with the same points keep their order in a ranking.
pub proof fn law_ranking_is_stable(list: Seq<ScoredAsset>, total: i32)
    ensures
        ranked(list).filter(|s: ScoredAsset| s.score.total == total) == list.filter(
            |s: ScoredAsset| s.score.total == total,
        ),
    decreases list.len(),
{
    reveal(Seq::filter);
    if list.len() > 0 {
        let same = |s: ScoredAsset| s.score.total == total;
        law_ranking_is_stable(list.drop_last(), total);
        let front = ranked(list.drop_last());
        let x = list.last();
        let p = rank_position(front, x.score.total);
        lemma_rank_position(front, x.score.total);
        let (a, b) = (front.take(p), front.skip(p));
        assert(front =~= a + b);
        assert(ranked(list) =~= a.push(x) + b);
        Seq::filter_distributes_over_add(a, b, same);
        Seq::filter_distributes_over_add(a.push(x), b, same);
        assert(a.push(x).drop_last() =~= a);
        if same(x) {
            assert forall|i: int| 0 <= i < b.len() implies !same(#[trigger] b[i]) by {
                assert(front[p + i].score.total < x.score.total);
            }
            lemma_filter_nothing(b, same);
            assert(ranked(list).filter(same) =~= front.filter(same).push(x));
        }
    }
}

/// Filtering by a condition that no element meets leaves nothing.
proof fn lemma_filter_nothing(s: Seq<ScoredAsset>, f: spec_fn(ScoredAsset) -> bool)
    requires
        forall|i: int| 0 <= i < s.len() ==> !f(#[trigger] s[i]),
    ensures
        s.filter(f) == Seq::<ScoredAsset>::empty(),
    decreases s.len(),
{
    reveal(Seq::filter);
    if s.len() > 0 {
        assert(!f(s[s.len() - 1]));
        assert forall|i: int| 0 <= i < s.drop_last().len() implies !f(
            #[trigger] s.drop_last()[i],
        ) by {
            assert(!f(s[i]));
        }
        lemma_filter_nothing(s.drop_last(), f);
    }
}

} // verus!
