//! Checksums: where a release publishes them, what they say, and whether they hold.

use vstd::prelude::*;

use crate::decimal;
use crate::error::GhrError;
use crate::github::types::Asset;
use crate::installer::digest;
use crate::paths;
use crate::text;
use crate::text::CharClass;
use crate::unicode;

verus! {

/// A checksum algorithm to verify against.
#[derive(Clone, Copy, Debug, PartialEq, Eq, Structural)]
pub enum ChecksumAlgo {
    Sha224,
    Sha256,
    Sha384,
    Sha512,
}

/// The algorithm whose digests have this many hexadecimal digits.
pub open spec fn algo_of_len(len: int) -> Option<ChecksumAlgo> {
    if len == 56 {
        Some(ChecksumAlgo::Sha224)
    } else if len == 64 {
        Some(ChecksumAlgo::Sha256)
    } else if len == 96 {
        Some(ChecksumAlgo::Sha384)
    } else if len == 128 {
        Some(ChecksumAlgo::Sha512)
    } else {
        None
    }
}

impl ChecksumAlgo {
    /// The name of the algorithm.
    pub open spec fn name(self) -> Seq<char> {
        match self {
            ChecksumAlgo::Sha224 => "sha224"@,
            ChecksumAlgo::Sha256 => "sha256"@,
            ChecksumAlgo::Sha384 => "sha384"@,
            ChecksumAlgo::Sha512 => "sha512"@,
        }
    }

    /// The digest of some bytes.
    pub open spec fn digest(self, bytes: Seq<u8>) -> Seq<u8> {
        match self {
            ChecksumAlgo::Sha224 => digest::sha224(bytes),
            ChecksumAlgo::Sha256 => digest::sha256(bytes),
            ChecksumAlgo::Sha384 => digest::sha384(bytes),
            ChecksumAlgo::Sha512 => digest::sha512(bytes),
        }
    }

    /// The digest of some bytes in hexadecimal.
    pub open spec fn hex(self, bytes: Seq<u8>) -> Seq<char> {
        digest::hex_text(self.digest(bytes))
    }

    /// The algorithm whose digests have `len` hexadecimal digits, if there is one.
    pub fn from_hex_len(len: usize) -> (r: Option<Self>)
        ensures
            r == algo_of_len(len as int),
    {
        match len {
            56 => Some(ChecksumAlgo::Sha224),
            64 => Some(ChecksumAlgo::Sha256),
            96 => Some(ChecksumAlgo::Sha384),
            128 => Some(ChecksumAlgo::Sha512),
            _ => None,
        }
    }

    /// The name of the algorithm.
    pub fn label(self) -> (r: &'static str)
        ensures
            r@ == self.name(),
    {
        match self {
            ChecksumAlgo::Sha224 => "sha224",
            ChecksumAlgo::Sha256 => "sha256",
            ChecksumAlgo::Sha384 => "sha384",
            ChecksumAlgo::Sha512 => "sha512",
        }
    }

    /// The digest of `bytes` in hexadecimal. Its length tells the algorithm.
    pub fn digest_hex(self, bytes: &[u8]) -> (r: String)
        ensures
            r@ == self.hex(bytes@),
            algo_of_len(r@.len() as int) == Some(self),
    {
        match self {
            ChecksumAlgo::Sha224 => digest::hex_encode(digest::sha224_of(bytes).as_slice()),
            ChecksumAlgo::Sha256 => digest::hex_encode(digest::sha256_of(bytes).as_slice()),
            ChecksumAlgo::Sha384 => digest::hex_encode(digest::sha384_of(bytes).as_slice()),
            ChecksumAlgo::Sha512 => digest::hex_encode(digest::sha512_of(bytes).as_slice()),
        }
    }
}

/// A hexadecimal digit.
pub open spec fn is_hex(c: char) -> bool {
    ('0' <= c && c <= '9') || ('a' <= c && c <= 'f') || ('A' <= c && c <= 'F')
}

/// The algorithm of a digest in hexadecimal.
pub open spec fn algo_of_digest(s: Seq<char>) -> Option<ChecksumAlgo> {
    if forall|i: int| 0 <= i < s.len() ==> is_hex(#[trigger] s[i]) {
        algo_of_len(s.len() as int)
    } else {
        None
    }
}

/// The algorithm of `s`, if it is a digest in hexadecimal of a known length.
pub fn digest_algo(s: &str) -> (r: Option<ChecksumAlgo>)
    ensures
        r == algo_of_digest(s@),
{
    let v = text::chars_of(s);
    for i in 0..v.len()
        invariant
            v@ == s@,
            forall|j: int| 0 <= j < i ==> is_hex(#[trigger] s@[j]),
    {
        let c = v[i];
        if !(('0' <= c && c <= '9') || ('a' <= c && c <= 'f') || ('A' <= c && c <= 'F')) {
            assert(!is_hex(s@[i as int]));
            return None;
        }
    }
    ChecksumAlgo::from_hex_len(v.len())
}

// ---- Finding the checksum file ------------------------------------------------------------------

/// Endings of a file that holds the checksum of one asset.
pub open spec fn sidecar_extensions() -> Seq<Seq<char>> {
    seq![
        "sha256"@,
        "sha512"@,
        "sha384"@,
        "sha224"@,
        "sha2"@,
        "sha"@,
        "digest"@,
        "checksum"@,
    ]
}

/// A file for the checksum of one asset: the name of the asset, a dot, and one of the endings, in
/// any letter case.
pub open spec fn sidecar_name(name: Seq<char>, target: Seq<char>) -> bool {
    let n = unicode::lowercase(name);
    let t = unicode::lowercase(target);
    &&& text::has_prefix(n, t)
    &&& n.len() > t.len()
    &&& n[t.len() as int] == '.'
    &&& sidecar_extensions().contains(n.skip(t.len() as int + 1))
}

/// The text without `.txt` at its end.
pub open spec fn without_txt(s: Seq<char>) -> Seq<char> {
    if text::has_suffix(s, ".txt"@) {
        s.take(s.len() - ".txt"@.len())
    } else {
        s
    }
}

/// A file for the checksums of a whole release.
pub open spec fn generic_name(name: Seq<char>) -> bool {
    let stem = without_txt(unicode::lowercase(name));
    ||| stem == "checksums"@
    ||| stem == "checksum"@
    ||| text::has_prefix(stem, "checksums."@)
    ||| text::has_prefix(stem, "checksum."@)
    ||| text::has_prefix(stem, "sha"@) && (text::has_suffix(stem, "sum"@) || text::has_suffix(
        stem,
        "sums"@,
    ))
}

/// The asset `i` is the first that holds the checksum of `target` alone or, where there is none of
/// these, the first that holds the checksums of the release.
pub open spec fn is_checksum_choice(assets: Seq<Asset>, target: Seq<char>, i: int) -> bool {
    &&& 0 <= i < assets.len()
    &&& if exists|j: int| 0 <= j < assets.len() && sidecar_name((#[trigger] assets[j]).name@, target) {
        &&& sidecar_name(assets[i].name@, target)
        &&& forall|j: int| 0 <= j < i ==> !sidecar_name((#[trigger] assets[j]).name@, target)
    } else {
        &&& generic_name(assets[i].name@)
        &&& forall|j: int| 0 <= j < i ==> !generic_name((#[trigger] assets[j]).name@)
    }
}

/// No asset holds a checksum of `target`.
pub open spec fn none_published(assets: Seq<Asset>, target: Seq<char>) -> bool {
    forall|i: int|
        0 <= i < assets.len() ==> !sidecar_name((#[trigger] assets[i]).name@, target)
            && !generic_name(assets[i].name@)
}

/// Whether `name` is that of a file for the checksum of `target` alone.
pub fn is_sidecar(name: &str, target: &str) -> (r: bool)
    ensures
        r == sidecar_name(name@, target@),
{
    let n_text = unicode::to_lowercase(name);
    let t_text = unicode::to_lowercase(target);
    let n = text::chars_of(n_text.as_str());
    let t = text::chars_of(t_text.as_str());
    if !text::part_at(n.as_slice(), t.as_slice(), 0) {
        return false;
    }
    if n.len() <= t.len() || n[t.len()] != '.' {
        return false;
    }
    let extensions: [&str; 8] = [
        "sha256",
        "sha512",
        "sha384",
        "sha224",
        "sha2",
        "sha",
        "digest",
        "checksum",
    ];
    let ext = n_text.as_str().substring_char(t.len() + 1, n.len());
    proof {
        assert(text::texts(extensions@) =~= sidecar_extensions());
        assert(ext@ =~= n_text@.skip(t_text@.len() as int + 1));
    }
    text::is_one_of(ext, &extensions)
}

/// Whether `name` is that of a file for the checksums of a release: `checksums.txt`,
/// `SHA256SUMS`, `sha512sum.txt`, `checksums.sha256` and the like.
pub fn is_generic_checksums_file(name: &str) -> (r: bool)
    ensures
        r == generic_name(name@),
{
    let lower_text = unicode::to_lowercase(name);
    let lower = lower_text.as_str();
    let stem = if text::ends_with(lower, ".txt") {
        let n = lower.unicode_len();
        let cut = ".txt".unicode_len();
        proof {
            assert(lower@.subrange(0, lower@.len() - ".txt"@.len()) =~= lower@.take(
                lower@.len() - ".txt"@.len(),
            ));
        }
        lower.substring_char(0, n - cut)
    } else {
        lower
    };
    text::same_text(stem, "checksums") || text::same_text(stem, "checksum") || text::starts_with(
        stem,
        "checksums.",
    ) || text::starts_with(stem, "checksum.") || (text::starts_with(stem, "sha") && (
    text::ends_with(stem, "sum") || text::ends_with(stem, "sums")))
}

/// Find the asset that holds the checksum of `target_name`.
///
/// A file for this asset alone is preferred over one for the whole release: no other line of it
/// can be taken for the asset's.
pub fn find_checksum_asset<'a>(target_name: &str, all_assets: &'a [Asset]) -> (r: Option<
    &'a Asset,
>)
    ensures
        r matches Some(a) ==> exists|i: int|
            is_checksum_choice(all_assets@, target_name@, i) && *a == all_assets@[i],
        r is None <==> forall|i: int|
            0 <= i < all_assets@.len() ==> !sidecar_name(
                (#[trigger] all_assets@[i]).name@,
                target_name@,
            ) && !generic_name(all_assets@[i].name@),
        r is None ==> none_published(all_assets@, target_name@),
{
    for i in 0..all_assets.len()
        invariant
            forall|j: int|
                0 <= j < i ==> !sidecar_name((#[trigger] all_assets@[j]).name@, target_name@),
    {
        if is_sidecar(all_assets[i].name.as_str(), target_name) {
            assert(sidecar_name(all_assets@[i as int].name@, target_name@));
            assert(is_checksum_choice(all_assets@, target_name@, i as int));
            return Some(&all_assets[i]);
        }
    }
    for i in 0..all_assets.len()
        invariant
            forall|j: int|
                0 <= j < all_assets@.len() ==> !sidecar_name(
                    (#[trigger] all_assets@[j]).name@,
                    target_name@,
                ),
            forall|j: int| 0 <= j < i ==> !generic_name((#[trigger] all_assets@[j]).name@),
    {
        if is_generic_checksums_file(all_assets[i].name.as_str()) {
            assert(generic_name(all_assets@[i as int].name@));
            assert(is_checksum_choice(all_assets@, target_name@, i as int));
            return Some(&all_assets[i]);
        }
    }
    None
}

// ---- Reading the checksum file ------------------------------------------------------------------

/// The name that a line gives: its last component, or all of it where that is none.
pub open spec fn base_name(rest: Seq<char>) -> Seq<char> {
    match paths::file_name_of(rest) {
        Some(n) => n,
        None => rest,
    }
}

/// The file name part of a line: what follows the hash, without white space and stars before it.
pub open spec fn listed_name(rest: Seq<char>) -> Seq<char> {
    text::trim_front(text::trim_front(rest, CharClass::White), CharClass::Only('*'))
}

/// The hash that a line gives for a file, whose name is in lower case. A line gives none if it is
/// empty or a comment. A line of one word gives that word if it is a digest. Any other line gives
/// its first word if the rest of it names the file.
pub open spec fn line_hash(raw_line: Seq<char>, lower_filename: Seq<char>) -> Option<Seq<char>> {
    let line = text::trim_both(raw_line, CharClass::White);
    let k = text::find_first(line, CharClass::White);
    if line.len() == 0 || line[0] == '#' {
        None
    } else if k == line.len() {
        if algo_of_digest(line) is Some {
            Some(unicode::lowercase(line))
        } else {
            None
        }
    } else if unicode::lowercase(base_name(listed_name(line.skip(k + 1)))) == lower_filename {
        Some(unicode::lowercase(line.take(k)))
    } else {
        None
    }
}

/// The hash that the first of the lines gives that gives one.
pub open spec fn first_hash(lines: Seq<Seq<char>>, lower_filename: Seq<char>) -> Option<Seq<char>>
    decreases lines.len(),
{
    if lines.len() == 0 {
        None
    } else {
        match line_hash(lines[0], lower_filename) {
            Some(h) => Some(h),
            None => first_hash(lines.drop_first(), lower_filename),
        }
    }
}

/// The hash that a checksum file gives for a file.
pub open spec fn listed_hash(content: Seq<char>, filename: Seq<char>) -> Option<Seq<char>> {
    first_hash(text::pieces(content, '\n'), unicode::lowercase(filename))
}

/// The hash that a line gives for a file, whose name is in lower case.
fn hash_in_line(raw_line: &str, lower_filename: &str) -> (r: Option<String>)
    ensures
        text::opt_string(r) == line_hash(raw_line@, lower_filename@),
{
    let line = text::trim(raw_line, CharClass::White);
    let v = text::chars_of(line);
    if v.len() == 0 || v[0] == '#' {
        return None;
    }
    let k = text::find_from(v.as_slice(), 0, CharClass::White);
    proof {
        assert(line@.skip(0) =~= line@);
    }
    if k == v.len() {
        if digest_algo(line).is_some() {
            return Some(unicode::to_lowercase(line));
        }
        return None;
    }
    let hash = line.substring_char(0, k);
    let rest = line.substring_char(k + 1, v.len());
    proof {
        assert(hash@ =~= line@.take(k as int));
        assert(rest@ =~= line@.skip(k as int + 1));
    }
    let rest = text::trim_start(
        text::trim_start(rest, CharClass::White),
        CharClass::Only('*'),
    );
    let base = match paths::file_name(rest) {
        Some(n) => n,
        None => rest,
    };
    let lower_base = unicode::to_lowercase(base);
    if text::same_text(lower_base.as_str(), lower_filename) {
        Some(unicode::to_lowercase(hash))
    } else {
        None
    }
}

/// The hash that a checksum file gives for `filename`, in lower case.
///
/// It reads both forms that are in use: a list of lines with a hash and a file name each, where
/// the name may hold spaces and a star before it is ignored; and a file with the bare hash.
pub fn parse_checksums(content: &str, filename: &str) -> (r: Option<String>)
    ensures
        text::opt_string(r) == listed_hash(content@, filename@),
{
    let lower = unicode::to_lowercase(filename);
    let lines = text::split(content, '\n');
    let ghost all = text::pieces(content@, '\n');
    proof {
        assert(all.skip(0) =~= all);
    }
    for i in 0..lines.len()
        invariant
            all == lines@.map_values(|t: String| t@),
            lower@ == unicode::lowercase(filename@),
            first_hash(all, lower@) == first_hash(all.skip(i as int), lower@),
            listed_hash(content@, filename@) == first_hash(all, lower@),
    {
        proof {
            assert(all.skip(i as int)[0] == lines@[i as int]@);
            assert(all.skip(i as int).drop_first() =~= all.skip(i + 1));
        }
        let found = hash_in_line(lines[i].as_str(), lower.as_str());
        if found.is_some() {
            return found;
        }
    }
    None
}

/// Nothing but white space splits a line, and its ends are not white space: trimming keeps it.
proof fn lemma_line_kept(hash: Seq<char>, gap: Seq<char>, name: Seq<char>)
    requires
        hash.len() > 0,
        name.len() > 0,
        !unicode::white_space(hash[0]),
        !unicode::white_space(name.last()),
    ensures
        text::trim_both(hash + gap + name, CharClass::White) == hash + gap + name,
{
    let line = hash + gap + name;
    assert(line[0] == hash[0]);
    assert(line.last() == name.last());
    text::lemma_trim_keeps(line, CharClass::White);
}

/// A line with a hash, two spaces or a space and a star, and the name of a file gives the hash for
/// that file.
pub proof fn law_listed_hash_is_read(hash: Seq<char>, star: bool, name: Seq<char>)
    requires
        hash.len() > 0,
        hash[0] != '#',
        forall|i: int| 0 <= i < hash.len() ==> !unicode::white_space(#[trigger] hash[i]),
        paths::plain_name(name),
        name[0] != '*',
        !unicode::white_space(name[0]),
        !unicode::white_space(name.last()),
    ensures
        line_hash(
            hash + seq![' ', if star { '*' } else { ' ' }] + name,
            unicode::lowercase(name),
        ) == Some(unicode::lowercase(hash)),
{
    let mark = if star {
        '*'
    } else {
        ' '
    };
    let gap = seq![' ', mark];
    let line = hash + gap + name;
    lemma_line_kept(hash, gap, name);
    let k = hash.len() as int;
    assert forall|j: int| 0 <= j < k implies !CharClass::White.includes(#[trigger] line[j]) by {
        assert(line[j] == hash[j]);
    }
    assert(line[k] == ' ');
    text::lemma_find_first_is(line, CharClass::White, k);
    assert(line.take(k) =~= hash);
    let rest = line.skip(k + 1);
    assert(rest =~= seq![mark] + name);
    assert(rest.skip(1) =~= name);
    assert(rest.skip(0) =~= rest);
    assert(name.skip(0) =~= name);
    if star {
        text::lemma_trim_front_is(rest, CharClass::White, 0);
        text::lemma_trim_front_is(rest, CharClass::Only('*'), 1);
    } else {
        text::lemma_trim_front_is(rest, CharClass::White, 1);
        text::lemma_trim_front_is(name, CharClass::Only('*'), 0);
    }
    assert(listed_name(rest) == name);
    text::lemma_behind_last_is(name, '/', 0);
}

/// A line that holds nothing but a digest gives that digest for every file.
pub proof fn law_bare_digest_is_read(digest: Seq<char>, lower_filename: Seq<char>)
    requires
        algo_of_digest(digest) is Some,
    ensures
        line_hash(digest, lower_filename) == Some(unicode::lowercase(digest)),
{
    assert(is_hex(digest[0]));
    assert(is_hex(digest.last()));
    text::lemma_trim_keeps(digest, CharClass::White);
    assert forall|j: int| 0 <= j < digest.len() implies !CharClass::White.includes(
        #[trigger] digest[j],
    ) by {
        assert(is_hex(digest[j]));
    }
    text::lemma_find_first_is(digest, CharClass::White, digest.len() as int);
}

/// The first line that gives a hash for the file decides.
pub proof fn law_first_listing_decides(lines: Seq<Seq<char>>, lower_filename: Seq<char>, i: int)
    requires
        0 <= i < lines.len(),
        forall|j: int| 0 <= j < i ==> line_hash(#[trigger] lines[j], lower_filename) is None,
        line_hash(lines[i], lower_filename) is Some,
    ensures
        first_hash(lines, lower_filename) == line_hash(lines[i], lower_filename),
    decreases i,
{
    if i > 0 {
        assert(line_hash(lines[0], lower_filename) is None);
        let rest = lines.drop_first();
        assert forall|j: int| 0 <= j < i - 1 implies line_hash(
            #[trigger] rest[j],
            lower_filename,
        ) is None by {
            assert(line_hash(lines[j + 1], lower_filename) is None);
        }
        law_first_listing_decides(rest, lower_filename, i - 1);
    }
}

/// A digest in lower case hexadecimal is in lower case.
pub proof fn law_digest_is_lower_case(bytes: Seq<u8>)
    ensures
        unicode::lowercase(digest::hex_text(bytes)) == digest::hex_text(bytes),
        forall|i: int| 0 <= i < 2 * bytes.len() ==> is_hex(#[trigger] digest::hex_text(bytes)[i]),
{
    let hex = digest::hex_text(bytes);
    assert forall|i: int| 0 <= i < hex.len() implies is_hex(#[trigger] hex[i]) && hex[i] <= '\x7f'
        && unicode::ascii_lower(hex[i]) == hex[i] by {
        let b = bytes[i / 2] as int;
        assert(0 <= b / 16 < 16 && 0 <= b % 16 < 16);
    }
    assert(hex.map_values(|c: char| unicode::ascii_lower(c)) =~= hex);
}

/// A checksum file with one line, a digest in hexadecimal and the name of a file, gives that digest
/// for the file.
pub proof fn law_published_digest_is_found(sum: Seq<u8>, name: Seq<char>)
    requires
        sum.len() > 0,
        paths::plain_name(name),
        !name.contains('\n'),
        name[0] != '*',
        !unicode::white_space(name[0]),
        !unicode::white_space(name.last()),
    ensures
        listed_hash(digest::hex_text(sum) + seq![' ', ' '] + name + seq!['\n'], name) == Some(
            digest::hex_text(sum),
        ),
{
    let hash = digest::hex_text(sum);
    let line = hash + seq![' ', ' '] + name;
    law_digest_is_lower_case(sum);
    assert forall|i: int| 0 <= i < hash.len() implies !unicode::white_space(#[trigger] hash[i]) by {
        assert(is_hex(hash[i]));
    }
    assert(is_hex(hash[0]));
    law_listed_hash_is_read(hash, false, name);
    assert forall|i: int| 0 <= i < line.len() implies line[i] != '\n' by {
        if i < hash.len() {
            assert(line[i] == hash[i]);
            assert(is_hex(hash[i]));
        } else if i >= hash.len() + 2 {
            assert(line[i] == name[i - hash.len() - 2]);
        }
    }
    text::lemma_one_piece(line, '\n');
    let content = line + seq!['\n'];
    assert(content.drop_last() =~= line);
    let lines = text::pieces(content, '\n');
    assert(lines =~= seq![line, Seq::empty()]);
    law_first_listing_decides(lines, unicode::lowercase(name), 0);
}

// ---- Verifying ---------------------------------------------------------------------------------------

/// The SHA-256 digest of the contents of a file, in hexadecimal: the fingerprint of a binary that
/// came without a checksum.
pub fn sha256_file(contents: &[u8]) -> (r: String)
    ensures
        r@ == ChecksumAlgo::Sha256.hex(contents@),
{
    ChecksumAlgo::Sha256.digest_hex(contents)
}

/// Why a downloaded asset was not verified.
#[derive(Debug)]
pub enum ChecksumError {
    /// The checksum file gives no hash for the asset.
    NotListed { asset: String, file: String },
    /// The hash has the length of no known digest.
    UnknownLength { asset: String, length: usize, file: String },
    /// The asset has another digest.
    Mismatch(GhrError),
}

impl ChecksumError {
    /// The text of an error.
    pub open spec fn text(self) -> Seq<char> {
        match self {
            ChecksumError::NotListed { asset, file } => "could not find a checksum for '"@ + asset@
                + "' in "@ + file@,
            ChecksumError::UnknownLength { asset, length, file } => "unrecognized checksum for '"@
                + asset@ + "': "@ + decimal::decimal(length as nat) + "-char digest in "@ + file@
                + " is not a known SHA-2 length"@,
            ChecksumError::Mismatch(e) => e.text(),
        }
    }

    /// The text to show for the error.
    pub fn message(&self) -> (r: String)
        ensures
            r@ == self.text(),
    {
        match self {
            ChecksumError::NotListed { asset, file } => {
                let mut s = "could not find a checksum for '".to_owned();
                s.append(asset.as_str());
                s.append("' in ");
                s.append(file.as_str());
                s
            },
            ChecksumError::UnknownLength { asset, length, file } => {
                let mut s = "unrecognized checksum for '".to_owned();
                s.append(asset.as_str());
                s.append("': ");
                s.append(decimal::to_decimal(*length as u64).as_str());
                s.append("-char digest in ");
                s.append(file.as_str());
                s.append(" is not a known SHA-2 length");
                s
            },
            ChecksumError::Mismatch(e) => e.message(),
        }
    }
}

/// How many bytes a text takes.
pub open spec fn byte_len(s: Seq<char>) -> usize {
    vstd::utf8::encode_utf8(s).len() as usize
}

/// The digest that a checksum file gives for an asset, if the asset has it.
pub open spec fn verified_digest(
    content: Seq<char>,
    bytes: Seq<u8>,
    asset_name: Seq<char>,
) -> Option<Seq<char>> {
    match listed_hash(content, asset_name) {
        None => None,
        Some(expected) => match algo_of_len(byte_len(expected) as int) {
            None => None,
            Some(algo) => if algo.hex(bytes) == expected {
                Some(expected)
            } else {
                None
            },
        },
    }
}

/// The error of an asset that is not verified.
pub open spec fn failure_is(
    content: Seq<char>,
    bytes: Seq<u8>,
    asset_name: Seq<char>,
    chk_name: Seq<char>,
    e: ChecksumError,
) -> bool {
    match listed_hash(content, asset_name) {
        None => e matches ChecksumError::NotListed { asset, file } && asset@ == asset_name && file@
            == chk_name,
        Some(expected) => match algo_of_len(byte_len(expected) as int) {
            None => e matches ChecksumError::UnknownLength { asset, length, file } && asset@
                == asset_name && length == byte_len(expected) && file@ == chk_name,
            Some(algo) => e matches ChecksumError::Mismatch(
                GhrError::ChecksumMismatch { filename, expected: listed, got },
            ) && filename@ == asset_name && listed@ == expected && got@ == algo.hex(bytes),
        },
    }
}

/// Verify the bytes of an asset against the checksum file of its release. The algorithm follows
/// from the length of the hash. Returns the digest that was verified.
pub fn verify_checksum(
    content: &str,
    bytes: &[u8],
    asset_name: &str,
    chk_asset_name: &str,
) -> (r: Result<String, ChecksumError>)
    ensures
        match (verified_digest(content@, bytes@, asset_name@)) {
            Some(digest) => r matches Ok(h) && h@ == digest,
            None => r matches Err(e) && failure_is(
                content@,
                bytes@,
                asset_name@,
                chk_asset_name@,
                e,
            ),
        },
{
    let expected = match parse_checksums(content, asset_name) {
        Some(e) => e,
        None => {
            return Err(
                ChecksumError::NotListed {
                    asset: asset_name.to_owned(),
                    file: chk_asset_name.to_owned(),
                },
            );
        },
    };
    let length = expected.as_str().len();
    let algo = match ChecksumAlgo::from_hex_len(length) {
        Some(a) => a,
        None => {
            return Err(
                ChecksumError::UnknownLength {
                    asset: asset_name.to_owned(),
                    length,
                    file: chk_asset_name.to_owned(),
                },
            );
        },
    };
    let got = algo.digest_hex(bytes);
    if !text::same_text(got.as_str(), expected.as_str()) {
        return Err(
            ChecksumError::Mismatch(
                GhrError::ChecksumMismatch { filename: asset_name.to_owned(), expected, got },
            ),
        );
    }
    Ok(got)
}

} // verus!
