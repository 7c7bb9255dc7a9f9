//! Whether a download is the one that the release publishes.

use vstd::prelude::*;

use crate::error::GhrError;
use crate::github::types::Asset;
use crate::installer::checksum;
use crate::installer::checksum::{ChecksumAlgo, ChecksumError};
use crate::installer::digest;
use crate::installer::{Downloaded, Published};
use crate::text;
use crate::text::CharClass;
use crate::unicode;

verus! {

/// The hash is the digest in hexadecimal of the bytes, under the algorithm that its length tells: 56
/// bytes for SHA-224, 64 for SHA-256, 96 for SHA-384, and 128 for SHA-512.
pub open spec fn is_digest_of(hash: Seq<char>, bytes: Seq<u8>) -> bool {
    let n = vstd::utf8::encode_utf8(hash).len() as usize;
    ||| n == 56 && hash == digest::hex_text(digest::sha224(bytes))
    ||| n == 64 && hash == digest::hex_text(digest::sha256(bytes))
    ||| n == 96 && hash == digest::hex_text(digest::sha384(bytes))
    ||| n == 128 && hash == digest::hex_text(digest::sha512(bytes))
}

/// The hash has the length of a digest that is known.
pub open spec fn has_known_length(hash: Seq<char>) -> bool {
    let n = vstd::utf8::encode_utf8(hash).len() as usize;
    n == 56 || n == 64 || n == 96 || n == 128
}

/// The digest of the bytes under the algorithm that the length of a hash tells.
pub open spec fn digest_by_length(got: Seq<char>, hash: Seq<char>, bytes: Seq<u8>) -> bool {
    let n = vstd::utf8::encode_utf8(hash).len() as usize;
    &&& n == 56 ==> got == digest::hex_text(digest::sha224(bytes))
    &&& n == 64 ==> got == digest::hex_text(digest::sha256(bytes))
    &&& n == 96 ==> got == digest::hex_text(digest::sha384(bytes))
    &&& n == 128 ==> got == digest::hex_text(digest::sha512(bytes))
}

/// Bytes are verified exactly if the checksum file lists for the asset a hash that is their digest,
/// which is then returned. Another digest of a known length is a mismatch, which names the asset, the
/// hash that is listed and the one that the bytes have; a hash of another length is not known; and
/// without a hash for the asset nothing is verified.
pub proof fn law_only_the_listed_bytes_are_verified(
    content: &str,
    bytes: &[u8],
    asset_name: &str,
    file: &str,
    r: Result<String, ChecksumError>,
)
    requires
        call_ensures(checksum::verify_checksum, (content, bytes, asset_name, file), r),
    ensures
        match checksum::listed_hash(content@, asset_name@) {
            None => r matches Err(ChecksumError::NotListed { asset: a, file: f }) && a@ == asset_name@
                && f@ == file@,
            Some(h) => if is_digest_of(h, bytes@) {
                r matches Ok(d) && d@ == h
            } else if has_known_length(h) {
                r matches Err(
                    ChecksumError::Mismatch(GhrError::ChecksumMismatch { filename, expected, got }),
                ) && filename@ == asset_name@ && expected@ == h && got@ != h && digest_by_length(
                    got@,
                    h,
                    bytes@,
                )
            } else {
                r matches Err(ChecksumError::UnknownLength { asset: a, length, file: f }) && a@
                    == asset_name@ && f@ == file@ && length == vstd::utf8::encode_utf8(h).len() as usize
            },
        },
{
}

/// If verification succeeds, the digest is that of the bytes, and the file lists it for the asset.
pub proof fn law_verified_digest_is_that_of_the_bytes(
    content: &str,
    bytes: &[u8],
    asset_name: &str,
    file: &str,
    r: Result<String, ChecksumError>,
    listed: Option<String>,
)
    requires
        call_ensures(checksum::verify_checksum, (content, bytes, asset_name, file), r),
        call_ensures(checksum::parse_checksums, (content, asset_name), listed),
    ensures
        r matches Ok(h) ==> is_digest_of(h@, bytes@) && (listed matches Some(l) && l@ == h@),
{
}

/// Two downloads that are verified against the same file, for the same asset, have the same digest
/// under one of the algorithms.
pub proof fn law_verified_downloads_agree(
    content: &str,
    bytes: &[u8],
    others: &[u8],
    asset_name: &str,
    file: &str,
    r: Result<String, ChecksumError>,
    q: Result<String, ChecksumError>,
)
    requires
        call_ensures(checksum::verify_checksum, (content, bytes, asset_name, file), r),
        call_ensures(checksum::verify_checksum, (content, others, asset_name, file), q),
        r is Ok,
        q is Ok,
    ensures
        r->Ok_0@ == q->Ok_0@,
        is_digest_of(r->Ok_0@, bytes@),
        is_digest_of(r->Ok_0@, others@),
{
}

/// The length of a hash tells its algorithm, and the digest of each algorithm is the one of its name.
pub proof fn law_algorithms_are_those_of_their_names(
    algo: ChecksumAlgo,
    bytes: &[u8],
    len: usize,
    by_len: Option<ChecksumAlgo>,
    hex: String,
    name: &'static str,
)
    requires
        call_ensures(ChecksumAlgo::from_hex_len, (len,), by_len),
        call_ensures(ChecksumAlgo::digest_hex, (algo, bytes), hex),
        call_ensures(ChecksumAlgo::label, (algo,), name),
    ensures
        by_len == Some(ChecksumAlgo::Sha224) <==> len == 56,
        by_len == Some(ChecksumAlgo::Sha256) <==> len == 64,
        by_len == Some(ChecksumAlgo::Sha384) <==> len == 96,
        by_len == Some(ChecksumAlgo::Sha512) <==> len == 128,
        algo == ChecksumAlgo::Sha224 ==> hex@ == digest::hex_text(digest::sha224(bytes@)) && hex@.len()
            == 56 && name@ == "sha224"@,
        algo == ChecksumAlgo::Sha256 ==> hex@ == digest::hex_text(digest::sha256(bytes@)) && hex@.len()
            == 64 && name@ == "sha256"@,
        algo == ChecksumAlgo::Sha384 ==> hex@ == digest::hex_text(digest::sha384(bytes@)) && hex@.len()
            == 96 && name@ == "sha384"@,
        algo == ChecksumAlgo::Sha512 ==> hex@ == digest::hex_text(digest::sha512(bytes@)) && hex@.len()
            == 128 && name@ == "sha512"@,
{
}

/// A digest in hexadecimal has two digits for each byte, which write its value.
pub proof fn law_hexadecimal_writes_the_bytes(bytes: Seq<u8>, i: int)
    requires
        0 <= i < bytes.len(),
    ensures
        digest::hex_text(bytes).len() == 2 * bytes.len(),
        hex_value(digest::hex_text(bytes)[2 * i]) * 16 + hex_value(digest::hex_text(bytes)[2 * i + 1])
            == bytes[i],
{
    let b = bytes[i] as int;
    assert((2 * i) / 2 == i && (2 * i + 1) / 2 == i && (2 * i) % 2 == 0 && (2 * i + 1) % 2 == 1);
    assert(0 <= b / 16 < 16 && 0 <= b % 16 < 16);
    assert(b == 16 * (b / 16) + b % 16);
}

/// The value of a small hexadecimal digit.
pub open spec fn hex_value(c: char) -> int {
    if '0' <= c && c <= '9' {
        c as int - '0' as int
    } else {
        c as int - 'a' as int + 10
    }
}

/// A text is a digest if it has only hexadecimal digits, in either letter case, and a known length.
pub proof fn law_digests_are_hexadecimal(s: &str, r: Option<ChecksumAlgo>)
    requires
        call_ensures(checksum::digest_algo, (s,), r),
    ensures
        r is Some <==> (s@.len() == 56 || s@.len() == 64 || s@.len() == 96 || s@.len() == 128)
            && forall|i: int|
            0 <= i < s@.len() ==> ('0' <= #[trigger] s@[i] && s@[i] <= '9') || ('a' <= s@[i] && s@[i]
                <= 'f') || ('A' <= s@[i] && s@[i] <= 'F'),
        r == Some(ChecksumAlgo::Sha512) ==> s@.len() == 128,
        r == Some(ChecksumAlgo::Sha384) ==> s@.len() == 96,
        r == Some(ChecksumAlgo::Sha256) ==> s@.len() == 64,
        r == Some(ChecksumAlgo::Sha224) ==> s@.len() == 56,
{
    if forall|i: int|
        0 <= i < s@.len() ==> ('0' <= #[trigger] s@[i] && s@[i] <= '9') || ('a' <= s@[i] && s@[i]
            <= 'f') || ('A' <= s@[i] && s@[i] <= 'F') {
        assert forall|i: int| 0 <= i < s@.len() implies checksum::is_hex(#[trigger] s@[i]) by {}
    } else {
        assert(exists|i: int| 0 <= i < s@.len() && !checksum::is_hex(#[trigger] s@[i]));
    }
}

// ---- Reading the file ---------------------------------------------------------------------------

/// The hash of a checksum file is that of the first line that gives one for the file; without such a
/// line there is none.
pub proof fn law_first_line_with_a_hash_counts(content: &str, filename: &str, r: Option<String>)
    requires
        call_ensures(checksum::parse_checksums, (content, filename), r),
    ensures
        ({
            let lines = text::pieces(content@, '\n');
            let lower = unicode::lowercase(filename@);
            match r {
                Some(h) => exists|i: int|
                    0 <= i < lines.len() && checksum::line_hash(#[trigger] lines[i], lower) == Some(h@)
                        && forall|j: int|
                        0 <= j < i ==> checksum::line_hash(#[trigger] lines[j], lower) is None,
                None => forall|j: int|
                    0 <= j < lines.len() ==> checksum::line_hash(#[trigger] lines[j], lower) is None,
            }
        }),
{
    lemma_first(text::pieces(content@, '\n'), unicode::lowercase(filename@));
}

proof fn lemma_first(lines: Seq<Seq<char>>, lower: Seq<char>)
    ensures
        match checksum::first_hash(lines, lower) {
            Some(h) => exists|i: int|
                0 <= i < lines.len() && checksum::line_hash(#[trigger] lines[i], lower) == Some(h)
                    && forall|j: int|
                    0 <= j < i ==> checksum::line_hash(#[trigger] lines[j], lower) is None,
            None => forall|j: int|
                0 <= j < lines.len() ==> checksum::line_hash(#[trigger] lines[j], lower) is None,
        },
    decreases lines.len(),
{
    if lines.len() > 0 {
        let more = lines.drop_first();
        lemma_first(more, lower);
        if checksum::line_hash(lines[0], lower) is None {
            match checksum::first_hash(lines, lower) {
                Some(h) => {
                    let i = choose|i: int|
                        0 <= i < more.len() && checksum::line_hash(#[trigger] more[i], lower) == Some(h)
                            && forall|j: int|
                            0 <= j < i ==> checksum::line_hash(#[trigger] more[j], lower) is None;
                    assert(lines[i + 1] == more[i]);
                    assert forall|j: int| 0 <= j < i + 1 implies checksum::line_hash(
                        #[trigger] lines[j],
                        lower,
                    ) is None by {
                        if j > 0 {
                            assert(lines[j] == more[j - 1]);
                        }
                    }
                },
                None => {
                    assert forall|j: int| 0 <= j < lines.len() implies checksum::line_hash(
                        #[trigger] lines[j],
                        lower,
                    ) is None by {
                        if j > 0 {
                            assert(lines[j] == more[j - 1]);
                        }
                    }
                },
            }
        }
    }
}

/// White space around a line does not count.
pub proof fn law_white_space_around_a_line_is_ignored(line: Seq<char>, lower: Seq<char>)
    ensures
        checksum::line_hash(line, lower) == checksum::line_hash(
            text::trim_both(line, CharClass::White),
            lower,
        ),
{
    crate::laws::text::law_front_is_trimmed(line, CharClass::White);
    let front = text::trim_front(line, CharClass::White);
    crate::laws::text::law_back_is_trimmed(front, CharClass::White);
    let left = text::trim_back(front, CharClass::White);
    if left.len() > 0 {
        assert(left[0] == front[0]);
    }
    text::lemma_trim_keeps(left, CharClass::White);
}

/// Of a line with words between white space, the first word is the hash, and what follows is the name
/// of the file, without white space and stars before it and without the directories of a path. The
/// line gives the hash for that file alone, in any letter case; a comment gives none.
pub proof fn law_line_is_for_its_file(
    hash: Seq<char>,
    gap: char,
    rest: Seq<char>,
    lower: Seq<char>,
)
    requires
        hash.len() > 0,
        forall|i: int| 0 <= i < hash.len() ==> !unicode::white_space(#[trigger] hash[i]),
        unicode::white_space(gap),
        rest.len() > 0,
        !unicode::white_space(rest.last()),
    ensures
        ({
            let name = text::trim_front(
                text::trim_front(rest, CharClass::White),
                CharClass::Only('*'),
            );
            let base = match crate::paths::file_name_of(name) {
                Some(n) => n,
                None => name,
            };
            checksum::line_hash(hash + seq![gap] + rest, lower) == if hash[0] != '#'
                && unicode::lowercase(base) == lower {
                Some(unicode::lowercase(hash))
            } else {
                None
            }
        }),
{
    let line = hash + seq![gap] + rest;
    let k = hash.len() as int;
    assert(line[0] == hash[0]);
    assert(line.last() == rest.last());
    text::lemma_trim_keeps(line, CharClass::White);
    assert forall|j: int| 0 <= j < k implies !CharClass::White.includes(#[trigger] line[j]) by {
        assert(line[j] == hash[j]);
    }
    assert(line[k] == gap);
    text::lemma_find_first_is(line, CharClass::White, k);
    assert(line.take(k) =~= hash);
    assert(line.skip(k + 1) =~= rest);
}

/// A line of one word gives that word, if it is a digest, for every file; and nothing else. An empty
/// line gives nothing.
pub proof fn law_lone_word_is_a_digest_or_nothing(word: Seq<char>, lower: Seq<char>)
    requires
        forall|i: int| 0 <= i < word.len() ==> !unicode::white_space(#[trigger] word[i]),
    ensures
        checksum::line_hash(word, lower) == if checksum::algo_of_digest(word) is Some {
            Some(unicode::lowercase(word))
        } else {
            None
        },
{
    text::lemma_trim_keeps(word, CharClass::White);
    assert forall|j: int| 0 <= j < word.len() implies !CharClass::White.includes(#[trigger] word[j]) by {}
    text::lemma_find_first_is(word, CharClass::White, word.len() as int);
    if checksum::algo_of_digest(word) is Some {
        assert(checksum::is_hex(word[0]));
    }
}

// ---- Finding the file ---------------------------------------------------------------------------

/// The ending of a file with the checksum of one asset.
pub open spec fn sum_ending(e: Seq<char>) -> bool {
    ||| e == "sha256"@ || e == "sha512"@ || e == "sha384"@ || e == "sha224"@
    ||| e == "sha2"@ || e == "sha"@ || e == "digest"@ || e == "checksum"@
}

/// A file is for one asset if its name is that of the asset with a dot and one of the endings, in any
/// letter case; and it is for a whole release by names such as `checksums.txt` and `SHA256SUMS`.
pub proof fn law_checksum_files_go_by_the_name(
    name: &str,
    target: &str,
    own: bool,
    general: bool,
)
    requires
        call_ensures(checksum::is_sidecar, (name, target), own),
        call_ensures(checksum::is_generic_checksums_file, (name,), general),
    ensures
        own <==> exists|e: Seq<char>| #[trigger]
            sum_ending(e) && unicode::lowercase(name@) == unicode::lowercase(target@) + seq!['.'] + e,
        general <==> ({
            let n = unicode::lowercase(name@);
            exists|stem: Seq<char>| #[trigger]
                general_stem(stem) && (n == stem + ".txt"@ || (n == stem && !text::has_suffix(
                    n,
                    ".txt"@,
                )))
        }),
{
    let n = unicode::lowercase(name@);
    let t = unicode::lowercase(target@);
    let ends = checksum::sidecar_extensions();
    assert(ends[0] == "sha256"@ && ends[1] == "sha512"@ && ends[2] == "sha384"@ && ends[3]
        == "sha224"@ && ends[4] == "sha2"@ && ends[5] == "sha"@ && ends[6] == "digest"@ && ends[7]
        == "checksum"@);
    if own {
        let e = n.skip(t.len() as int + 1);
        let k = ends.index_of(e);
        assert(ends[k] == e);
        assert(sum_ending(e));
        assert(n.subrange(0, t.len() as int) == t);
        assert(n =~= t + seq!['.'] + e) by {
            assert forall|i: int| 0 <= i < t.len() implies n[i] == t[i] by {
                assert(n.subrange(0, t.len() as int)[i] == t[i]);
            }
        }
    }
    if exists|e: Seq<char>| #[trigger] sum_ending(e) && n == t + seq!['.'] + e {
        let e = choose|e: Seq<char>| #[trigger] sum_ending(e) && n == t + seq!['.'] + e;
        assert(n.subrange(0, t.len() as int) =~= t);
        assert(n.skip(t.len() as int + 1) =~= e);
        assert(ends.contains(e));
    }
    crate::laws::text::law_suffix_comes_last(n, ".txt"@);
    let stem = checksum::without_txt(n);
    if text::has_suffix(n, ".txt"@) {
        assert(n =~= stem + ".txt"@) by {
            let k = n.len() - ".txt"@.len();
            assert forall|i: int| 0 <= i < ".txt"@.len() implies n[k + i] == ".txt"@[i] by {
                assert(n.subrange(k, k + ".txt"@.len())[i] == ".txt"@[i]);
            }
        }
    }
    if general {
        assert(general_stem(stem));
    }
    if exists|x: Seq<char>| #[trigger]
        general_stem(x) && (n == x + ".txt"@ || (n == x && !text::has_suffix(n, ".txt"@))) {
        let x = choose|x: Seq<char>| #[trigger]
            general_stem(x) && (n == x + ".txt"@ || (n == x && !text::has_suffix(n, ".txt"@)));
        if n == x + ".txt"@ {
            assert(stem =~= x);
        }
    }
}

/// The name, without `.txt`, of a file with the checksums of a release.
pub open spec fn general_stem(s: Seq<char>) -> bool {
    ||| s == "checksums"@ || s == "checksum"@
    ||| text::has_prefix(s, "checksums."@) || text::has_prefix(s, "checksum."@)
    ||| text::has_prefix(s, "sha"@) && (text::has_suffix(s, "sum"@) || text::has_suffix(s, "sums"@))
}

/// The first file for the asset alone is taken; without one, the first for the whole release; and
/// nothing only if there is neither.
pub proof fn law_own_checksum_file_goes_first<'a>(
    target: &str,
    assets: &'a [Asset],
    r: Option<&'a Asset>,
    i: int,
)
    requires
        call_ensures(checksum::find_checksum_asset, (target, assets), r),
        0 <= i < assets@.len(),
    ensures
        checksum::sidecar_name(assets@[i].name@, target@) ==> exists|k: int|
            0 <= k <= i && r == Some(&#[trigger] assets@[k]) && checksum::sidecar_name(
                assets@[k].name@,
                target@,
            ) && forall|j: int|
                0 <= j < k ==> !checksum::sidecar_name((#[trigger] assets@[j]).name@, target@),
        checksum::generic_name(assets@[i].name@) ==> r is Some,
        r matches Some(a) ==> checksum::sidecar_name(a.name@, target@) || checksum::generic_name(
            a.name@,
        ),
        (forall|j: int|
            0 <= j < assets@.len() ==> !checksum::sidecar_name((#[trigger] assets@[j]).name@, target@))
            && checksum::generic_name(assets@[i].name@) ==> exists|k: int|
            0 <= k <= i && r == Some(&#[trigger] assets@[k]) && checksum::generic_name(
                assets@[k].name@,
            ) && forall|j: int| 0 <= j < k ==> !checksum::generic_name((#[trigger] assets@[j]).name@),
{
    if r is None {
        assert(checksum::none_published(assets@, target@));
    }
    if r is Some {
        let k = choose|k: int|
            checksum::is_checksum_choice(assets@, target@, k) && *r->0 == assets@[k];
        assert(r == Some(&assets@[k]));
        if checksum::sidecar_name(assets@[i].name@, target@) {
            assert(k <= i);
        }
    }
}

// ---- Downloads ----------------------------------------------------------------------------------

/// A download is accepted without a checksum file, with its SHA-256 digest; and with one exactly if it
/// is verified, with the digest that was. Its file is to be removed in the end.
pub proof fn law_downloads_are_verified(
    path: &str,
    contents: &[u8],
    name: &str,
    published: Option<Published>,
    r: Result<Downloaded, ChecksumError>,
)
    requires
        call_ensures(Downloaded::fetch, (path, contents, name, published), r),
    ensures
        published is None ==> (r matches Ok(dl) && (dl.sha256 matches Some(h) && h@ == digest::hex_text(
            digest::sha256(contents@),
        ))),
        published matches Some(p) ==> (r is Ok <==> (checksum::listed_hash(p.content@, name@) matches Some(
            h,
        ) && is_digest_of(h, contents@))),
        published matches Some(p) ==> (r matches Ok(dl) ==> (dl.sha256 matches Some(h) && is_digest_of(
            h@,
            contents@,
        ))),
        r matches Ok(dl) ==> dl.asset_path@ == path@ && dl.guard.temp_files@.len() == 1
            && dl.guard.temp_files@[0]@ == path@ && dl.guard.temp_dirs@.len() == 0,
{
}

/// The fingerprint of a file is its SHA-256 digest in hexadecimal.
pub proof fn law_fingerprint_is_sha256(contents: &[u8], r: String)
    requires
        call_ensures(checksum::sha256_file, (contents,), r),
    ensures
        r@ == digest::hex_text(digest::sha256(contents@)),
{
}

} // verus!
