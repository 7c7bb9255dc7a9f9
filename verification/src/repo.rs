//! Repositories, as a user names them.

use vstd::prelude::*;

use crate::text;
use crate::text::CharClass;

verus! {

/// Why a text names no repository.
#[derive(Debug)]
pub enum RepoError {
    /// Neither of the form `owner/repo` nor a URL.
    NotARepo { input: String },
    /// A URL of another host, or without an owner and a repository.
    NotAUrl { input: String },
}

impl RepoError {
    /// The text of an error.
    pub open spec fn text(self) -> Seq<char> {
        match self {
            RepoError::NotARepo { input } => "'"@ + input@
                + "' is not a valid owner/repo or GitHub URL"@,
            RepoError::NotAUrl { input } => "'"@ + input@ + "' is not a valid GitHub URL"@,
        }
    }

    /// The text to show for the error.
    pub fn message(&self) -> (r: String)
        ensures
            r@ == self.text(),
    {
        let mut s = "'".to_owned();
        match self {
            RepoError::NotARepo { input } => {
                s.append(input.as_str());
                s.append("' is not a valid owner/repo or GitHub URL");
            },
            RepoError::NotAUrl { input } => {
                s.append(input.as_str());
                s.append("' is not a valid GitHub URL");
            },
        }
        s
    }
}

/// What a text names.
pub enum Named {
    /// The repository, as `owner/repo`.
    Repo(Seq<char>),
    /// Nothing: it is neither of the form `owner/repo` nor a URL.
    NoRepo,
    /// Nothing: it is a URL of another host, or one without an owner and a repository.
    NoUrl,
}

/// The text without white space around it and without slashes at its end.
pub open spec fn trimmed(input: Seq<char>) -> Seq<char> {
    text::trim_back(text::trim_both(input, CharClass::White), CharClass::Only('/'))
}

/// The text is to be read as a URL.
pub open spec fn is_url(s: Seq<char>) -> bool {
    text::has_part(s, "://"@) || text::has_prefix(s, "github.com"@)
}

/// A URL without its scheme and without `www.`: the host and the path.
pub open spec fn without_scheme(s: Seq<char>) -> Seq<char> {
    text::strip_copies(
        text::strip_copies(text::strip_copies(s, "https://"@), "http://"@),
        "www."@,
    )
}

/// The host of a URL is GitHub.
pub open spec fn on_github(s: Seq<char>) -> bool {
    text::has_prefix(without_scheme(s), "github.com/"@)
}

/// A URL of GitHub without its scheme and its host.
pub open spec fn url_path(s: Seq<char>) -> Seq<char> {
    text::strip_copies(without_scheme(s), "github.com/"@)
}

/// The text has the form `owner/repo`: exactly one slash, and no scheme.
pub open spec fn owner_and_repo(s: Seq<char>) -> bool {
    text::count_of(s, '/') == 1 && !text::has_part(s, "://"@)
}

/// What the text of a user names. Of a URL of GitHub the first two segments of the path count, which
/// may not be empty. A URL of another host names nothing.
pub open spec fn named(input: Seq<char>) -> Named {
    let s = trimmed(input);
    let segments = text::pieces(url_path(s), '/');
    if is_url(s) && on_github(s) {
        if segments.len() >= 2 && segments[0].len() > 0 && segments[1].len() > 0 {
            Named::Repo(segments[0] + seq!['/'] + segments[1])
        } else {
            Named::NoUrl
        }
    } else if owner_and_repo(s) {
        Named::Repo(s)
    } else if is_url(s) {
        Named::NoUrl
    } else {
        Named::NoRepo
    }
}

/// Accept either `owner/repo` or any github.com URL and return `owner/repo`.
pub fn parse_repo(input: &str) -> (r: Result<String, RepoError>)
    ensures
        match (named(input@)) {
            Named::Repo(repo) => r matches Ok(t) && t@ == repo,
            Named::NoRepo => r matches Err(RepoError::NotARepo { input: i }) && i@ == input@,
            Named::NoUrl => r matches Err(RepoError::NotAUrl { input: i }) && i@ == input@,
        },
{
    let s = text::trim_end(text::trim(input, CharClass::White), CharClass::Only('/'));
    let scheme = text::contains(s, "://");
    let url = scheme || text::starts_with(s, "github.com");
    let host = text::trim_start_part(
        text::trim_start_part(text::trim_start_part(s, "https://"), "http://"),
        "www.",
    );
    if !url || !text::starts_with(host, "github.com/") {
        if !scheme && text::count(s, '/') == 1 {
            return Ok(s.to_owned());
        }
        if url {
            return Err(RepoError::NotAUrl { input: input.to_owned() });
        }
        return Err(RepoError::NotARepo { input: input.to_owned() });
    }
    let path = text::trim_start_part(host, "github.com/");
    let parts = text::split(path, '/');
    let ghost segments = text::pieces(path@, '/');
    proof {
        assert(parts@.map_values(|t: String| t@).len() == parts@.len());
        assert forall|i: int| 0 <= i < parts@.len() implies (#[trigger] parts@[i])@ == segments[i] by {
            assert(parts@.map_values(|t: String| t@)[i] == segments[i]);
        }
    }
    if parts.len() >= 2 {
        let owner = &parts[0];
        let repo = &parts[1];
        if owner.as_str().unicode_len() > 0 && repo.as_str().unicode_len() > 0 {
            let mut out = owner.clone();
            out.push('/');
            out.append(repo.as_str());
            assert(out@ =~= segments[0] + seq!['/'] + segments[1]);
            return Ok(out);
        }
    }
    Err(RepoError::NotAUrl { input: input.to_owned() })
}

// ---- Laws ---------------------------------------------------------------------------------------

/// What is found to be a repository has exactly one slash.
pub proof fn law_one_slash(input: Seq<char>)
    ensures
        named(input) matches Named::Repo(repo) ==> text::count_of(repo, '/') == 1,
{
    let s = trimmed(input);
    let path = url_path(s);
    let segments = text::pieces(path, '/');
    if is_url(s) && on_github(s) && segments.len() >= 2 {
        text::lemma_pieces_lack(path, '/');
        text::lemma_count_zero(segments[0], '/');
        text::lemma_count_zero(segments[1], '/');
        assert forall|i: int| 0 <= i < segments[0].len() implies segments[0][i] != '/' by {}
        assert forall|i: int| 0 <= i < segments[1].len() implies segments[1][i] != '/' by {}
        text::lemma_count_concat(segments[0], seq!['/'], '/');
        text::lemma_count_concat(segments[0] + seq!['/'], segments[1], '/');
        assert(seq!['/'].drop_last() =~= Seq::<char>::empty());
        assert(text::count_of(seq!['/'], '/') == 1) by {
            reveal_with_fuel(text::count_of, 2);
        }
    }
}

/// How a URL of a repository begins.
pub open spec fn url_start(prefix: Seq<char>) -> bool {
    ||| prefix == "github.com/"@
    ||| prefix == "https://github.com/"@
    ||| prefix == "http://github.com/"@
    ||| prefix == "https://www.github.com/"@
    ||| prefix == "http://www.github.com/"@
}

pub proof fn lemma_strip_none(s: Seq<char>, part: Seq<char>)
    requires
        part.len() > 0,
        s.len() > 0 ==> s[0] != part[0],
    ensures
        text::strip_copies(s, part) == s,
{
    if text::has_prefix(s, part) {
        assert(s.subrange(0, part.len() as int)[0] == s[0]);
    }
}

proof fn lemma_strip_one(s: Seq<char>, part: Seq<char>, rest: Seq<char>)
    requires
        part.len() > 0,
        s == part + rest,
        !text::has_prefix(rest, part),
    ensures
        text::strip_copies(s, part) == rest,
{
    assert(s.subrange(0, part.len() as int) =~= part);
    assert(s.skip(part.len() as int) =~= rest);
    assert(text::has_prefix(s, part));
    assert(text::strip_copies(rest, part) == rest);
}

proof fn lemma_no_prefix(s: Seq<char>, part: Seq<char>)
    requires
        part.len() > 0,
        s.len() > 0 ==> s[0] != part[0],
    ensures
        !text::has_prefix(s, part),
{
    if text::has_prefix(s, part) {
        assert(s.subrange(0, part.len() as int)[0] == s[0]);
    }
}

/// A text that begins with a word and a slash has that word as its first segment.
pub proof fn lemma_first_segment(
    first: Seq<char>,
    more: Seq<char>,
    word: Seq<char>,
    part: Seq<char>,
)
    requires
        !first.contains('/'),
        more.len() > 0 ==> more[0] == '/',
        !word.contains('/'),
        word.len() < part.len(),
        part.take(word.len() as int) == word,
        part[word.len() as int] == '/',
        text::has_prefix(first + more, part),
    ensures
        first == word,
{
    let s = first + more;
    let n = first.len() as int;
    let m = word.len() as int;
    assert forall|i: int| 0 <= i < part.len() implies #[trigger] s[i] == part[i] by {
        assert(s.subrange(0, part.len() as int)[i] == part[i]);
    }
    if n < m {
        assert(s[n] == more[0]);
        assert(part.take(m)[n] == word[n]);
        assert(word.contains(word[n]));
    } else if n > m {
        assert(s[m] == first[m]);
        assert(first.contains(first[m]));
    } else {
        assert forall|i: int| 0 <= i < m implies first[i] == word[i] by {
            assert(s[i] == first[i]);
            assert(part.take(m)[i] == word[i]);
        }
        assert(first =~= word);
    }
}

/// The path of a URL is what follows the host.
pub proof fn lemma_url_path(prefix: Seq<char>, rest: Seq<char>)
    requires
        url_start(prefix),
        !text::has_prefix(rest, "github.com/"@),
    ensures
        is_url(prefix + rest),
        on_github(prefix + rest),
        url_path(prefix + rest) == rest,
        prefix.len() > 0,
        prefix[0] == 'g' || prefix[0] == 'h',
{
    reveal_strlit("://");
    reveal_strlit("github.com");
    reveal_strlit("github.com/");
    reveal_strlit("https://");
    reveal_strlit("http://");
    reveal_strlit("www.");
    reveal_strlit("https://github.com/");
    reveal_strlit("http://github.com/");
    reveal_strlit("https://www.github.com/");
    reveal_strlit("http://www.github.com/");
    let s = prefix + rest;
    let host = "github.com/"@ + rest;
    let www = "www."@ + host;
    lemma_strip_one(host, "github.com/"@, rest);
    assert(host.subrange(0, 11) =~= "github.com/"@);
    lemma_strip_none(host, "www."@);
    lemma_no_prefix(host, "www."@);
    lemma_strip_none(host, "http://"@);
    lemma_no_prefix(host, "http://"@);
    lemma_strip_none(host, "https://"@);
    lemma_no_prefix(host, "https://"@);
    lemma_strip_one(www, "www."@, host);
    lemma_strip_none(www, "http://"@);
    lemma_no_prefix(www, "http://"@);
    lemma_strip_none(www, "https://"@);
    lemma_no_prefix(www, "https://"@);
    if prefix == "github.com/"@ {
        assert(s.subrange(0, 10) =~= "github.com"@);
    } else if prefix == "https://github.com/"@ || prefix == "https://www.github.com/"@ {
        let after = if prefix == "https://github.com/"@ {
            host
        } else {
            www
        };
        assert(s =~= "https://"@ + after);
        assert(s.subrange(5, 8) =~= "://"@);
        assert(text::occurs_at(s, "://"@, 5));
        lemma_strip_one(s, "https://"@, after);
    } else {
        let after = if prefix == "http://github.com/"@ {
            host
        } else {
            www
        };
        assert(s =~= "http://"@ + after);
        assert(s.subrange(4, 7) =~= "://"@);
        assert(text::occurs_at(s, "://"@, 4));
        assert(s[4] == ':');
        assert(!text::has_prefix(s, "https://"@)) by {
            if text::has_prefix(s, "https://"@) {
                assert(s.subrange(0, 8)[4] == s[4]);
            }
        }
        lemma_strip_one(s, "http://"@, after);
    }
}

/// A URL of GitHub with an owner and a repository names that repository, with a scheme or without
/// one, and whatever path follows.
pub proof fn law_url_names_its_repo(
    prefix: Seq<char>,
    owner: Seq<char>,
    repo: Seq<char>,
    tail: Seq<char>,
)
    requires
        url_start(prefix),
        owner.len() > 0,
        repo.len() > 0,
        !owner.contains('/'),
        !repo.contains('/'),
        owner != "github.com"@,
        tail.len() > 0 ==> tail[0] == '/',
        !crate::unicode::white_space((repo + tail).last()),
    ensures
        named(prefix + owner + seq!['/'] + repo + tail) == Named::Repo(
            owner + seq!['/'] + repo,
        ),
{
    let slash = CharClass::Only('/');
    let input = prefix + owner + seq!['/'] + repo + tail;
    let cut = text::trim_back(tail, slash);
    // what is trimmed away belongs to the tail
    text::lemma_trim_back_prefix(prefix + owner + seq!['/'] + repo, tail, slash);
    assert((prefix + owner + seq!['/'] + repo).last() == repo.last());
    assert(repo.contains(repo.last()));
    lemma_url_path_head(prefix);
    assert(input[0] == prefix[0]);
    assert(input.last() == (repo + tail).last());
    text::lemma_trim_keeps(input, CharClass::White);
    let s = trimmed(input);
    assert(s == prefix + owner + seq!['/'] + repo + cut);
    text::lemma_trim_back_kept(tail, slash);
    let rest = owner + seq!['/'] + repo + cut;
    assert(s =~= prefix + rest);
    reveal_strlit("github.com/");
    reveal_strlit("github.com");
    assert(!text::has_prefix(rest, "github.com/"@)) by {
        if text::has_prefix(rest, "github.com/"@) {
            assert(rest =~= owner + (seq!['/'] + repo + cut));
            assert("github.com/"@.take(10) =~= "github.com"@);
            lemma_first_segment(owner, seq!['/'] + repo + cut, "github.com"@, "github.com/"@);
        }
    }
    lemma_url_path(prefix, rest);
    assert(rest =~= owner + seq!['/'] + (repo + cut));
    assert forall|i: int| 0 <= i < owner.len() implies owner[i] != '/' by {
        assert(owner.contains(owner[i]));
    }
    assert forall|i: int| 0 <= i < repo.len() implies repo[i] != '/' by {
        assert(repo.contains(repo[i]));
    }
    text::lemma_first_piece(owner, '/', repo + cut);
    if cut.len() == 0 {
        assert(repo + cut =~= repo);
        text::lemma_one_piece(repo, '/');
    } else {
        assert(cut[0] == '/');
        assert(repo + cut =~= repo + seq!['/'] + cut.skip(1));
        text::lemma_first_piece(repo, '/', cut.skip(1));
    }
}

/// How a URL begins before its host.
pub open spec fn scheme_start(start: Seq<char>) -> bool {
    ||| start == "https://"@
    ||| start == "http://"@
    ||| start == "https://www."@
    ||| start == "http://www."@
}

/// What follows the scheme of a URL of another host is left by stripping it.
proof fn lemma_other_host(start: Seq<char>, host: Seq<char>, more: Seq<char>)
    requires
        scheme_start(start),
        host.len() > 0,
        !host.contains('/'),
        more.len() > 0 ==> more[0] == '/',
        host != "https:"@,
        host != "http:"@,
        !text::has_prefix(host, "www."@),
    ensures
        text::has_part(start + host + more, "://"@),
        without_scheme(start + host + more) == host + more,
{
    reveal_strlit("://");
    reveal_strlit("https:");
    reveal_strlit("http:");
    reveal_strlit("https://");
    reveal_strlit("http://");
    reveal_strlit("www.");
    reveal_strlit("https://www.");
    reveal_strlit("http://www.");
    let s = start + host + more;
    let rest = host + more;
    let www = "www."@ + rest;
    assert("https://"@.take(6) =~= "https:"@);
    assert("http://"@.take(5) =~= "http:"@);
    if text::has_prefix(rest, "https://"@) {
        lemma_first_segment(host, more, "https:"@, "https://"@);
    }
    if text::has_prefix(rest, "http://"@) {
        lemma_first_segment(host, more, "http:"@, "http://"@);
    }
    assert(!text::has_prefix(rest, "www."@)) by {
        if text::has_prefix(rest, "www."@) {
            let n = host.len() as int;
            if n >= 4 {
                assert(host.subrange(0, 4) =~= rest.subrange(0, 4));
            } else {
                assert(rest.subrange(0, 4)[n] == more[0]);
            }
        }
    }
    lemma_no_prefix(www, "https://"@);
    lemma_no_prefix(www, "http://"@);
    lemma_strip_one(www, "www."@, rest);
    let after = if start == "https://"@ || start == "http://"@ {
        rest
    } else {
        www
    };
    if start == "https://"@ || start == "https://www."@ {
        assert(s =~= "https://"@ + after);
        assert(s.subrange(5, 8) =~= "://"@);
        assert(text::occurs_at(s, "://"@, 5));
        lemma_strip_one(s, "https://"@, after);
    } else {
        assert(s =~= "http://"@ + after);
        assert(s.subrange(4, 7) =~= "://"@);
        assert(text::occurs_at(s, "://"@, 4));
        assert(!text::has_prefix(s, "https://"@)) by {
            if text::has_prefix(s, "https://"@) {
                assert(s.subrange(0, 8)[4] == s[4]);
            }
        }
        lemma_strip_one(s, "http://"@, after);
    }
}

/// A URL of another host than GitHub names nothing, whatever its path. What is stripped from a URL
/// once more is no host: a second scheme, or a second `www.`.
pub proof fn law_other_hosts_are_refused(start: Seq<char>, host: Seq<char>, tail: Seq<char>)
    requires
        scheme_start(start),
        host.len() > 0,
        !host.contains('/'),
        !crate::unicode::white_space(host.last()),
        tail.len() > 0 ==> tail[0] == '/',
        host != "github.com"@,
        host != "https:"@,
        host != "http:"@,
        !text::has_prefix(host, "www."@),
    ensures
        named(start + host + tail) == Named::NoUrl,
{
    let slash = CharClass::Only('/');
    let input = start + host + tail;
    let inner = text::trim_back(tail, CharClass::White);
    let cut = text::trim_back(inner, slash);
    assert((start + host).last() == host.last());
    assert(host.contains(host.last()));
    assert(start.len() > 0 && !crate::unicode::white_space(start[0])) by {
        reveal_strlit("https://");
        reveal_strlit("http://");
        reveal_strlit("https://www.");
        reveal_strlit("http://www.");
    }
    assert(input[0] == start[0]);
    text::lemma_trim_back_prefix(start + host, tail, CharClass::White);
    text::lemma_trim_back_prefix(start + host, inner, slash);
    text::lemma_trim_back_kept(tail, CharClass::White);
    text::lemma_trim_back_kept(inner, slash);
    let s = trimmed(input);
    assert(s == start + host + cut);
    assert(cut.len() > 0 ==> cut[0] == '/');
    lemma_other_host(start, host, cut);
    if on_github(s) {
        reveal_strlit("github.com");
        reveal_strlit("github.com/");
        assert("github.com/"@.take(10) =~= "github.com"@);
        lemma_first_segment(host, cut, "github.com"@, "github.com/"@);
    }
}

proof fn lemma_url_path_head(prefix: Seq<char>)
    requires
        url_start(prefix),
    ensures
        prefix.len() > 0,
        !crate::unicode::white_space(prefix[0]),
{
    reveal_strlit("github.com/");
    reveal_strlit("https://github.com/");
    reveal_strlit("http://github.com/");
    reveal_strlit("https://www.github.com/");
    reveal_strlit("http://www.github.com/");
}

/// A repository that was found names itself, if no white space stands at its ends.
pub proof fn law_repo_names_itself(input: Seq<char>)
    ensures
        named(input) matches Named::Repo(repo) ==> (text::trim_both(repo, CharClass::White) == repo
            ==> named(repo) == Named::Repo(repo)),
{
    if let Named::Repo(repo) = named(input) {
        if text::trim_both(repo, CharClass::White) == repo {
            let slash = CharClass::Only('/');
            let s = trimmed(input);
            law_one_slash(input);
            text::lemma_trim_back_kept(text::trim_both(input, CharClass::White), slash);
            if is_url(s) && on_github(s) {
                let path = url_path(s);
                let segments = text::pieces(path, '/');
                text::lemma_pieces_lack(path, '/');
                assert(repo.last() == segments[1].last());
                assert(trimmed(repo) == repo);
                assert forall|i: int| 0 <= i < segments[0].len() implies segments[0][i] != '/' by {}
                assert forall|i: int| 0 <= i < segments[1].len() implies segments[1][i] != '/' by {}
                reveal_strlit("://");
                if text::has_part(repo, "://"@) {
                    let i = choose|i: int| text::occurs_at(repo, "://"@, i);
                    assert(repo.subrange(i, i + 3)[1] == repo[i + 1]);
                    assert(repo.subrange(i, i + 3)[2] == repo[i + 2]);
                    let n = segments[0].len() as int;
                    assert(repo[i + 1] == '/' && repo[i + 2] == '/');
                    if i + 1 < n {
                        assert(repo[i + 1] == segments[0][i + 1]);
                    } else if i + 1 > n {
                        assert(repo[i + 1] == segments[1][i + 1 - n - 1]);
                    } else {
                        assert(repo[i + 2] == segments[1][0]);
                    }
                    assert(false);
                }
                if text::has_prefix(repo, "github.com"@) {
                    lemma_url_repo_kept(s, repo);
                    text::lemma_first_piece(segments[0], '/', segments[1]);
                    text::lemma_one_piece(segments[1], '/');
                }
            } else {
                assert(repo == s);
                assert(trimmed(repo) == repo);
            }
        }
    }
}

/// The repository of a URL is not stripped again.
proof fn lemma_url_repo_kept(s: Seq<char>, repo: Seq<char>)
    requires
        text::has_prefix(repo, "github.com"@),
        ({
            let segments = text::pieces(url_path(s), '/');
            segments.len() >= 2 && repo == segments[0] + seq!['/'] + segments[1]
        }),
    ensures
        url_path(repo) == repo,
{
    reveal_strlit("github.com");
    reveal_strlit("github.com/");
    reveal_strlit("https://");
    reveal_strlit("http://");
    reveal_strlit("www.");
    let path = url_path(s);
    let segments = text::pieces(path, '/');
    assert(repo.subrange(0, 10)[0] == repo[0]);
    lemma_strip_none(repo, "https://"@);
    lemma_strip_none(repo, "http://"@);
    lemma_strip_none(repo, "www."@);
    text::lemma_strip_leaves(
        text::strip_copies(
            text::strip_copies(text::strip_copies(s, "https://"@), "http://"@),
            "www."@,
        ),
        "github.com/"@,
    );
    text::lemma_pieces_begin(path, '/');
    assert(!text::has_prefix(repo, "github.com/"@)) by {
        if text::has_prefix(repo, "github.com/"@) {
            let host = "github.com/"@;
            let both = segments[0] + seq!['/'];
            assert(repo.subrange(0, 11) == host);
            assert(repo[10] == host[10]);
            text::lemma_pieces_lack(path, '/');
            let n = segments[0].len() as int;
            assert(repo[n] == '/');
            if n < 10 {
                assert(repo.subrange(0, 11)[n] == host[n]);
            } else if n > 10 {
                assert(repo[10] == segments[0][10]);
            } else {
                assert(both =~= repo.subrange(0, 11));
                assert(path.subrange(0, 11) =~= both);
                assert(text::has_prefix(path, host));
            }
        }
    }
}

} // verus!
