//! Requests to the GitHub API and what the replies mean.

use vstd::prelude::*;

use crate::decimal;
use crate::error::GhrError;
use crate::github::types::Release;

verus! {

/// Data from the API, with the ETag of the reply.
pub struct ApiResponse<T> {
    pub data: T,
    pub etag: Option<String>,
}

/// What a conditional request gave.
pub enum ConditionalResult<T> {
    Changed(ApiResponse<T>),
    NotModified,
}

/// Who asks the API: with a token or without.
pub struct GithubClient {
    pub token: Option<String>,
}

/// The token cannot stand in a request.
#[derive(Debug)]
pub struct InvalidToken;

impl InvalidToken {
    /// The text to show for the error.
    pub fn message(&self) -> (r: String)
        ensures
            r@ == "invalid token value"@,
    {
        "invalid token value".to_owned()
    }
}

/// A text that can stand in a header: tabs and everything from the space on, without the delete
/// character.
pub open spec fn fits_header(value: Seq<char>) -> bool {
    forall|i: int|
        0 <= i < value.len() ==> (#[trigger] value[i] == '\t' || (value[i] >= ' ' && value[i]
            != '\x7f'))
}

/// Calls `HeaderValue::from_str` of the crate `http`, through `reqwest`. It takes a text whose
/// characters are tabs or come from the space on, without the delete character.
#[verifier::external_body]
fn header_accepts(value: &str) -> (r: bool)
    ensures
        r == fits_header(value@),
{
    reqwest::header::HeaderValue::from_str(value).is_ok()
}

/// What the header for a token says.
pub open spec fn bearer(token: Seq<char>) -> Seq<char> {
    "Bearer "@ + token
}

/// The name and the value of a header.
pub struct Header {
    pub name: String,
    pub value: String,
}

/// The names and the values of headers.
pub open spec fn header_texts(headers: Seq<Header>) -> Seq<(Seq<char>, Seq<char>)> {
    headers.map_values(|h: Header| (h.name@, h.value@))
}

/// The headers of every request.
pub open spec fn headers_for(token: Option<String>) -> Seq<(Seq<char>, Seq<char>)> {
    let fixed = seq![
        ("Accept"@, "application/vnd.github+json"@),
        ("X-GitHub-Api-Version"@, "2022-11-28"@),
    ];
    match token {
        Some(t) => fixed.push(("Authorization"@, bearer(t@))),
        None => fixed,
    }
}

/// How to go on after a reply, by its status.
#[derive(Debug)]
pub enum ReplyStep {
    /// Nothing is new.
    NotModified,
    /// The body holds what was asked for.
    ReadBody,
    /// The error is known without the body.
    Fail(GhrError),
    /// The body tells the error.
    ReadError,
}

/// The statuses that mean success.
pub open spec fn success(status: u16) -> bool {
    200 <= status < 300
}

impl GithubClient {
    /// A client with this token, if it can stand in a request.
    pub fn new(token: Option<String>) -> (r: Result<Self, InvalidToken>)
        ensures
            r is Err <==> token is Some && !fits_header(bearer(token->0@)),
            r matches Ok(client) ==> client.token == token,
    {
        if let Some(t) = &token {
            let mut value = "Bearer ".to_owned();
            value.append(t.as_str());
            if !header_accepts(value.as_str()) {
                return Err(InvalidToken);
            }
        }
        Ok(GithubClient { token })
    }

    /// The headers that go with every request.
    pub fn default_headers(&self) -> (r: Vec<Header>)
        ensures
            header_texts(r@) == headers_for(self.token),
    {
        let mut out: Vec<Header> = Vec::new();
        out.push(
            Header { name: "Accept".to_owned(), value: "application/vnd.github+json".to_owned() },
        );
        out.push(
            Header { name: "X-GitHub-Api-Version".to_owned(), value: "2022-11-28".to_owned() },
        );
        if let Some(t) = &self.token {
            let mut value = "Bearer ".to_owned();
            value.append(t.as_str());
            out.push(Header { name: "Authorization".to_owned(), value });
        }
        assert(header_texts(out@) =~= headers_for(self.token));
        out
    }

    /// The token to use: the one of the environment goes before the one of the configuration.
    pub fn resolve_token(env_token: Option<String>, config_token: Option<String>) -> (r: Option<
        String,
    >)
        ensures
            r == if env_token is Some {
                env_token
            } else {
                config_token
            },
    {
        match env_token {
            Some(t) => Some(t),
            None => config_token,
        }
    }

    /// Where the releases of a repository are listed.
    pub fn releases_url(repo: &str) -> (r: String)
        ensures
            r@ == "https://api.github.com/repos/"@ + repo@ + "/releases"@,
    {
        let mut s = "https://api.github.com/repos/".to_owned();
        s.append(repo);
        s.append("/releases");
        s
    }

    /// Where the latest release of a repository is described.
    pub fn latest_release_url(repo: &str) -> (r: String)
        ensures
            r@ == "https://api.github.com/repos/"@ + repo@ + "/releases/latest"@,
    {
        let mut s = "https://api.github.com/repos/".to_owned();
        s.append(repo);
        s.append("/releases/latest");
        s
    }

    /// Where the release of a tag is described.
    pub fn tag_release_url(repo: &str, tag: &str) -> (r: String)
        ensures
            r@ == "https://api.github.com/repos/"@ + repo@ + "/releases/tags/"@ + tag@,
    {
        let mut s = "https://api.github.com/repos/".to_owned();
        s.append(repo);
        s.append("/releases/tags/");
        s.append(tag);
        s
    }

    /// How to go on after a reply to a request for a list of releases or for one release. A refusal
    /// with the moment at which the limit is reset means that the limit is exceeded.
    pub fn list_releases(status: u16, reset: Option<String>) -> (r: ReplyStep)
        ensures
            match r {
                ReplyStep::NotModified => false,
                ReplyStep::ReadBody => success(status),
                ReplyStep::Fail(e) => status == 403 && reset is Some && e
                    == (GhrError::RateLimitExceeded { reset_time: reset->0 }),
                ReplyStep::ReadError => !success(status) && !(status == 403 && reset is Some),
            },
    {
        if status == 403 {
            if let Some(reset_time) = reset {
                return ReplyStep::Fail(GhrError::RateLimitExceeded { reset_time });
            }
        }
        if status < 200 || status >= 300 {
            return ReplyStep::ReadError;
        }
        ReplyStep::ReadBody
    }

    /// How to go on after a reply to a conditional request for the latest release.
    pub fn get_latest_release(status: u16, reset: Option<String>) -> (r: ReplyStep)
        ensures
            match r {
                ReplyStep::NotModified => status == 304,
                ReplyStep::ReadBody => success(status),
                ReplyStep::Fail(e) => status == 403 && reset is Some && e
                    == (GhrError::RateLimitExceeded { reset_time: reset->0 }),
                ReplyStep::ReadError => !success(status) && status != 304 && !(status == 403
                    && reset is Some),
            },
    {
        if status == 304 {
            return ReplyStep::NotModified;
        }
        GithubClient::list_releases(status, reset)
    }

    /// The error that a body tells.
    pub fn api_error(status: u16, body: String) -> (r: GhrError)
        ensures
            r == (GhrError::ApiError { status, message: body }),
    {
        GhrError::ApiError { status, message: body }
    }

    /// The warning that few requests are left, by the header that tells how many.
    pub fn check_rate_limit(&self, remaining: Option<&str>) -> (r: Option<String>)
        ensures
            match (few_left(remaining)) {
                Some(n) => r matches Some(w) && w@ == limit_warning(n, self.token is None),
                None => r is None,
            },
    {
        let n = match remaining {
            Some(t) => match decimal::parse_u32(t) {
                Some(n) => n,
                None => {
                    return None;
                },
            },
            None => {
                return None;
            },
        };
        if n < 10 && n > 0 {
            let mut s = "GitHub API rate limit almost exhausted (".to_owned();
            s.append(decimal::to_decimal(n as u64).as_str());
            s.append(" requests remaining).");
            if self.token.is_none() {
                s.append(" Set GITHUB_TOKEN to increase the limit.");
            }
            return Some(s);
        }
        None
    }
}

/// The headers that a request for the latest release has besides those of every request: with the
/// ETag of an earlier reply it asks for a release only if that one is no longer the latest.
pub fn latest_release_headers(etag: Option<&str>) -> (r: Vec<Header>)
    ensures
        header_texts(r@) == match etag {
            Some(t) => seq![("If-None-Match"@, t@)],
            None => Seq::empty(),
        },
{
    let mut out: Vec<Header> = Vec::new();
    if let Some(t) = etag {
        out.push(Header { name: "If-None-Match".to_owned(), value: t.to_owned() });
    }
    out
}

/// What a request for the latest release gives once the body of the reply is read: the release,
/// with the ETag of the reply.
pub fn latest_release_found(release: Release, etag: Option<String>) -> (r: ConditionalResult<
    Release,
>)
    ensures
        r == ConditionalResult::Changed(ApiResponse { data: release, etag }),
{
    ConditionalResult::Changed(ApiResponse { data: release, etag })
}

/// How many requests are left, if the header tells it and there are few.
pub open spec fn few_left(remaining: Option<&str>) -> Option<u32> {
    match remaining {
        Some(t) => match decimal::u32_value(t@) {
            Some(n) => if 0 < n < 10 {
                Some(n)
            } else {
                None
            },
            None => None,
        },
        None => None,
    }
}

/// The warning that few requests are left. Without a token it says how to get more.
pub open spec fn limit_warning(n: u32, no_token: bool) -> Seq<char> {
    let warning = "GitHub API rate limit almost exhausted ("@ + decimal::decimal(n as nat)
        + " requests remaining)."@;
    if no_token {
        warning + " Set GITHUB_TOKEN to increase the limit."@
    } else {
        warning
    }
}

} // verus!
