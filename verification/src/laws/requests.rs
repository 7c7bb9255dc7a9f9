//! Requests to the API, and what the replies mean.

use vstd::prelude::*;

use crate::decimal;
use crate::error::GhrError;
use crate::github::api;
use crate::github::api::{ConditionalResult, GithubClient, Header, InvalidToken, ReplyStep};
use crate::github::types::Release;

verus! {

/// A token can be used exactly if it has no control characters but tabs; the client then has it.
pub proof fn law_tokens_have_no_control_characters(
    token: Option<String>,
    r: Result<GithubClient, InvalidToken>,
)
    requires
        call_ensures(GithubClient::new, (token,), r),
    ensures
        token is None ==> r is Ok,
        token matches Some(t) ==> (r is Ok <==> forall|i: int|
            0 <= i < t@.len() ==> (#[trigger] t@[i] == '\t' || (t@[i] >= ' ' && t@[i]
                != '\x7f'))),
        r matches Ok(client) ==> client.token == token,
{
    if let Some(t) = token {
        reveal_strlit("Bearer ");
        let v = "Bearer "@ + t@;
        let n = "Bearer "@.len() as int;
        assert(api::bearer(t@) == v);
        if api::fits_header(v) {
            assert forall|i: int| 0 <= i < t@.len() implies (#[trigger] t@[i] == '\t' || (t@[i]
                >= ' ' && t@[i] != '\x7f')) by {
                assert(v[i + n] == t@[i]);
            }
        }
        if forall|i: int|
            0 <= i < t@.len() ==> (#[trigger] t@[i] == '\t' || (t@[i] >= ' ' && t@[i]
                != '\x7f')) {
            assert forall|i: int| 0 <= i < v.len() implies (#[trigger] v[i] == '\t' || (v[i] >= ' '
                && v[i] != '\x7f')) by {
                if i >= n {
                    assert(v[i] == t@[i - n]);
                }
            }
        }
    }
}

/// Every request asks for the format and the version of the API; one with a token says it.
pub proof fn law_requests_say_the_token(client: &GithubClient, r: Vec<Header>)
    requires
        call_ensures(GithubClient::default_headers, (client,), r),
    ensures
        r@.len() == if client.token is Some {
            3int
        } else {
            2
        },
        r@[0].name@ == "Accept"@ && r@[0].value@ == "application/vnd.github+json"@,
        r@[1].name@ == "X-GitHub-Api-Version"@ && r@[1].value@ == "2022-11-28"@,
        client.token matches Some(t) ==> r@[2].name@ == "Authorization"@ && r@[2].value@ == "Bearer "@
            + t@,
{
    let texts = api::header_texts(r@);
    assert(texts.len() == r@.len());
    assert(texts[0] == (r@[0].name@, r@[0].value@));
    assert(texts[1] == (r@[1].name@, r@[1].value@));
    if client.token is Some {
        assert(texts[2] == (r@[2].name@, r@[2].value@));
    }
}

/// The token of the environment goes before the one of the configuration.
pub proof fn law_environment_goes_first(
    env_token: Option<String>,
    config_token: Option<String>,
    r: Option<String>,
)
    requires
        call_ensures(GithubClient::resolve_token, (env_token, config_token), r),
    ensures
        env_token is Some ==> r == env_token,
        env_token is None ==> r == config_token,
{
}

/// Releases are asked for below the repository: all of them, the latest, or the one of a tag.
pub proof fn law_releases_are_below_the_repository(
    repo: &str,
    tag: &str,
    all: String,
    latest: String,
    one: String,
)
    requires
        call_ensures(GithubClient::releases_url, (repo,), all),
        call_ensures(GithubClient::latest_release_url, (repo,), latest),
        call_ensures(GithubClient::tag_release_url, (repo, tag), one),
    ensures
        all@ == "https://api.github.com/repos/"@ + repo@ + "/releases"@,
        latest@ == all@ + "/latest"@,
        one@ == all@ + "/tags/"@ + tag@,
{
    reveal_strlit("/releases");
    reveal_strlit("/latest");
    reveal_strlit("/tags/");
    reveal_strlit("/releases/latest");
    reveal_strlit("/releases/tags/");
    let base = "https://api.github.com/repos/"@ + repo@;
    assert("/releases"@ + "/latest"@ =~= "/releases/latest"@);
    assert("/releases"@ + "/tags/"@ =~= "/releases/tags/"@);
    assert(latest@ =~= all@ + "/latest"@);
    assert(one@ =~= all@ + "/tags/"@ + tag@);
}

/// The body of a reply of success is read. A refusal that tells when the limit is reset is that error,
/// with that moment. The body of any other reply tells the error.
pub proof fn law_status_tells_how_to_go_on(status: u16, reset: Option<String>, r: ReplyStep)
    requires
        call_ensures(GithubClient::list_releases, (status, reset), r),
    ensures
        200 <= status <= 299 ==> r is ReadBody,
        status == 403 ==> (reset matches Some(t) ==> r == ReplyStep::Fail(
            GhrError::RateLimitExceeded { reset_time: t },
        )),
        status == 403 && reset is None ==> r is ReadError,
        (status < 200 || status > 299) && status != 403 ==> r is ReadError,
{
}

/// The latest release is not read again if it did not change; else the reply is treated as any other.
pub proof fn law_unchanged_release_is_not_read(
    status: u16,
    reset: Option<String>,
    list: ReplyStep,
    r: ReplyStep,
)
    requires
        call_ensures(GithubClient::get_latest_release, (status, reset), r),
        call_ensures(GithubClient::list_releases, (status, reset), list),
    ensures
        status == 304 <==> r is NotModified,
        status != 304 ==> r == list,
{
}

/// The error of a reply has its status and its body.
pub proof fn law_error_has_status_and_body(status: u16, body: String, r: GhrError)
    requires
        call_ensures(GithubClient::api_error, (status, body), r),
    ensures
        r matches GhrError::ApiError { status: s, message } && s == status && message == body,
{
}

/// A request for the latest release says the ETag that is known, and no other header.
pub proof fn law_known_etag_is_said(etag: Option<&str>, r: Vec<Header>)
    requires
        call_ensures(api::latest_release_headers, (etag,), r),
    ensures
        etag is None ==> r@.len() == 0,
        etag matches Some(t) ==> r@.len() == 1 && r@[0].name@ == "If-None-Match"@ && r@[0].value@
            == t@,
{
    let texts = api::header_texts(r@);
    assert(texts.len() == r@.len());
    if etag is Some {
        assert(texts[0] == (r@[0].name@, r@[0].value@));
    }
}

/// A release that was read is news, with the ETag of the reply.
pub proof fn law_read_release_keeps_its_etag(
    release: Release,
    etag: Option<String>,
    r: ConditionalResult<Release>,
)
    requires
        call_ensures(api::latest_release_found, (release, etag), r),
    ensures
        r matches ConditionalResult::Changed(resp) && resp.data == release && resp.etag == etag,
{
}

/// A warning comes exactly if the header tells a number from 1 to 9. It says the number, and how to get
/// more if there is no token.
pub proof fn law_few_requests_are_warned_of(
    client: &GithubClient,
    remaining: Option<&str>,
    n: Option<u32>,
    r: Option<String>,
)
    requires
        call_ensures(GithubClient::check_rate_limit, (client, remaining), r),
        remaining matches Some(t) ==> call_ensures(decimal::parse_u32, (t,), n),
    ensures
        remaining is None ==> r is None,
        remaining is Some ==> (r is Some <==> n is Some && 1 <= n->0 <= 9),
        r matches Some(w) ==> w@ == "GitHub API rate limit almost exhausted ("@ + seq![
            ('0' as u32 + n->0) as char,
        ] + " requests remaining)."@ + if client.token is None {
            " Set GITHUB_TOKEN to increase the limit."@
        } else {
            Seq::<char>::empty()
        },
{
    if let Some(w) = r {
        let k = n->0;
        assert(decimal::decimal(k as nat) =~= seq![('0' as u32 + k) as char]);
        let base = "GitHub API rate limit almost exhausted ("@ + decimal::decimal(k as nat)
            + " requests remaining)."@;
        assert(base + Seq::<char>::empty() =~= base);
    }
}

} // verus!
