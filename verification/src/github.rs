//! GitHub integration: the OAuth authorisation URL, the API endpoints and
//! payloads the client uses, repository search, and the records it reads.
use vstd::prelude::*;
use vstd::utf8::encode_utf8;
use crate::json::JsonValue;
use crate::num::{decimal, fmt_u64};
use crate::pipeline::strings_view;
use crate::repository::{lowercase_text, to_lowercase};
use crate::text::{append_chars, append_str, chars_of, has_sub, has_sub_exec, owned, string_of};

verus! {

/// GitHub OAuth configuration.
#[derive(Debug, Clone)]
pub struct GitHubConfig {
    pub client_id: String,
    pub client_secret: String,
    pub redirect_uri: String,
}

/// Whether percent-encoding leaves a byte as it is: ASCII letters and
/// digits, `-`, `.`, `_` and `~`.
pub open spec fn url_safe(b: u8) -> bool {
    (48 <= b <= 57) || (65 <= b <= 90) || (97 <= b <= 122) || b == 45 || b == 46 || b == 95 || b == 126
}

/// An upper-case hexadecimal digit.
pub open spec fn upper_hex_digit(d: int) -> char {
    if d < 10 {
        ((48 + d) as u8) as char
    } else {
        ((55 + d) as u8) as char
    }
}

/// What one byte becomes: itself where it is safe, else `%` and its two
/// upper-case hexadecimal digits.
pub open spec fn url_byte_text(b: u8) -> Seq<char> {
    if url_safe(b) {
        seq![b as char]
    } else {
        seq!['%', upper_hex_digit((b / 16) as int), upper_hex_digit((b % 16) as int)]
    }
}

pub open spec fn url_encoded_bytes(bs: Seq<u8>) -> Seq<char>
    decreases bs.len(),
{
    if bs.len() == 0 {
        Seq::empty()
    } else {
        url_encoded_bytes(bs.drop_last()) + url_byte_text(bs.last())
    }
}

/// The percent-encoding of a text: each byte of its UTF-8 encoding in
/// turn.
pub open spec fn url_encoded(s: Seq<char>) -> Seq<char> {
    url_encoded_bytes(encode_utf8(s))
}

/// Calls `urlencoding::encode`, which percent-encodes every UTF-8 byte
/// except ASCII letters, digits and `-`, `_`, `.`, `~`, with upper-case
/// hexadecimal digits.
#[verifier::external_body]
fn url_encode(s: &str) -> (r: String)
    ensures
        r@ == url_encoded(s@),
{
    urlencoding::encode(s).into_owned()
}

impl GitHubConfig {
    /// The OAuth configuration from the `GITHUB_CLIENT_ID`,
    /// `GITHUB_CLIENT_SECRET` and `GITHUB_REDIRECT_URI` settings: none
    /// without a client id and secret; the local callback as the default
    /// redirect.
    pub fn from_settings(
        client_id: Option<String>,
        client_secret: Option<String>,
        redirect_uri: Option<String>,
    ) -> (r: Option<Self>)
        ensures
            r is Some <==> (client_id is Some && client_secret is Some),
            r matches Some(c) ==> {
                &&& Some(c.client_id) == client_id
                &&& Some(c.client_secret) == client_secret
                &&& c.redirect_uri@ == match redirect_uri {
                    Some(u) => u@,
                    None => "http://localhost:30080/auth/github/callback"@,
                }
            },
    {
        let client_id = match client_id {
            Some(v) => v,
            None => {
                return None;
            },
        };
        let client_secret = match client_secret {
            Some(v) => v,
            None => {
                return None;
            },
        };
        let redirect_uri = match redirect_uri {
            Some(u) => u,
            None => owned("http://localhost:30080/auth/github/callback"),
        };
        Some(GitHubConfig { client_id, client_secret, redirect_uri })
    }

    /// The OAuth authorisation URL, asking for the `repo` and `read:user`
    /// scopes, with the redirect URI encoded.
    pub fn auth_url(&self, state: &str) -> (r: String)
        ensures
            r@ == "https://github.com/login/oauth/authorize?client_id="@ + self.client_id@
                + "&redirect_uri="@ + url_encoded(self.redirect_uri@) + "&scope="@ + "repo,read:user"@
                + "&state="@ + state@,
    {
        let mut out = chars_of("https://github.com/login/oauth/authorize?client_id=");
        append_str(&mut out, self.client_id.as_str());
        append_str(&mut out, "&redirect_uri=");
        let enc = url_encode(self.redirect_uri.as_str());
        append_str(&mut out, enc.as_str());
        append_str(&mut out, "&scope=");
        append_str(&mut out, "repo,read:user");
        append_str(&mut out, "&state=");
        append_str(&mut out, state);
        string_of(out.as_slice())
    }
}

/// The token exchange answer.
#[derive(Debug, Clone)]
pub struct TokenResponse {
    pub access_token: String,
    pub token_type: String,
    pub scope: String,
}

/// A GitHub user.
#[derive(Debug, Clone)]
pub struct GitHubUser {
    pub id: i64,
    pub login: String,
    pub name: Option<String>,
    pub email: Option<String>,
    pub avatar_url: String,
}

/// Owner of a repository.
#[derive(Debug, Clone)]
pub struct RepoOwner {
    pub login: String,
    pub id: i64,
    pub avatar_url: String,
}

/// A GitHub repository.
#[derive(Debug, Clone)]
pub struct GitHubRepo {
    pub id: i64,
    pub name: String,
    pub full_name: String,
    pub owner: RepoOwner,
    pub private: bool,
    pub html_url: String,
    pub clone_url: String,
    pub default_branch: String,
    pub description: Option<String>,
    pub language: Option<String>,
    pub updated_at: String,
}

/// Webhook settings as GitHub reports them.
#[derive(Debug, Clone)]
pub struct WebhookConfig {
    pub url: String,
    pub content_type: String,
}

/// A created webhook.
#[derive(Debug, Clone)]
pub struct WebhookResponse {
    pub id: i64,
    pub active: bool,
    pub events: Vec<String>,
    pub config: WebhookConfig,
}

/// GitHub client errors.
#[derive(Debug)]
pub enum GitHubError {
    Request(String),
    Api(String),
    Parse(String),
}

impl GitHubError {
    pub fn message(&self) -> (r: String)
        ensures
            r@ == match self {
                GitHubError::Request(m) => "Request failed: "@ + m@,
                GitHubError::Api(m) => "API error: "@ + m@,
                GitHubError::Parse(m) => "Parse error: "@ + m@,
            },
    {
        let (p, m) = match self {
            GitHubError::Request(m) => ("Request failed: ", m),
            GitHubError::Api(m) => ("API error: ", m),
            GitHubError::Parse(m) => ("Parse error: ", m),
        };
        let mut out = chars_of(p);
        append_str(&mut out, m.as_str());
        string_of(out.as_slice())
    }
}

/// The token exchange fails when the answer holds no access token.
pub fn check_token(token: TokenResponse) -> (r: Result<TokenResponse, GitHubError>)
    ensures
        token.access_token@.len() == 0 ==> (r matches Err(GitHubError::Api(m)) && m@
            == "No access token in response"@),
        token.access_token@.len() > 0 ==> r == Ok::<TokenResponse, GitHubError>(token),
{
    if token.access_token.as_str().is_empty() {
        Err(GitHubError::Api(owned("No access token in response")))
    } else {
        Ok(token)
    }
}

/// The endpoint that lists the user's repositories, most recently updated
/// first.
pub fn list_repos_url(page: u32, per_page: u32) -> (r: String)
    ensures
        r@ == "https://api.github.com/user/repos?sort=updated&direction=desc&page="@ + decimal(
            page as nat,
        ) + "&per_page="@ + decimal(per_page as nat) + "&type=all"@,
{
    let mut out = chars_of("https://api.github.com/user/repos?sort=updated&direction=desc&page=");
    append_chars(&mut out, fmt_u64(page as u64).as_slice());
    append_str(&mut out, "&per_page=");
    append_chars(&mut out, fmt_u64(per_page as u64).as_slice());
    append_str(&mut out, "&type=all");
    string_of(out.as_slice())
}

/// The endpoint of one repository.
pub fn repo_url(owner: &str, repo: &str) -> (r: String)
    ensures
        r@ == "https://api.github.com/repos/"@ + owner@ + "/"@ + repo@,
{
    let mut out = chars_of("https://api.github.com/repos/");
    append_str(&mut out, owner);
    append_str(&mut out, "/");
    append_str(&mut out, repo);
    string_of(out.as_slice())
}

/// The endpoint of a repository's webhooks.
pub fn hooks_url(owner: &str, repo: &str) -> (r: String)
    ensures
        r@ == "https://api.github.com/repos/"@ + owner@ + "/"@ + repo@ + "/hooks"@,
{
    let mut out = chars_of("https://api.github.com/repos/");
    append_str(&mut out, owner);
    append_str(&mut out, "/");
    append_str(&mut out, repo);
    append_str(&mut out, "/hooks");
    string_of(out.as_slice())
}

/// The `Authorization` header value for a token.
pub fn bearer(token: &str) -> (r: String)
    ensures
        r@ == "Bearer "@ + token@,
{
    let mut out = chars_of("Bearer ");
    append_str(&mut out, token);
    string_of(out.as_slice())
}

fn member(k: &str, v: JsonValue) -> (r: (String, JsonValue))
    ensures
        r.0@ == k@,
        r.1 == v,
{
    (owned(k), v)
}

/// The request body that creates a push and pull-request webhook posting
/// JSON, signed with `secret`, to `webhook_url`.
pub fn webhook_payload(webhook_url: &str, secret: &str) -> (r: JsonValue)
    ensures
        r is Object,
        r->Object_0.len() == 4,
        r->Object_0@[0].0@ == "name"@,
        r->Object_0@[0].1 matches JsonValue::String(s) && s@ == "web"@,
        r->Object_0@[1].0@ == "active"@,
        r->Object_0@[1].1 == JsonValue::Bool(true),
        r->Object_0@[2].0@ == "events"@,
        r->Object_0@[2].1 matches JsonValue::Array(a) && a.len() == 2 && (a@[0] matches JsonValue::String(
            s,
        ) && s@ == "push"@) && (a@[1] matches JsonValue::String(s) && s@ == "pull_request"@),
        r->Object_0@[3].0@ == "config"@,
        r->Object_0@[3].1 matches JsonValue::Object(c) && c.len() == 4 && c@[0].0@ == "url"@ && (
        c@[0].1 matches JsonValue::String(s) && s@ == webhook_url@) && c@[1].0@ == "content_type"@
            && (c@[1].1 matches JsonValue::String(s) && s@ == "json"@) && c@[2].0@ == "secret"@ && (
        c@[2].1 matches JsonValue::String(s) && s@ == secret@) && c@[3].0@ == "insecure_ssl"@ && (
        c@[3].1 matches JsonValue::String(s) && s@ == "0"@),
{
    let mut events: Vec<JsonValue> = Vec::new();
    events.push(JsonValue::String(owned("push")));
    events.push(JsonValue::String(owned("pull_request")));
    let mut config: Vec<(String, JsonValue)> = Vec::new();
    config.push(member("url", JsonValue::String(owned(webhook_url))));
    config.push(member("content_type", JsonValue::String(owned("json"))));
    config.push(member("secret", JsonValue::String(owned(secret))));
    config.push(member("insecure_ssl", JsonValue::String(owned("0"))));
    let mut ms: Vec<(String, JsonValue)> = Vec::new();
    ms.push(member("name", JsonValue::String(owned("web"))));
    ms.push(member("active", JsonValue::Bool(true)));
    ms.push(member("events", JsonValue::Array(events)));
    ms.push(member("config", JsonValue::Object(config)));
    JsonValue::Object(ms)
}

/// A repository matches a search when its name or full name, in lower
/// case, contains the lower-cased query.
pub open spec fn repo_matches(r: GitHubRepo, query: Seq<char>) -> bool {
    has_sub(lowercase_text(r.name@), lowercase_text(query)) || has_sub(
        lowercase_text(r.full_name@),
        lowercase_text(query),
    )
}

/// The repositories that match a search, in order.
pub open spec fn search_result(repos: Seq<GitHubRepo>, query: Seq<char>) -> Seq<GitHubRepo> {
    repos.filter(|r: GitHubRepo| repo_matches(r, query))
}

/// Keeps the repositories whose name or full name contains the query,
/// ignoring case.
pub fn filter_repos(repos: Vec<GitHubRepo>, query: &str) -> (r: Vec<GitHubRepo>)
    ensures
        r@ == search_result(repos@, query@),
{
    let q = to_lowercase(query);
    let qc = chars_of(q.as_str());
    let mut out: Vec<GitHubRepo> = Vec::new();
    let ghost rs = repos@;
    let mut repos = repos;
    let mut i: usize = 0;
    let n = repos.len();
    while i < n
        invariant
            n == rs.len(),
            i <= n,
            repos@ == rs.skip(i as int),
            qc@ == lowercase_text(query@),
            out@ == search_result(rs.take(i as int), query@),
        decreases n - i,
    {
        let r = repos.remove(0);
        assert(r == rs[i as int]);
        assert(repos@ =~= rs.skip(i + 1));
        assert(rs.take(i + 1).drop_last() =~= rs.take(i as int));
        assert(rs.take(i + 1).last() == r);
        let nm = to_lowercase(r.name.as_str());
        let f = to_lowercase(r.full_name.as_str());
        let m = has_sub_exec(chars_of(nm.as_str()).as_slice(), qc.as_slice()) || has_sub_exec(
            chars_of(f.as_str()).as_slice(),
            qc.as_slice(),
        );
        proof {
            reveal(Seq::filter);
        }
        assert(m == repo_matches(r, query@));
        if m {
            out.push(r);
        }
        i = i + 1;
    }
    assert(rs.take(i as int) =~= rs);
    out
}

} // verus!
