//! Connected Git repositories: providers, the configuration found in a
//! repository, and push events read from GitHub webhook payloads.
use vstd::prelude::*;
use crate::ids::ResourceId;
use crate::json::{as_str_spec, get_spec, json_as_array, json_as_str, json_get, json_str_at, str_at, JsonValue};
use crate::num::{decimal, fmt_u128, fmt_u64};
use crate::pipeline::strings_view;
use crate::text::{append_chars, append_str, chars_of, eq_str, owned, slice_chars, starts_with, starts_with_exec, string_of};
use crate::time::{instant_of, parse_rfc3339, rfc3339_instant, Timestamp};

verus! {

/// Git provider type.
#[derive(Debug, Clone, Copy, PartialEq, Eq, Structural)]
pub enum GitProvider {
    Github,
    Gitlab,
    Bitbucket,
}

/// The characters that `str::to_lowercase` gives for a text.
pub uninterp spec fn lowercase_text(s: Seq<char>) -> Seq<char>;

/// Calls `str::to_lowercase`.
#[verifier::external_body]
pub(crate) fn to_lowercase(s: &str) -> (r: String)
    ensures
        r@ == lowercase_text(s@),
{
    s.to_lowercase()
}

impl GitProvider {
    pub open spec fn text(self) -> Seq<char> {
        match self {
            GitProvider::Github => "github"@,
            GitProvider::Gitlab => "gitlab"@,
            GitProvider::Bitbucket => "bitbucket"@,
        }
    }

    /// The provider that a lower-cased name names.
    pub open spec fn from_lower(lower: Seq<char>) -> Option<GitProvider> {
        if lower == "github"@ {
            Some(GitProvider::Github)
        } else if lower == "gitlab"@ {
            Some(GitProvider::Gitlab)
        } else if lower == "bitbucket"@ {
            Some(GitProvider::Bitbucket)
        } else {
            None
        }
    }

    /// The name under which the provider is shown.
    pub fn as_str(&self) -> (r: &'static str)
        ensures
            r@ == self.text(),
    {
        match *self {
            GitProvider::Github => "github",
            GitProvider::Gitlab => "gitlab",
            GitProvider::Bitbucket => "bitbucket",
        }
    }

    /// The provider named by `lower`, the lower-cased form of `name`; an
    /// unknown name is answered `Unknown git provider: <name>`.
    pub fn from_lowercased(lower: &str, name: &str) -> (r: Result<GitProvider, String>)
        ensures
            match GitProvider::from_lower(lower@) {
                Some(p) => r == Ok::<GitProvider, String>(p),
                None => r matches Err(m) && m@ == "Unknown git provider: "@ + name@,
            },
    {
        let c = chars_of(lower);
        if eq_str(c.as_slice(), "github") {
            Ok(GitProvider::Github)
        } else if eq_str(c.as_slice(), "gitlab") {
            Ok(GitProvider::Gitlab)
        } else if eq_str(c.as_slice(), "bitbucket") {
            Ok(GitProvider::Bitbucket)
        } else {
            let mut m = chars_of("Unknown git provider: ");
            append_str(&mut m, name);
            Err(string_of(m.as_slice()))
        }
    }

    /// Reads a provider name in any letter case.
    pub fn parse_name(name: &str) -> (r: Result<GitProvider, String>)
        ensures
            match GitProvider::from_lower(lowercase_text(name@)) {
                Some(p) => r == Ok::<GitProvider, String>(p),
                None => r matches Err(m) && m@ == "Unknown git provider: "@ + name@,
            },
    {
        let lower = to_lowercase(name);
        GitProvider::from_lowercased(lower.as_str(), name)
    }
}

/// A provider's own name reads back as that provider.
pub proof fn lemma_git_provider_round_trip(p: GitProvider)
    ensures
        GitProvider::from_lower(p.text()) == Some(p),
{
    reveal_strlit("github");
    reveal_strlit("gitlab");
    reveal_strlit("bitbucket");
    assert("github"@[3] != "gitlab"@[3]);
    assert("github"@ != "gitlab"@);
    assert("github"@.len() != "bitbucket"@.len());
    assert("gitlab"@.len() != "bitbucket"@.len());
}

impl std::str::FromStr for GitProvider {
    type Err = String;

    /// Reads a provider name in any letter case, as `parse_name` does.
    fn from_str(s: &str) -> (r: Result<Self, Self::Err>)
        ensures
            match GitProvider::from_lower(lowercase_text(s@)) {
                Some(p) => r == Ok::<GitProvider, String>(p),
                None => r matches Err(m) && m@ == "Unknown git provider: "@ + s@,
            },
    {
        GitProvider::parse_name(s)
    }
}

/// The host a provider's repositories are cloned from.
pub open spec fn provider_host(p: GitProvider) -> Seq<char> {
    match p {
        GitProvider::Github => "https://github.com/"@,
        GitProvider::Gitlab => "https://gitlab.com/"@,
        GitProvider::Bitbucket => "https://bitbucket.org/"@,
    }
}

/// What connecting a repository records: the provider named in the
/// request (any letter case), the clone URL on the provider's host, and
/// `owner/name` as the repository's id and full name; an unknown provider
/// is a bad request carrying the parser's message.
pub fn connection_details(provider: &str, owner: &str, name: &str) -> (r: Result<
    (GitProvider, String, String),
    crate::errors::ApiError,
>)
    ensures
        match GitProvider::from_lower(lowercase_text(provider@)) {
            Some(p) => r matches Ok((q, url, id)) && q == p && url@ == provider_host(p) + owner@ + "/"@
                + name@ + ".git"@ && id@ == owner@ + "/"@ + name@,
            None => r matches Err(crate::errors::ApiError::BadRequest(m)) && m@
                == "Unknown git provider: "@ + provider@,
        },
{
    let p = match GitProvider::parse_name(provider) {
        Ok(p) => p,
        Err(m) => {
            return Err(crate::errors::ApiError::BadRequest(m));
        },
    };
    let host = match p {
        GitProvider::Github => "https://github.com/",
        GitProvider::Gitlab => "https://gitlab.com/",
        GitProvider::Bitbucket => "https://bitbucket.org/",
    };
    let mut url = chars_of(host);
    append_str(&mut url, owner);
    append_str(&mut url, "/");
    append_str(&mut url, name);
    append_str(&mut url, ".git");
    let mut id = chars_of(owner);
    append_str(&mut id, "/");
    append_str(&mut id, name);
    Ok((p, string_of(url.as_slice()), string_of(id.as_slice())))
}

/// Configuration files detected in a repository.
#[derive(Debug, Clone)]
pub struct DetectedConfig {
    /// Path to `.buildit.kdl` if found.
    pub buildit_config: Option<String>,
    /// Paths to Terraform files (`.tf`).
    pub terraform_files: Vec<String>,
    /// Directories containing `.tf` files.
    pub terraform_dirs: Vec<String>,
    /// Kubernetes manifest files.
    pub kubernetes_files: Vec<String>,
    /// Directories containing Kubernetes manifests.
    pub kubernetes_dirs: Vec<String>,
    /// Dockerfile paths.
    pub dockerfiles: Vec<String>,
    /// Helm chart directories (containing `Chart.yaml`).
    pub helm_charts: Vec<String>,
    /// Other notable files (`docker-compose.yml`, `Makefile`, ...).
    pub other_files: Vec<String>,
}

impl Default for DetectedConfig {
    /// Nothing detected, as `new` makes it.
    fn default() -> (r: Self)
        ensures
            r.buildit_config is None,
            r.terraform_files.len() == 0,
            r.terraform_dirs.len() == 0,
            r.kubernetes_files.len() == 0,
            r.kubernetes_dirs.len() == 0,
            r.dockerfiles.len() == 0,
            r.helm_charts.len() == 0,
            r.other_files.len() == 0,
    {
        DetectedConfig::new()
    }
}

impl DetectedConfig {
    pub fn new() -> (r: Self)
        ensures
            r.buildit_config is None,
            r.terraform_files.len() == 0,
            r.terraform_dirs.len() == 0,
            r.kubernetes_files.len() == 0,
            r.kubernetes_dirs.len() == 0,
            r.dockerfiles.len() == 0,
            r.helm_charts.len() == 0,
            r.other_files.len() == 0,
    {
        DetectedConfig {
            buildit_config: None,
            terraform_files: Vec::new(),
            terraform_dirs: Vec::new(),
            kubernetes_files: Vec::new(),
            kubernetes_dirs: Vec::new(),
            dockerfiles: Vec::new(),
            helm_charts: Vec::new(),
            other_files: Vec::new(),
        }
    }

    /// Whether any Terraform directory was found.
    pub fn has_terraform(&self) -> (b: bool)
        ensures
            b == (self.terraform_dirs.len() > 0),
    {
        self.terraform_dirs.len() > 0
    }

    /// Whether any Kubernetes manifest directory or Helm chart was found.
    pub fn has_kubernetes(&self) -> (b: bool)
        ensures
            b == (self.kubernetes_dirs.len() > 0 || self.helm_charts.len() > 0),
    {
        self.kubernetes_dirs.len() > 0 || self.helm_charts.len() > 0
    }

    /// Whether a BuildIt pipeline configuration was found.
    pub fn has_pipeline(&self) -> (b: bool)
        ensures
            b == self.buildit_config is Some,
    {
        self.buildit_config.is_some()
    }

    /// Whether any Dockerfile was found.
    pub fn has_dockerfile(&self) -> (b: bool)
        ensures
            b == (self.dockerfiles.len() > 0),
    {
        self.dockerfiles.len() > 0
    }

    /// What can be created from the configuration, one line per kind.
    pub open spec fn summary_spec(&self) -> Seq<Seq<char>> {
        let a = if self.terraform_dirs.len() > 0 {
            seq![decimal(self.terraform_dirs.len() as nat) + " Terraform stack(s)"@]
        } else {
            Seq::empty()
        };
        let b = if self.buildit_config is Some {
            seq!["1 Pipeline"@]
        } else {
            Seq::empty()
        };
        let c = if self.kubernetes_dirs.len() > 0 || self.helm_charts.len() > 0 {
            seq![decimal((self.kubernetes_dirs.len() + self.helm_charts.len()) as nat) + " Application(s)"@]
        } else {
            Seq::empty()
        };
        let d = if self.dockerfiles.len() > 0 {
            seq![decimal(self.dockerfiles.len() as nat) + " Dockerfile(s)"@]
        } else {
            Seq::empty()
        };
        a + b + c + d
    }

    /// Summary of what can be created from this configuration.
    pub fn summary(&self) -> (r: Vec<String>)
        ensures
            strings_view(r@) == self.summary_spec(),
    {
        let mut items: Vec<String> = Vec::new();
        if self.has_terraform() {
            let mut t = fmt_u64(self.terraform_dirs.len() as u64);
            append_str(&mut t, " Terraform stack(s)");
            items.push(string_of(t.as_slice()));
        }
        let ghost a = strings_view(items@);
        if self.has_pipeline() {
            items.push(owned("1 Pipeline"));
        }
        let ghost b = strings_view(items@);
        if self.has_kubernetes() {
            let n = self.kubernetes_dirs.len() as u128 + self.helm_charts.len() as u128;
            let mut t = fmt_u128(n);
            append_str(&mut t, " Application(s)");
            items.push(string_of(t.as_slice()));
        }
        let ghost c = strings_view(items@);
        if self.has_dockerfile() {
            let mut t = fmt_u64(self.dockerfiles.len() as u64);
            append_str(&mut t, " Dockerfile(s)");
            items.push(string_of(t.as_slice()));
        }
        assert(strings_view(items@) =~= self.summary_spec());
        items
    }
}

/// Commit information from a push event.
#[derive(Debug, Clone)]
pub struct CommitInfo {
    pub sha: String,
    pub message: String,
    pub author: String,
    pub author_email: String,
    pub timestamp: Option<Timestamp>,
    pub added: Vec<String>,
    pub modified: Vec<String>,
    pub removed: Vec<String>,
}

/// A push event read from a webhook payload.
#[derive(Debug, Clone)]
pub struct PushEvent {
    /// The full ref that was pushed (`refs/heads/main`).
    pub ref_name: String,
    pub before: String,
    pub after: String,
    pub repository_full_name: String,
    pub branch: Option<String>,
    pub tag: Option<String>,
    pub commits: Vec<CommitInfo>,
    pub head_commit: Option<CommitInfo>,
    pub pusher: String,
}

/// `v.a.b` as a string.
pub open spec fn str_at2(v: JsonValue, a: Seq<char>, b: Seq<char>) -> Option<Seq<char>> {
    match get_spec(v, a) {
        Some(x) => str_at(x, b),
        None => None,
    }
}

pub open spec fn or_text(o: Option<Seq<char>>, d: Seq<char>) -> Seq<char> {
    match o {
        Some(s) => s,
        None => d,
    }
}

/// The strings among the items of an array, in order.
pub open spec fn strings_in(items: Seq<JsonValue>) -> Seq<Seq<char>>
    decreases items.len(),
{
    if items.len() == 0 {
        Seq::empty()
    } else {
        let rest = strings_in(items.drop_last());
        match as_str_spec(items.last()) {
            Some(s) => rest.push(s),
            None => rest,
        }
    }
}

/// The strings listed under `v.key`, none where it is not an array.
pub open spec fn string_list_at(v: JsonValue, key: Seq<char>) -> Seq<Seq<char>> {
    match get_spec(v, key) {
        Some(JsonValue::Array(a)) => strings_in(a@),
        _ => Seq::empty(),
    }
}

/// A commit object has an `id` and a `message` string.
pub open spec fn commit_readable(v: JsonValue) -> bool {
    str_at(v, "id"@) is Some && str_at(v, "message"@) is Some
}

pub open spec fn read_instant_text(o: Option<Seq<char>>) -> Option<Timestamp> {
    match o {
        Some(t) => instant_of(rfc3339_instant(t)),
        None => None,
    }
}

/// The commit read from a readable commit object.
pub open spec fn commit_ok(v: JsonValue, c: CommitInfo) -> bool {
    &&& c.sha@ == str_at(v, "id"@)->0
    &&& c.message@ == str_at(v, "message"@)->0
    &&& c.author@ == or_text(str_at2(v, "author"@, "name"@), "unknown"@)
    &&& c.author_email@ == or_text(str_at2(v, "author"@, "email"@), Seq::empty())
    &&& c.timestamp == read_instant_text(str_at(v, "timestamp"@))
    &&& strings_view(c.added@) == string_list_at(v, "added"@)
    &&& strings_view(c.modified@) == string_list_at(v, "modified"@)
    &&& strings_view(c.removed@) == string_list_at(v, "removed"@)
}

/// The commits read from the readable objects among `items`, in order.
pub open spec fn commits_ok(items: Seq<JsonValue>, cs: Seq<CommitInfo>) -> bool
    decreases items.len(),
{
    if items.len() == 0 {
        cs.len() == 0
    } else if commit_readable(items.last()) {
        cs.len() > 0 && commits_ok(items.drop_last(), cs.drop_last()) && commit_ok(
            items.last(),
            cs.last(),
        )
    } else {
        commits_ok(items.drop_last(), cs)
    }
}

pub open spec fn after_prefix(s: Seq<char>, p: Seq<char>) -> Option<Seq<char>> {
    if starts_with(s, p) {
        Some(s.skip(p.len() as int))
    } else {
        None
    }
}

pub open spec fn opt_string_view(o: Option<String>) -> Option<Seq<char>> {
    match o {
        Some(s) => Some(s@),
        None => None,
    }
}

/// A payload is a push event when it has `ref`, `before`, `after` and
/// `repository.full_name` strings.
pub open spec fn push_readable(p: JsonValue) -> bool {
    &&& str_at(p, "ref"@) is Some
    &&& str_at(p, "before"@) is Some
    &&& str_at(p, "after"@) is Some
    &&& str_at2(p, "repository"@, "full_name"@) is Some
}

/// The push event read from a readable payload.
pub open spec fn push_ok(p: JsonValue, e: PushEvent) -> bool {
    let r = str_at(p, "ref"@)->0;
    &&& e.ref_name@ == r
    &&& e.before@ == str_at(p, "before"@)->0
    &&& e.after@ == str_at(p, "after"@)->0
    &&& e.repository_full_name@ == str_at2(p, "repository"@, "full_name"@)->0
    &&& opt_string_view(e.branch) == after_prefix(r, "refs/heads/"@)
    &&& opt_string_view(e.tag) == after_prefix(r, "refs/tags/"@)
    &&& match get_spec(p, "commits"@) {
        Some(JsonValue::Array(a)) => commits_ok(a@, e.commits@),
        _ => e.commits.len() == 0,
    }
    &&& match get_spec(p, "head_commit"@) {
        Some(h) => if commit_readable(h) {
            e.head_commit matches Some(c) && commit_ok(h, c)
        } else {
            e.head_commit is None
        },
        None => e.head_commit is None,
    }
    &&& e.pusher@ == or_text(str_at2(p, "pusher"@, "name"@), "unknown"@)
}

fn str_at2_exec<'a>(v: &'a JsonValue, a: &str, b: &str) -> (r: Option<&'a str>)
    ensures
        match r {
            Some(s) => str_at2(*v, a@, b@) == Some(s@),
            None => str_at2(*v, a@, b@) is None,
        },
{
    match json_get(v, a) {
        Some(x) => json_str_at(x, b),
        None => None,
    }
}

fn string_list_exec(v: &JsonValue, key: &str) -> (r: Vec<String>)
    ensures
        strings_view(r@) == string_list_at(*v, key@),
{
    let mut out: Vec<String> = Vec::new();
    match json_get(v, key) {
        Some(x) => match json_as_array(x) {
            Some(a) => {
                let mut i: usize = 0;
                while i < a.len()
                    invariant
                        i <= a.len(),
                        strings_view(out@) == strings_in(a@.take(i as int)),
                    decreases a.len() - i,
                {
                    assert(a@.take(i + 1).drop_last() =~= a@.take(i as int));
                    if let Some(s) = json_as_str(&a[i]) {
                        let ghost before = out@;
                        out.push(owned(s));
                        assert(strings_view(out@) =~= strings_view(before).push(s@));
                    }
                    i = i + 1;
                }
                assert(a@.take(i as int) =~= a@);
            },
            None => {},
        },
        None => {},
    }
    out
}

fn text_or(o: Option<&str>, d: &str) -> (r: String)
    ensures
        r@ == match o {
            Some(s) => s@,
            None => d@,
        },
{
    match o {
        Some(s) => owned(s),
        None => owned(d),
    }
}

impl CommitInfo {
    /// Reads a commit object of a GitHub push payload; `None` where it has
    /// no `id` or `message` string.
    pub fn from_github_commit(value: &JsonValue) -> (r: Option<CommitInfo>)
        ensures
            match r {
                Some(c) => commit_readable(*value) && commit_ok(*value, c),
                None => !commit_readable(*value),
            },
    {
        let sha = match json_str_at(value, "id") {
            Some(s) => owned(s),
            None => {
                return None;
            },
        };
        let message = match json_str_at(value, "message") {
            Some(s) => owned(s),
            None => {
                return None;
            },
        };
        let author = text_or(str_at2_exec(value, "author", "name"), "unknown");
        let author_email = text_or(str_at2_exec(value, "author", "email"), "");
        proof {
            reveal_strlit("");
        }
        let timestamp = match json_str_at(value, "timestamp") {
            Some(t) => parse_rfc3339(t),
            None => None,
        };
        let added = string_list_exec(value, "added");
        let modified = string_list_exec(value, "modified");
        let removed = string_list_exec(value, "removed");
        let c = CommitInfo { sha, message, author, author_email, timestamp, added, modified, removed };
        assert(c.author_email@ == or_text(str_at2(*value, "author"@, "email"@), Seq::empty()));
        assert(c.timestamp == read_instant_text(str_at(*value, "timestamp"@)));
        assert(strings_view(c.added@) == string_list_at(*value, "added"@));
        Some(c)
    }
}

/// The rest of `s` after `prefix`, where `s` starts with it.
fn strip_prefix_exec(s: &str, prefix: &str) -> (r: Option<String>)
    ensures
        opt_string_view(r) == after_prefix(s@, prefix@),
{
    let c = chars_of(s);
    let p = chars_of(prefix);
    if starts_with_exec(c.as_slice(), p.as_slice()) {
        let rest = slice_chars(c.as_slice(), p.len(), c.len());
        assert(rest@ =~= s@.skip(prefix@.len() as int));
        Some(string_of(rest.as_slice()))
    } else {
        None
    }
}

impl PushEvent {
    /// Reads a GitHub push webhook payload; `None` where it lacks `ref`,
    /// `before`, `after` or `repository.full_name`.
    pub fn from_github_payload(payload: &JsonValue) -> (r: Option<PushEvent>)
        ensures
            match r {
                Some(e) => push_readable(*payload) && push_ok(*payload, e),
                None => !push_readable(*payload),
            },
    {
        let ref_name = match json_str_at(payload, "ref") {
            Some(s) => owned(s),
            None => {
                return None;
            },
        };
        let before = match json_str_at(payload, "before") {
            Some(s) => owned(s),
            None => {
                return None;
            },
        };
        let after = match json_str_at(payload, "after") {
            Some(s) => owned(s),
            None => {
                return None;
            },
        };
        let repository_full_name = match str_at2_exec(payload, "repository", "full_name") {
            Some(s) => owned(s),
            None => {
                return None;
            },
        };
        let branch = strip_prefix_exec(ref_name.as_str(), "refs/heads/");
        let tag = strip_prefix_exec(ref_name.as_str(), "refs/tags/");
        let mut commits: Vec<CommitInfo> = Vec::new();
        match json_get(payload, "commits") {
            Some(x) => match json_as_array(x) {
                Some(a) => {
                    let mut i: usize = 0;
                    while i < a.len()
                        invariant
                            i <= a.len(),
                            commits_ok(a@.take(i as int), commits@),
                        decreases a.len() - i,
                    {
                        assert(a@.take(i + 1).drop_last() =~= a@.take(i as int));
                        let ghost before = commits@;
                        if let Some(c) = CommitInfo::from_github_commit(&a[i]) {
                            commits.push(c);
                            assert(commits@.drop_last() =~= before);
                        }
                        i = i + 1;
                    }
                    assert(a@.take(i as int) =~= a@);
                },
                None => {},
            },
            None => {},
        }
        let head_commit = match json_get(payload, "head_commit") {
            Some(h) => CommitInfo::from_github_commit(h),
            None => None,
        };
        let pusher = text_or(str_at2_exec(payload, "pusher", "name"), "unknown");
        Some(
            PushEvent {
                ref_name,
                before,
                after,
                repository_full_name,
                branch,
                tag,
                commits,
                head_commit,
                pusher,
            },
        )
    }
}

/// A repository connected to the platform.
#[derive(Debug, Clone)]
pub struct Repository {
    pub id: ResourceId,
    pub organization_id: ResourceId,
    pub provider: GitProvider,
    pub provider_id: String,
    pub owner: String,
    pub name: String,
    pub full_name: String,
    pub clone_url: String,
    pub default_branch: String,
    pub is_private: bool,
    pub webhook_id: Option<String>,
    pub webhook_secret: Option<String>,
    pub last_synced_at: Option<Timestamp>,
    pub detected_config: DetectedConfig,
    pub created_at: Timestamp,
    pub updated_at: Timestamp,
}

/// Request to connect a repository.
#[derive(Debug, Clone)]
pub struct ConnectRepositoryRequest {
    pub provider: GitProvider,
    pub owner: String,
    pub name: String,
    /// Access token for a private repository.
    pub access_token: Option<String>,
}

/// A webhook delivery as received from a Git provider.
#[derive(Debug)]
pub struct WebhookEvent {
    pub id: ResourceId,
    pub repository_id: Option<ResourceId>,
    pub provider: GitProvider,
    pub event_type: String,
    pub payload: JsonValue,
    pub headers: JsonValue,
    pub signature: Option<String>,
    pub signature_valid: Option<bool>,
    pub processed: bool,
    pub processed_at: Option<Timestamp>,
    pub error_message: Option<String>,
    pub created_at: Timestamp,
}

} // verus!
