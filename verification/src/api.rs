//! Requests and responses of the HTTP API, and the small decisions its
//! handlers make on them: which executor to run on, how repository listings
//! are paged, which run a request asks for, what a variable shows.
use vstd::prelude::*;
use crate::errors::ApiError;
use crate::github::GitHubRepo;
use crate::ids::ResourceId;
use crate::repository::{lowercase_text, opt_string_view, to_lowercase, DetectedConfig, Repository};
use crate::stack::{Stack, StackRun, StackRunType};
use crate::time::{opt_rfc3339, rfc3339_of};
use crate::text::{append_str, chars_of, eq_str, owned, str_eq, string_of};

verus! {

/// Executor type to use for pipeline execution.
#[derive(Debug, Clone, Copy, PartialEq, Eq, Structural)]
pub enum ExecutorType {
    /// Kubernetes Jobs (chosen when running inside a cluster).
    Kubernetes,
    /// Local Docker containers.
    Docker,
}

impl Default for ExecutorType {
    fn default() -> (r: ExecutorType)
        ensures
            r == ExecutorType::Docker,
    {
        ExecutorType::Docker
    }
}

/// The executor asked for by a lower-cased setting, if it names one.
pub open spec fn executor_named(lower: Seq<char>) -> Option<ExecutorType> {
    if lower == "kubernetes"@ || lower == "k8s"@ {
        Some(ExecutorType::Kubernetes)
    } else if lower == "docker"@ || lower == "local"@ {
        Some(ExecutorType::Docker)
    } else {
        None
    }
}

/// The executor that auto-detection picks.
pub open spec fn executor_detected(in_kubernetes: bool) -> ExecutorType {
    if in_kubernetes {
        ExecutorType::Kubernetes
    } else {
        ExecutorType::Docker
    }
}

/// An explicit setting that names an executor wins; otherwise the executor
/// is detected from the environment.
pub open spec fn executor_choice(lower: Option<Seq<char>>, in_kubernetes: bool) -> ExecutorType {
    match lower {
        Some(l) => match executor_named(l) {
            Some(e) => e,
            None => executor_detected(in_kubernetes),
        },
        None => executor_detected(in_kubernetes),
    }
}

impl ExecutorType {
    /// The executor for a setting that is already in lower case (`None`
    /// where no setting is given) and for whether the process runs inside
    /// Kubernetes.
    pub fn from_lowered(lower: Option<&str>, in_kubernetes: bool) -> (r: ExecutorType)
        ensures
            r == executor_choice(
                match lower {
                    Some(l) => Some(l@),
                    None => None,
                },
                in_kubernetes,
            ),
    {
        if let Some(l) = lower {
            let c = chars_of(l);
            if eq_str(c.as_slice(), "kubernetes") || eq_str(c.as_slice(), "k8s") {
                return ExecutorType::Kubernetes;
            }
            if eq_str(c.as_slice(), "docker") || eq_str(c.as_slice(), "local") {
                return ExecutorType::Docker;
            }
        }
        if in_kubernetes {
            ExecutorType::Kubernetes
        } else {
            ExecutorType::Docker
        }
    }

    /// The executor for the `BUILDIT_EXECUTOR` setting (compared without
    /// regard to case) and for whether `KUBERNETES_SERVICE_HOST` is set.
    pub fn from_settings(executor: Option<&str>, in_kubernetes: bool) -> (r: ExecutorType)
        ensures
            r == executor_choice(
                match executor {
                    Some(e) => Some(lowercase_text(e@)),
                    None => None,
                },
                in_kubernetes,
            ),
    {
        match executor {
            Some(e) => {
                let lower = to_lowercase(e);
                ExecutorType::from_lowered(Some(lower.as_str()), in_kubernetes)
            },
            None => ExecutorType::from_lowered(None, in_kubernetes),
        }
    }
}

/// Event sent to WebSocket clients.
#[derive(Debug, Clone)]
pub enum BroadcastEvent {
    RunUpdate { run_id: String, status: String },
    StageUpdate { run_id: String, stage_name: String, status: String, duration: Option<String> },
    LogLine { run_id: String, stage_name: String, content: String, stream: String },
}

/// The channel an event is published on: `run:` and the run's id.
pub open spec fn event_channel(e: BroadcastEvent) -> Seq<char> {
    match e {
        BroadcastEvent::RunUpdate { run_id, .. } => "run:"@ + run_id@,
        BroadcastEvent::StageUpdate { run_id, .. } => "run:"@ + run_id@,
        BroadcastEvent::LogLine { run_id, .. } => "run:"@ + run_id@,
    }
}

/// Whether a client with these subscriptions is sent an event: it follows
/// the event's channel, or every channel (`*`).
pub open spec fn delivers(subscribed: Set<Seq<char>>, e: BroadcastEvent) -> bool {
    subscribed.contains(event_channel(e)) || subscribed.contains("*"@)
}

impl BroadcastEvent {
    /// The channel the event is published on.
    pub fn channel(&self) -> (r: String)
        ensures
            r@ == event_channel(*self),
    {
        let run_id = match self {
            BroadcastEvent::RunUpdate { run_id, .. } => run_id,
            BroadcastEvent::StageUpdate { run_id, .. } => run_id,
            BroadcastEvent::LogLine { run_id, .. } => run_id,
        };
        let mut out = chars_of("run:");
        append_str(&mut out, run_id.as_str());
        string_of(out.as_slice())
    }
}

/// The channels a WebSocket client follows.
#[derive(Debug)]
pub struct Subscriptions {
    channels: Vec<String>,
}

impl View for Subscriptions {
    type V = Set<Seq<char>>;

    closed spec fn view(&self) -> Set<Seq<char>> {
        self.channels@.map_values(|c: String| c@).to_set()
    }
}

impl Subscriptions {
    /// No channel followed.
    pub fn new() -> (r: Self)
        ensures
            r@ == Set::<Seq<char>>::empty(),
    {
        let r = Subscriptions { channels: Vec::new() };
        assert(r.channels@.map_values(|c: String| c@).to_set() =~= Set::<Seq<char>>::empty());
        r
    }

    /// Whether a channel is followed.
    pub fn contains(&self, channel: &str) -> (r: bool)
        ensures
            r == self@.contains(channel@),
    {
        let ghost cs = self.channels@.map_values(|c: String| c@);
        let mut i: usize = 0;
        while i < self.channels.len()
            invariant
                i <= self.channels.len(),
                cs == self.channels@.map_values(|c: String| c@),
                forall|k: int| 0 <= k < i ==> cs[k] != channel@,
            decreases self.channels.len() - i,
        {
            if str_eq(self.channels[i].as_str(), channel) {
                assert(cs[i as int] == channel@);
                assert(cs.contains(channel@));
                return true;
            }
            i = i + 1;
        }
        assert(!cs.contains(channel@));
        false
    }

    /// Follows a channel.
    pub fn subscribe(&mut self, channel: String)
        ensures
            final(self)@ == old(self)@.insert(channel@),
    {
        if !self.contains(channel.as_str()) {
            let ghost before = self.channels@.map_values(|c: String| c@);
            self.channels.push(channel);
            proof {
                let after = self.channels@.map_values(|c: String| c@);
                assert(after =~= before.push(channel@));
                assert forall|y: Seq<char>| after.contains(y) <==> (before.contains(y) || y == channel@) by {
                    if before.contains(y) {
                        let k = choose|k: int| 0 <= k < before.len() && before[k] == y;
                        assert(after[k] == y);
                    }
                    if y == channel@ {
                        assert(after[before.len() as int] == y);
                    }
                    if after.contains(y) {
                        let k = choose|k: int| 0 <= k < after.len() && after[k] == y;
                        if k < before.len() {
                            assert(before[k] == y);
                        }
                    }
                }
            }
        }
        proof {
            assert(self@ =~= old(self)@.insert(channel@));
        }
    }

    /// Stops following a channel.
    pub fn unsubscribe(&mut self, channel: &str)
        ensures
            final(self)@ == old(self)@.remove(channel@),
    {
        let ghost before = self.channels@.map_values(|c: String| c@);
        let mut kept: Vec<String> = Vec::new();
        let mut i: usize = 0;
        while i < self.channels.len()
            invariant
                i <= self.channels.len(),
                before == self.channels@.map_values(|c: String| c@),
                forall|x: Seq<char>|
                    kept@.map_values(|c: String| c@).contains(x) <==> (before.take(i as int).contains(x)
                        && x != channel@),
            decreases self.channels.len() - i,
        {
            let ghost kv = kept@.map_values(|c: String| c@);
            proof {
                lemma_push_contains(before.take(i as int), before[i as int]);
                lemma_push_contains(kv, before[i as int]);
            }
            assert(before[i as int] == self.channels@[i as int]@);
            assert(before.take(i + 1) =~= before.take(i as int).push(before[i as int]));
            if !str_eq(self.channels[i].as_str(), channel) {
                kept.push(self.channels[i].clone());
                assert(kept@.map_values(|c: String| c@) =~= kv.push(before[i as int]));
            } else {
                assert(kept@.map_values(|c: String| c@) =~= kv);
                assert(before[i as int] == channel@);
            }
            proof {
                let t = before.take(i as int);
                let nk = kept@.map_values(|c: String| c@);
                assert forall|x: Seq<char>| nk.contains(x) <==> (t.push(before[i as int]).contains(x) && x
                    != channel@) by {
                    assert(kv.contains(x) <==> (t.contains(x) && x != channel@));
                    assert(t.push(before[i as int]).contains(x) <==> (t.contains(x) || x == before[i as int]));
                    assert(kv.push(before[i as int]).contains(x) <==> (kv.contains(x) || x == before[i as int]));
                }
            }
            i = i + 1;
        }
        assert(before.take(i as int) =~= before);
        self.channels = kept;
        proof {
            assert forall|x: Seq<char>| self@.contains(x) <==> old(self)@.remove(channel@).contains(x) by {
                assert(self@.contains(x) <==> self.channels@.map_values(|c: String| c@).contains(x));
                assert(old(self)@.contains(x) <==> before.contains(x));
            }
            assert(self@ =~= old(self)@.remove(channel@));
        }
    }

    /// Whether the client is sent an event.
    pub fn wants(&self, event: &BroadcastEvent) -> (r: bool)
        ensures
            r == delivers(self@, *event),
    {
        let c = event.channel();
        self.contains(c.as_str()) || self.contains("*")
    }
}

proof fn lemma_push_contains(s: Seq<Seq<char>>, a: Seq<char>)
    ensures
        forall|x: Seq<char>| s.push(a).contains(x) <==> (s.contains(x) || x == a),
{
    assert forall|x: Seq<char>| s.push(a).contains(x) <==> (s.contains(x) || x == a) by {
        if s.contains(x) {
            let k = choose|k: int| 0 <= k < s.len() && s[k] == x;
            assert(s.push(a)[k] == x);
        }
        if x == a {
            assert(s.push(a)[s.len() as int] == x);
        }
        if s.push(a).contains(x) {
            let k = choose|k: int| 0 <= k < s.len() + 1 && s.push(a)[k] == x;
            if k < s.len() {
                assert(s[k] == x);
            }
        }
    }
}

/// A client that follows an event's channel is sent the event; one that
/// stops following it, and does not follow every channel, is not.
pub proof fn lemma_subscription_delivery(subscribed: Set<Seq<char>>, e: BroadcastEvent)
    ensures
        delivers(subscribed.insert(event_channel(e)), e),
        delivers(subscribed.insert("*"@), e),
        !subscribed.contains("*"@) ==> !delivers(subscribed.remove(event_channel(e)), e),
{
    reveal_strlit("run:");
    reveal_strlit("*");
    assert(event_channel(e)[0] == 'r');
    assert(event_channel(e) != "*"@);
}

/// Query of the OAuth callback.
#[derive(Debug, Clone)]
pub struct CallbackQuery {
    pub code: String,
    pub state: String,
}

/// Paging of a repository listing.
#[derive(Debug, Clone, Copy)]
pub struct ReposQuery {
    pub page: Option<u32>,
    pub per_page: Option<u32>,
}

impl ReposQuery {
    /// The page asked for (the first by default) and the page size (30 by
    /// default, at most 100).
    pub fn paging(&self) -> (r: (u32, u32))
        ensures
            r.0 == match self.page {
                Some(p) => p,
                None => 1u32,
            },
            r.1 == match self.per_page {
                Some(n) => if n < 100 { n } else { 100u32 },
                None => 30u32,
            },
    {
        let page = match self.page {
            Some(p) => p,
            None => 1,
        };
        let per_page = match self.per_page {
            Some(n) => if n < 100 { n } else { 100 },
            None => 30,
        };
        (page, per_page)
    }
}

/// A repository as the API lists it.
#[derive(Debug, Clone)]
pub struct RepoResponse {
    pub id: i64,
    pub name: String,
    pub full_name: String,
    pub owner: String,
    pub private: bool,
    pub clone_url: String,
    pub default_branch: String,
    pub description: Option<String>,
    pub language: Option<String>,
    pub updated_at: String,
}

/// The listing entry for a GitHub repository: its fields, with the owner
/// given by login.
pub open spec fn repo_response_of(repo: GitHubRepo) -> RepoResponse {
    RepoResponse {
        id: repo.id,
        name: repo.name,
        full_name: repo.full_name,
        owner: repo.owner.login,
        private: repo.private,
        clone_url: repo.clone_url,
        default_branch: repo.default_branch,
        description: repo.description,
        language: repo.language,
        updated_at: repo.updated_at,
    }
}

impl RepoResponse {
    /// The listing entry for a GitHub repository.
    pub fn from_repo(repo: GitHubRepo) -> (r: RepoResponse)
        ensures
            r == repo_response_of(repo),
    {
        RepoResponse {
            id: repo.id,
            name: repo.name,
            full_name: repo.full_name,
            owner: repo.owner.login,
            private: repo.private,
            clone_url: repo.clone_url,
            default_branch: repo.default_branch,
            description: repo.description,
            language: repo.language,
            updated_at: repo.updated_at,
        }
    }
}

impl From<GitHubRepo> for RepoResponse {
    fn from(repo: GitHubRepo) -> (r: RepoResponse) {
        RepoResponse::from_repo(repo)
    }
}

impl vstd::std_specs::convert::FromSpecImpl<GitHubRepo> for RepoResponse {
    open spec fn obeys_from_spec() -> bool {
        true
    }

    open spec fn from_spec(v: GitHubRepo) -> RepoResponse {
        repo_response_of(v)
    }
}

/// Query of a repository search.
#[derive(Debug, Clone)]
pub struct SearchQuery {
    pub q: String,
}

/// Whether GitHub is configured and connected, and as whom.
#[derive(Debug, Clone)]
pub struct GitHubStatusResponse {
    pub configured: bool,
    pub connected: bool,
    pub user: Option<String>,
}

impl GitHubStatusResponse {
    /// The status for whether OAuth is configured and for the login of the
    /// user that the stored token belongs to (`None` where there is no token
    /// or GitHub refused it).
    pub fn new(configured: bool, login: Option<String>) -> (r: GitHubStatusResponse)
        ensures
            r.configured == configured,
            r.connected == login.is_some(),
            r.user == login,
    {
        let connected = login.is_some();
        GitHubStatusResponse { configured, connected, user: login }
    }
}

/// Request to trigger a stack run, with the run type by name.
#[derive(Debug, Clone)]
pub struct TriggerRunApiRequest {
    pub run_type: String,
}

impl TriggerRunApiRequest {
    /// The run type named by the request, or a bad request.
    pub fn run_type(&self) -> (r: Result<StackRunType, ApiError>)
        ensures
            match StackRunType::from_text(self.run_type@) {
                Some(t) => r == Ok::<StackRunType, ApiError>(t),
                None => r matches Err(ApiError::BadRequest(m)) && m@ == "Invalid run type"@,
            },
    {
        match StackRunType::from_db_str(self.run_type.as_str()) {
            Some(t) => Ok(t),
            None => Err(ApiError::BadRequest(owned("Invalid run type"))),
        }
    }
}

/// A stack variable as the API shows it.
#[derive(Debug, Clone)]
pub struct StackVariableResponse {
    pub key: String,
    pub value: Option<String>,
    pub is_sensitive: bool,
    pub is_hcl: bool,
    pub description: Option<String>,
}

impl StackVariableResponse {
    /// A stored variable as shown: the value of a sensitive variable is
    /// withheld.
    pub fn new(
        key: String,
        value: Option<String>,
        is_sensitive: bool,
        is_hcl: bool,
        description: Option<String>,
    ) -> (r: StackVariableResponse)
        ensures
            r.key == key,
            r.value == (if is_sensitive { None } else { value }),
            r.is_sensitive == is_sensitive,
            r.is_hcl == is_hcl,
            r.description == description,
    {
        let shown = if is_sensitive {
            None
        } else {
            value
        };
        StackVariableResponse { key, value: shown, is_sensitive, is_hcl, description }
    }
}

/// Request to set a stack variable.
#[derive(Debug, Clone)]
pub struct SetVariableRequest {
    pub key: String,
    pub value: Option<String>,
    pub is_sensitive: Option<bool>,
    pub is_hcl: Option<bool>,
    pub description: Option<String>,
}

impl SetVariableRequest {
    /// Whether the variable is sensitive and whether it is HCL; each is
    /// `false` unless the request says otherwise.
    pub fn flags(&self) -> (r: (bool, bool))
        ensures
            r.0 == (self.is_sensitive == Some(true)),
            r.1 == (self.is_hcl == Some(true)),
    {
        let s = match self.is_sensitive {
            Some(b) => b,
            None => false,
        };
        let h = match self.is_hcl {
            Some(b) => b,
            None => false,
        };
        (s, h)
    }
}

/// A stack as the API shows it.
#[derive(Debug)]
pub struct StackResponse {
    pub id: ResourceId,
    pub name: String,
    pub description: Option<String>,
    pub repository_id: Option<ResourceId>,
    pub path: String,
    pub terraform_version: String,
    pub auto_apply: bool,
    pub status: String,
    pub last_run_at: Option<String>,
}

impl StackResponse {
    /// The stack's fields, its status by name and the RFC 3339 text of its
    /// last run.
    pub fn from_stack(s: Stack) -> (r: StackResponse)
        ensures
            r.id == s.id,
            r.name == s.name,
            r.description == s.description,
            r.repository_id == s.repository_id,
            r.path == s.path,
            r.terraform_version == s.terraform_version,
            r.auto_apply == s.auto_apply,
            r.status@ == s.status.text(),
            opt_string_view(r.last_run_at) == opt_rfc3339(s.last_run_at),
    {
        let last_run_at = rfc3339_of(s.last_run_at);
        StackResponse {
            id: s.id,
            name: s.name,
            description: s.description,
            repository_id: s.repository_id,
            path: s.path,
            terraform_version: s.terraform_version,
            auto_apply: s.auto_apply,
            status: owned(s.status.as_str()),
            last_run_at,
        }
    }
}

/// A stack run as the API shows it.
#[derive(Debug)]
pub struct StackRunResponse {
    pub id: ResourceId,
    pub run_type: String,
    pub status: String,
    pub trigger_type: String,
    pub resources_to_add: i32,
    pub resources_to_change: i32,
    pub resources_to_destroy: i32,
    pub started_at: Option<String>,
    pub finished_at: Option<String>,
    pub error_message: Option<String>,
}

impl StackRunResponse {
    /// The run's kind, status and trigger by name, its resource counts, the
    /// RFC 3339 texts of its start and finish, and its error.
    pub fn from_run(r: StackRun) -> (out: StackRunResponse)
        ensures
            out.id == r.id,
            out.run_type@ == r.run_type.text(),
            out.status@ == r.status.text(),
            out.trigger_type@ == r.trigger_type.text(),
            out.resources_to_add == r.resources_to_add,
            out.resources_to_change == r.resources_to_change,
            out.resources_to_destroy == r.resources_to_destroy,
            opt_string_view(out.started_at) == opt_rfc3339(r.started_at),
            opt_string_view(out.finished_at) == opt_rfc3339(r.finished_at),
            out.error_message == r.error_message,
    {
        let started_at = rfc3339_of(r.started_at);
        let finished_at = rfc3339_of(r.finished_at);
        StackRunResponse {
            id: r.id,
            run_type: owned(r.run_type.as_str()),
            status: owned(r.status.as_str()),
            trigger_type: owned(r.trigger_type.as_str()),
            resources_to_add: r.resources_to_add,
            resources_to_change: r.resources_to_change,
            resources_to_destroy: r.resources_to_destroy,
            started_at,
            finished_at,
            error_message: r.error_message,
        }
    }
}

/// A connected repository as the API shows it.
#[derive(Debug)]
pub struct RepositoryResponse {
    pub id: ResourceId,
    pub provider: String,
    pub owner: String,
    pub name: String,
    pub full_name: String,
    pub clone_url: String,
    pub default_branch: String,
    pub is_private: bool,
    pub detected_config: DetectedConfig,
    pub last_synced_at: Option<String>,
}

impl RepositoryResponse {
    /// The repository's fields, its provider by name and the RFC 3339 text
    /// of its last sync.
    pub fn from_repository(repo: Repository) -> (r: RepositoryResponse)
        ensures
            r.id == repo.id,
            r.provider@ == repo.provider.text(),
            r.owner == repo.owner,
            r.name == repo.name,
            r.full_name == repo.full_name,
            r.clone_url == repo.clone_url,
            r.default_branch == repo.default_branch,
            r.is_private == repo.is_private,
            r.detected_config == repo.detected_config,
            opt_string_view(r.last_synced_at) == opt_rfc3339(repo.last_synced_at),
    {
        let last_synced_at = rfc3339_of(repo.last_synced_at);
        RepositoryResponse {
            id: repo.id,
            provider: owned(repo.provider.as_str()),
            owner: repo.owner,
            name: repo.name,
            full_name: repo.full_name,
            clone_url: repo.clone_url,
            default_branch: repo.default_branch,
            is_private: repo.is_private,
            detected_config: repo.detected_config,
            last_synced_at,
        }
    }
}

/// The answer to connecting a repository: the repository, and the
/// configuration found in it.
#[derive(Debug)]
pub struct ConnectRepositoryResponse {
    pub repository: RepositoryResponse,
    pub detected_config: DetectedConfig,
}

} // verus!
