//! Variable interpolation for pipeline configurations.
//!
//! Supports variables like:
//! - `${git.sha}`, `${git.short_sha}` (first 7 characters), `${git.branch}`,
//!   `${git.tag}`, `${git.ref}`, `${git.message}`, `${git.author}`,
//!   `${git.author_email}`
//! - `${pipeline.name}`, `${pipeline.id}`, `${pipeline.repository}`
//! - `${run.id}`, `${run.number}`, `${run.trigger}`
//! - `${stage.name}`, `${stage.index}`
//! - `${env.VAR_NAME}`, `${secrets.SECRET_NAME}`
//! - `${timestamp}` (Unix seconds), `${date}` (YYYY-MM-DD), `${datetime}`
//! - `${name}` for a custom variable
//!
//! A variable that does not resolve is left in the text as written.
use vstd::prelude::*;
use crate::num::{decimal, fmt_u64, signed_decimal};
use crate::strmap::StrMap;
use crate::time::{format_utc, utc_format_text, utc_now, Timestamp};
use crate::text::{
    append_chars, append_str, char_eq, chars_of, eq_str, lemma_split_by_len, lemma_split_by_push, split_char, split_on_char,
    starts_with, starts_with_exec, string_of, trim_exec, trim_of,
};

verus! {

/// The first `n` characters of `s` (all of `s` when it is shorter).
pub open spec fn first_chars(s: Seq<char>, n: nat) -> Seq<char> {
    if s.len() <= n {
        s
    } else {
        s.take(n as int)
    }
}

/// Git context for variable interpolation.
pub struct GitContext {
    pub sha: String,
    pub short_sha: String,
    pub branch: String,
    pub tag: Option<String>,
    pub ref_name: String,
    pub message: String,
    pub author: String,
    pub author_email: String,
}

pub struct GitContextView {
    pub sha: Seq<char>,
    pub short_sha: Seq<char>,
    pub branch: Seq<char>,
    pub tag: Option<Seq<char>>,
    pub ref_name: Seq<char>,
    pub message: Seq<char>,
    pub author: Seq<char>,
    pub author_email: Seq<char>,
}

pub open spec fn opt_view(o: Option<String>) -> Option<Seq<char>> {
    match o {
        Some(s) => Some(s@),
        None => None,
    }
}

impl View for GitContext {
    type V = GitContextView;

    open spec fn view(&self) -> GitContextView {
        GitContextView {
            sha: self.sha@,
            short_sha: self.short_sha@,
            branch: self.branch@,
            tag: opt_view(self.tag),
            ref_name: self.ref_name@,
            message: self.message@,
            author: self.author@,
            author_email: self.author_email@,
        }
    }
}

impl Default for GitContext {
    /// The empty git context, as `new` makes it.
    fn default() -> (r: Self)
        ensures
            r@ == (GitContextView {
                sha: Seq::empty(),
                short_sha: Seq::empty(),
                branch: Seq::empty(),
                tag: None,
                ref_name: Seq::empty(),
                message: Seq::empty(),
                author: Seq::empty(),
                author_email: Seq::empty(),
            }),
    {
        GitContext::new()
    }
}

impl GitContext {
    pub fn new() -> (r: Self)
        ensures
            r@ == (GitContextView {
                sha: Seq::empty(),
                short_sha: Seq::empty(),
                branch: Seq::empty(),
                tag: None,
                ref_name: Seq::empty(),
                message: Seq::empty(),
                author: Seq::empty(),
                author_email: Seq::empty(),
            }),
    {
        GitContext {
            sha: String::new(),
            short_sha: String::new(),
            branch: String::new(),
            tag: None,
            ref_name: String::new(),
            message: String::new(),
            author: String::new(),
            author_email: String::new(),
        }
    }
}

/// Pipeline context for variable interpolation.
pub struct PipelineContext {
    pub id: String,
    pub name: String,
    pub repository: String,
}

pub struct PipelineContextView {
    pub id: Seq<char>,
    pub name: Seq<char>,
    pub repository: Seq<char>,
}

impl View for PipelineContext {
    type V = PipelineContextView;

    open spec fn view(&self) -> PipelineContextView {
        PipelineContextView { id: self.id@, name: self.name@, repository: self.repository@ }
    }
}

/// Run context for variable interpolation.
pub struct RunContext {
    pub id: String,
    pub number: u32,
    pub trigger: String,
}

pub struct RunContextView {
    pub id: Seq<char>,
    pub number: u32,
    pub trigger: Seq<char>,
}

impl View for RunContext {
    type V = RunContextView;

    open spec fn view(&self) -> RunContextView {
        RunContextView { id: self.id@, number: self.number, trigger: self.trigger@ }
    }
}

/// Stage context for variable interpolation.
pub struct StageContext {
    pub name: String,
    pub index: usize,
}

pub struct StageContextView {
    pub name: Seq<char>,
    pub index: usize,
}

impl View for StageContext {
    type V = StageContextView;

    open spec fn view(&self) -> StageContextView {
        StageContextView { name: self.name@, index: self.index }
    }
}

impl Default for PipelineContext {
    fn default() -> (r: Self)
        ensures
            r@ == (PipelineContextView { id: Seq::empty(), name: Seq::empty(), repository: Seq::empty() }),
    {
        PipelineContext { id: String::new(), name: String::new(), repository: String::new() }
    }
}

impl Default for RunContext {
    fn default() -> (r: Self)
        ensures
            r@ == (RunContextView { id: Seq::empty(), number: 0, trigger: Seq::empty() }),
    {
        RunContext { id: String::new(), number: 0, trigger: String::new() }
    }
}

impl Default for StageContext {
    fn default() -> (r: Self)
        ensures
            r@ == (StageContextView { name: Seq::empty(), index: 0 }),
    {
        StageContext { name: String::new(), index: 0 }
    }
}

/// Variable context containing all available variables for interpolation.
pub struct VariableContext {
    pub git: GitContext,
    pub pipeline: PipelineContext,
    pub run: RunContext,
    pub stage: StageContext,
    /// Environment variables
    pub env: StrMap,
    /// Secrets (to be masked in logs)
    pub secrets: StrMap,
    /// Custom variables defined by the user
    pub custom: StrMap,
}

pub struct VariableContextView {
    pub git: GitContextView,
    pub pipeline: PipelineContextView,
    pub run: RunContextView,
    pub stage: StageContextView,
    pub env: Map<Seq<char>, Seq<char>>,
    pub secrets: Map<Seq<char>, Seq<char>>,
    pub custom: Map<Seq<char>, Seq<char>>,
}

impl View for VariableContext {
    type V = VariableContextView;

    open spec fn view(&self) -> VariableContextView {
        VariableContextView {
            git: self.git@,
            pipeline: self.pipeline@,
            run: self.run@,
            stage: self.stage@,
            env: self.env@,
            secrets: self.secrets@,
            custom: self.custom@,
        }
    }
}

/// The variables whose value is read from the clock.
#[derive(Debug, Clone, Copy, PartialEq, Eq, Structural)]
pub enum ClockVar {
    /// `${timestamp}`: Unix seconds.
    Timestamp,
    /// `${date}`: `YYYY-MM-DD`.
    Date,
    /// `${datetime}`: `YYYY-MM-DDTHH:MM:SSZ`.
    DateTime,
}

/// What a variable name resolves to, before any clock is read.
pub enum Lookup {
    Value(String),
    Unset,
    Clock(ClockVar),
}

pub enum LookupView {
    Value(Seq<char>),
    Unset,
    Clock(ClockVar),
}

impl View for Lookup {
    type V = LookupView;

    open spec fn view(&self) -> LookupView {
        match self {
            Lookup::Value(s) => LookupView::Value(s@),
            Lookup::Unset => LookupView::Unset,
            Lookup::Clock(c) => LookupView::Clock(*c),
        }
    }
}

pub open spec fn map_lookup(m: Map<Seq<char>, Seq<char>>, k: Seq<char>) -> LookupView {
    if m.contains_key(k) {
        LookupView::Value(m[k])
    } else {
        LookupView::Unset
    }
}

/// Resolution of a variable name: `ns.key` for the built-in namespaces, a bare
/// name for the clock variables and custom variables; anything else is unset.
pub open spec fn resolve_spec(ctx: VariableContextView, name: Seq<char>) -> LookupView {
    let parts = split_char(name, '.');
    if parts.len() == 2 {
        let a = parts[0];
        let b = parts[1];
        if a == "git"@ {
            if b == "sha"@ {
                LookupView::Value(ctx.git.sha)
            } else if b == "short_sha"@ {
                LookupView::Value(ctx.git.short_sha)
            } else if b == "branch"@ {
                LookupView::Value(ctx.git.branch)
            } else if b == "tag"@ {
                match ctx.git.tag {
                    Some(t) => LookupView::Value(t),
                    None => LookupView::Unset,
                }
            } else if b == "ref"@ {
                LookupView::Value(ctx.git.ref_name)
            } else if b == "message"@ {
                LookupView::Value(ctx.git.message)
            } else if b == "author"@ {
                LookupView::Value(ctx.git.author)
            } else if b == "author_email"@ {
                LookupView::Value(ctx.git.author_email)
            } else {
                LookupView::Unset
            }
        } else if a == "pipeline"@ {
            if b == "id"@ {
                LookupView::Value(ctx.pipeline.id)
            } else if b == "name"@ {
                LookupView::Value(ctx.pipeline.name)
            } else if b == "repository"@ {
                LookupView::Value(ctx.pipeline.repository)
            } else {
                LookupView::Unset
            }
        } else if a == "run"@ {
            if b == "id"@ {
                LookupView::Value(ctx.run.id)
            } else if b == "number"@ {
                LookupView::Value(decimal(ctx.run.number as nat))
            } else if b == "trigger"@ {
                LookupView::Value(ctx.run.trigger)
            } else {
                LookupView::Unset
            }
        } else if a == "stage"@ {
            if b == "name"@ {
                LookupView::Value(ctx.stage.name)
            } else if b == "index"@ {
                LookupView::Value(decimal(ctx.stage.index as nat))
            } else {
                LookupView::Unset
            }
        } else if a == "env"@ {
            map_lookup(ctx.env, b)
        } else if a == "secrets"@ {
            map_lookup(ctx.secrets, b)
        } else {
            LookupView::Unset
        }
    } else if parts.len() == 1 {
        let a = parts[0];
        if a == "timestamp"@ {
            LookupView::Clock(ClockVar::Timestamp)
        } else if a == "date"@ {
            LookupView::Clock(ClockVar::Date)
        } else if a == "datetime"@ {
            LookupView::Clock(ClockVar::DateTime)
        } else {
            map_lookup(ctx.custom, a)
        }
    } else {
        LookupView::Unset
    }
}

proof fn lemma_split_no_dot(x: Seq<char>)
    requires
        !x.contains('.'),
    ensures
        split_char(x, '.') == seq![x],
    decreases x.len(),
{
    if x.len() == 0 {
        assert(x =~= Seq::<char>::empty());
    } else {
        assert(!x.drop_last().contains('.')) by {
            if x.drop_last().contains('.') {
                let j = choose|j: int| 0 <= j < x.drop_last().len() && x.drop_last()[j] == '.';
                assert(x[j] == '.');
            }
        }
        lemma_split_no_dot(x.drop_last());
        assert(x[x.len() - 1] != '.');
        assert(x.drop_last().push(x.last()) =~= x);
        lemma_split_by_push(x.drop_last(), char_eq('.'), x.last());
        assert(seq![x.drop_last()].update(0, x.drop_last().push(x.last())) =~= seq![x]);
    }
}

/// A name made of two dot-free parts joined by a `.` splits into them.
proof fn lemma_split_two(x: Seq<char>, y: Seq<char>)
    requires
        !x.contains('.'),
        !y.contains('.'),
    ensures
        split_char(x + seq!['.'] + y, '.') == seq![x, y],
    decreases y.len(),
{
    if y.len() == 0 {
        lemma_split_no_dot(x);
        assert((x + seq!['.'] + y).drop_last() =~= x);
        assert(y =~= Seq::<char>::empty());
        assert(seq![x].push(Seq::<char>::empty()) =~= seq![x, y]);
    } else {
        let y0 = y.drop_last();
        assert(!y0.contains('.')) by {
            if y0.contains('.') {
                let j = choose|j: int| 0 <= j < y0.len() && y0[j] == '.';
                assert(y[j] == '.');
            }
        }
        lemma_split_two(x, y0);
        assert((x + seq!['.'] + y).drop_last() =~= x + seq!['.'] + y0);
        assert(y[y.len() - 1] != '.');
        assert(y0.push(y.last()) =~= y);
        assert(seq![x, y0].update(1, y0.push(y.last())) =~= seq![x, y]);
    }
}

/// Each `git.<key>` variable resolves to the git field of that name:
/// `sha`, `short_sha`, `branch`, `ref`, `message`, `author` and
/// `author_email` to the commit's values, and `tag` to the tag where there
/// is one (unset otherwise).
pub proof fn lemma_git_variables(ctx: VariableContextView)
    ensures
        resolve_spec(ctx, "git.sha"@) == LookupView::Value(ctx.git.sha),
        resolve_spec(ctx, "git.short_sha"@) == LookupView::Value(ctx.git.short_sha),
        resolve_spec(ctx, "git.branch"@) == LookupView::Value(ctx.git.branch),
        resolve_spec(ctx, "git.ref"@) == LookupView::Value(ctx.git.ref_name),
        resolve_spec(ctx, "git.message"@) == LookupView::Value(ctx.git.message),
        resolve_spec(ctx, "git.author"@) == LookupView::Value(ctx.git.author),
        resolve_spec(ctx, "git.author_email"@) == LookupView::Value(ctx.git.author_email),
        resolve_spec(ctx, "git.tag"@) == match ctx.git.tag {
            Some(t) => LookupView::Value(t),
            None => LookupView::Unset,
        },
{
    reveal_strlit("git");
    reveal_strlit("sha");
    reveal_strlit("short_sha");
    reveal_strlit("branch");
    reveal_strlit("tag");
    reveal_strlit("ref");
    reveal_strlit("message");
    reveal_strlit("author");
    reveal_strlit("author_email");
    reveal_strlit("git.sha");
    reveal_strlit("git.short_sha");
    reveal_strlit("git.branch");
    reveal_strlit("git.tag");
    reveal_strlit("git.ref");
    reveal_strlit("git.message");
    reveal_strlit("git.author");
    reveal_strlit("git.author_email");
    lemma_split_two("git"@, "sha"@);
    assert("git.sha"@ =~= "git"@ + seq!['.'] + "sha"@);
    lemma_split_two("git"@, "short_sha"@);
    assert("git.short_sha"@ =~= "git"@ + seq!['.'] + "short_sha"@);
    lemma_split_two("git"@, "branch"@);
    assert("git.branch"@ =~= "git"@ + seq!['.'] + "branch"@);
    lemma_split_two("git"@, "tag"@);
    assert("git.tag"@ =~= "git"@ + seq!['.'] + "tag"@);
    lemma_split_two("git"@, "ref"@);
    assert("git.ref"@ =~= "git"@ + seq!['.'] + "ref"@);
    lemma_split_two("git"@, "message"@);
    assert("git.message"@ =~= "git"@ + seq!['.'] + "message"@);
    lemma_split_two("git"@, "author"@);
    assert("git.author"@ =~= "git"@ + seq!['.'] + "author"@);
    lemma_split_two("git"@, "author_email"@);
    assert("git.author_email"@ =~= "git"@ + seq!['.'] + "author_email"@);
}

/// Each `pipeline.<key>`, `run.<key>` and `stage.<key>` variable resolves
/// to the field of that name; numbers are written in decimal.
pub proof fn lemma_context_variables(ctx: VariableContextView)
    ensures
        resolve_spec(ctx, "pipeline.id"@) == LookupView::Value(ctx.pipeline.id),
        resolve_spec(ctx, "pipeline.name"@) == LookupView::Value(ctx.pipeline.name),
        resolve_spec(ctx, "pipeline.repository"@) == LookupView::Value(ctx.pipeline.repository),
        resolve_spec(ctx, "run.id"@) == LookupView::Value(ctx.run.id),
        resolve_spec(ctx, "run.number"@) == LookupView::Value(decimal(ctx.run.number as nat)),
        resolve_spec(ctx, "run.trigger"@) == LookupView::Value(ctx.run.trigger),
        resolve_spec(ctx, "stage.name"@) == LookupView::Value(ctx.stage.name),
        resolve_spec(ctx, "stage.index"@) == LookupView::Value(decimal(ctx.stage.index as nat)),
{
    reveal_strlit("git");
    reveal_strlit("pipeline");
    reveal_strlit("run");
    reveal_strlit("stage");
    reveal_strlit("id");
    reveal_strlit("name");
    reveal_strlit("repository");
    reveal_strlit("number");
    reveal_strlit("trigger");
    reveal_strlit("index");
    assert("run"@ != "git"@) by {
        assert("run"@[0] != "git"@[0]);
    }
    reveal_strlit("pipeline.id");
    reveal_strlit("pipeline.name");
    reveal_strlit("pipeline.repository");
    reveal_strlit("run.id");
    reveal_strlit("run.number");
    reveal_strlit("run.trigger");
    reveal_strlit("stage.name");
    reveal_strlit("stage.index");
    lemma_split_two("pipeline"@, "id"@);
    assert("pipeline.id"@ =~= "pipeline"@ + seq!['.'] + "id"@);
    lemma_split_two("pipeline"@, "name"@);
    assert("pipeline.name"@ =~= "pipeline"@ + seq!['.'] + "name"@);
    lemma_split_two("pipeline"@, "repository"@);
    assert("pipeline.repository"@ =~= "pipeline"@ + seq!['.'] + "repository"@);
    lemma_split_two("run"@, "id"@);
    assert("run.id"@ =~= "run"@ + seq!['.'] + "id"@);
    lemma_split_two("run"@, "number"@);
    assert("run.number"@ =~= "run"@ + seq!['.'] + "number"@);
    lemma_split_two("run"@, "trigger"@);
    assert("run.trigger"@ =~= "run"@ + seq!['.'] + "trigger"@);
    lemma_split_two("stage"@, "name"@);
    assert("stage.name"@ =~= "stage"@ + seq!['.'] + "name"@);
    lemma_split_two("stage"@, "index"@);
    assert("stage.index"@ =~= "stage"@ + seq!['.'] + "index"@);
}

/// `env.<key>` and `secrets.<key>` resolve to the entry of that key in the
/// environment and the secrets, unset where there is none.
pub proof fn lemma_map_variables(ctx: VariableContextView, key: Seq<char>)
    requires
        !key.contains('.'),
    ensures
        resolve_spec(ctx, "env"@ + seq!['.'] + key) == if ctx.env.contains_key(key) {
            LookupView::Value(ctx.env[key])
        } else {
            LookupView::Unset
        },
        resolve_spec(ctx, "secrets"@ + seq!['.'] + key) == if ctx.secrets.contains_key(key) {
            LookupView::Value(ctx.secrets[key])
        } else {
            LookupView::Unset
        },
{
    reveal_strlit("git");
    reveal_strlit("pipeline");
    reveal_strlit("run");
    reveal_strlit("stage");
    reveal_strlit("env");
    reveal_strlit("secrets");
    assert("env"@ != "git"@) by {
        assert("env"@[0] != "git"@[0]);
    }
    assert("env"@ != "run"@) by {
        assert("env"@[0] != "run"@[0]);
    }
    lemma_split_two("env"@, key);
    lemma_split_two("secrets"@, key);
}

/// A name without a `.` is a clock variable (`timestamp`, `date`,
/// `datetime`) or else a custom variable, unset where there is none.
pub proof fn lemma_bare_variables(ctx: VariableContextView, n: Seq<char>)
    requires
        !n.contains('.'),
    ensures
        n == "timestamp"@ ==> resolve_spec(ctx, n) == LookupView::Clock(ClockVar::Timestamp),
        n == "date"@ ==> resolve_spec(ctx, n) == LookupView::Clock(ClockVar::Date),
        n == "datetime"@ ==> resolve_spec(ctx, n) == LookupView::Clock(ClockVar::DateTime),
        n != "timestamp"@ && n != "date"@ && n != "datetime"@ ==> resolve_spec(ctx, n) == if ctx.custom.contains_key(
            n,
        ) {
            LookupView::Value(ctx.custom[n])
        } else {
            LookupView::Unset
        },
{
    lemma_split_no_dot(n);
    reveal_strlit("timestamp");
    reveal_strlit("date");
    reveal_strlit("datetime");
    assert("timestamp"@.len() == 9 && "date"@.len() == 4 && "datetime"@.len() == 8);
}

fn lookup_map(m: &StrMap, key: &[char]) -> (r: Lookup)
    ensures
        r@ == map_lookup(m@, key@),
{
    let k = string_of(key);
    match m.get(k.as_str()) {
        Some(v) => Lookup::Value(v.clone()),
        None => Lookup::Unset,
    }
}

fn decimal_string(n: u64) -> (r: String)
    ensures
        r@ == decimal(n as nat),
{
    let d = fmt_u64(n);
    string_of(d.as_slice())
}

impl Default for VariableContext {
    /// The empty context, as `new` makes it.
    fn default() -> (r: Self)
        ensures
            r@ == empty_context(),
            r.env.key_seq().len() == 0,
            r.secrets.key_seq().len() == 0,
            r.custom.key_seq().len() == 0,
    {
        VariableContext::new()
    }
}

impl VariableContext {
    /// A new empty variable context.
    pub fn new() -> (r: Self)
        ensures
            r@ == empty_context(),
            r.env.key_seq().len() == 0,
            r.secrets.key_seq().len() == 0,
            r.custom.key_seq().len() == 0,
    {
        VariableContext {
            git: GitContext::new(),
            pipeline: PipelineContext { id: String::new(), name: String::new(), repository: String::new() },
            run: RunContext { id: String::new(), number: 0, trigger: String::new() },
            stage: StageContext { name: String::new(), index: 0 },
            env: StrMap::new(),
            secrets: StrMap::new(),
            custom: StrMap::new(),
        }
    }

    /// Resolves a variable name without reading the clock.
    pub fn resolve_static(&self, var_name: &str) -> (r: Lookup)
        ensures
            r@ == resolve_spec(self@, var_name@),
    {
        let nc = chars_of(var_name);
        let parts = split_on_char(nc.as_slice(), '.');
        proof {
            lemma_split_by_len(nc@, crate::text::char_eq('.'));
        }
        let ghost pv = parts@.map_values(|v: Vec<char>| v@);
        assert(pv.len() == parts@.len());
        if parts.len() == 2 {
            let a = parts[0].as_slice();
            let b = parts[1].as_slice();
            assert(pv[0] == a@ && pv[1] == b@);
            if eq_str(a, "git") {
                if eq_str(b, "sha") {
                    Lookup::Value(self.git.sha.clone())
                } else if eq_str(b, "short_sha") {
                    Lookup::Value(self.git.short_sha.clone())
                } else if eq_str(b, "branch") {
                    Lookup::Value(self.git.branch.clone())
                } else if eq_str(b, "tag") {
                    match &self.git.tag {
                        Some(t) => Lookup::Value(t.clone()),
                        None => Lookup::Unset,
                    }
                } else if eq_str(b, "ref") {
                    Lookup::Value(self.git.ref_name.clone())
                } else if eq_str(b, "message") {
                    Lookup::Value(self.git.message.clone())
                } else if eq_str(b, "author") {
                    Lookup::Value(self.git.author.clone())
                } else if eq_str(b, "author_email") {
                    Lookup::Value(self.git.author_email.clone())
                } else {
                    Lookup::Unset
                }
            } else if eq_str(a, "pipeline") {
                if eq_str(b, "id") {
                    Lookup::Value(self.pipeline.id.clone())
                } else if eq_str(b, "name") {
                    Lookup::Value(self.pipeline.name.clone())
                } else if eq_str(b, "repository") {
                    Lookup::Value(self.pipeline.repository.clone())
                } else {
                    Lookup::Unset
                }
            } else if eq_str(a, "run") {
                if eq_str(b, "id") {
                    Lookup::Value(self.run.id.clone())
                } else if eq_str(b, "number") {
                    Lookup::Value(decimal_string(self.run.number as u64))
                } else if eq_str(b, "trigger") {
                    Lookup::Value(self.run.trigger.clone())
                } else {
                    Lookup::Unset
                }
            } else if eq_str(a, "stage") {
                if eq_str(b, "name") {
                    Lookup::Value(self.stage.name.clone())
                } else if eq_str(b, "index") {
                    Lookup::Value(decimal_string(self.stage.index as u64))
                } else {
                    Lookup::Unset
                }
            } else if eq_str(a, "env") {
                lookup_map(&self.env, b)
            } else if eq_str(a, "secrets") {
                lookup_map(&self.secrets, b)
            } else {
                Lookup::Unset
            }
        } else if parts.len() == 1 {
            let a = parts[0].as_slice();
            assert(pv[0] == a@);
            if eq_str(a, "timestamp") {
                Lookup::Clock(ClockVar::Timestamp)
            } else if eq_str(a, "date") {
                Lookup::Clock(ClockVar::Date)
            } else if eq_str(a, "datetime") {
                Lookup::Clock(ClockVar::DateTime)
            } else {
                lookup_map(&self.custom, a)
            }
        } else {
            Lookup::Unset
        }
    }
}

pub open spec fn empty_context() -> VariableContextView {
    VariableContextView {
        git: GitContextView {
            sha: Seq::empty(),
            short_sha: Seq::empty(),
            branch: Seq::empty(),
            tag: None,
            ref_name: Seq::empty(),
            message: Seq::empty(),
            author: Seq::empty(),
            author_email: Seq::empty(),
        },
        pipeline: PipelineContextView { id: Seq::empty(), name: Seq::empty(), repository: Seq::empty() },
        run: RunContextView { id: Seq::empty(), number: 0, trigger: Seq::empty() },
        stage: StageContextView { name: Seq::empty(), index: 0 },
        env: Map::empty(),
        secrets: Map::empty(),
        custom: Map::empty(),
    }
}

pub open spec fn is_ident_start(c: char) -> bool {
    ('a' <= c && c <= 'z') || ('A' <= c && c <= 'Z') || c == '_'
}

pub open spec fn is_ident_char(c: char) -> bool {
    is_ident_start(c) || ('0' <= c && c <= '9')
}

/// End of the run of identifier characters that starts at `i`.
pub open spec fn ident_end(s: Seq<char>, i: int) -> int
    decreases s.len() - i,
{
    if 0 <= i < s.len() && is_ident_char(s[i]) {
        ident_end(s, i + 1)
    } else {
        i
    }
}

pub proof fn lemma_ident_end(s: Seq<char>, i: int)
    requires
        0 <= i,
    ensures
        i <= ident_end(s, i),
        ident_end(s, i) <= s.len() || ident_end(s, i) == i,
        forall|j: int| i <= j < ident_end(s, i) ==> is_ident_char(#[trigger] s[j]),
        ident_end(s, i) < s.len() ==> !is_ident_char(s[ident_end(s, i)]),
    decreases s.len() - i,
{
    if 0 <= i < s.len() && is_ident_char(s[i]) {
        lemma_ident_end(s, i + 1);
    }
}

/// If a variable reference `${name}` or `${ns.name}` starts at `i`, the index
/// just after its closing brace. This is the language of the pattern
/// `\$\{([a-zA-Z_][a-zA-Z0-9_]*(?:\.[a-zA-Z_][a-zA-Z0-9_]*)?)\}`.
pub open spec fn var_end(s: Seq<char>, i: int) -> Option<int> {
    if 0 <= i && i + 2 < s.len() && s[i] == '$' && s[i + 1] == '{' && is_ident_start(s[i + 2]) {
        let e1 = ident_end(s, i + 2);
        if e1 < s.len() && s[e1] == '}' {
            Some(e1 + 1)
        } else if e1 + 1 < s.len() && s[e1] == '.' && is_ident_start(s[e1 + 1]) {
            let e2 = ident_end(s, e1 + 1);
            if e2 < s.len() && s[e2] == '}' {
                Some(e2 + 1)
            } else {
                None
            }
        } else {
            None
        }
    } else {
        None
    }
}

pub proof fn lemma_var_end(s: Seq<char>, i: int)
    ensures
        var_end(s, i) matches Some(e) ==> i + 4 <= e <= s.len() && s[e - 1] == '}',
{
    if 0 <= i && i + 2 < s.len() {
        lemma_ident_end(s, i + 2);
        let e1 = ident_end(s, i + 2);
        if e1 + 1 < s.len() {
            lemma_ident_end(s, e1 + 1);
        }
    }
}

/// The texts that the clock variables stand for during one interpolation.
pub struct ClockTexts {
    pub timestamp: String,
    pub date: String,
    pub datetime: String,
}

pub open spec fn clock_pick(t: (Seq<char>, Seq<char>, Seq<char>), c: ClockVar) -> Seq<char> {
    match c {
        ClockVar::Timestamp => t.0,
        ClockVar::Date => t.1,
        ClockVar::DateTime => t.2,
    }
}

impl View for ClockTexts {
    type V = (Seq<char>, Seq<char>, Seq<char>);

    open spec fn view(&self) -> (Seq<char>, Seq<char>, Seq<char>) {
        (self.timestamp@, self.date@, self.datetime@)
    }
}

/// What replaces the reference to `name`: its value, or the reference itself
/// when the variable is unset.
pub open spec fn substitute(ctx: VariableContextView, name: Seq<char>, t: (Seq<char>, Seq<char>, Seq<char>)) -> Seq<char> {
    match resolve_spec(ctx, name) {
        LookupView::Value(v) => v,
        LookupView::Unset => seq!['$', '{'] + name + seq!['}'],
        LookupView::Clock(c) => clock_pick(t, c),
    }
}

/// Interpolation of `s` from index `i` on: each leftmost reference is
/// replaced, and scanning resumes after it.
pub open spec fn interpolate_from(ctx: VariableContextView, s: Seq<char>, i: int, t: (Seq<char>, Seq<char>, Seq<char>)) -> Seq<char>
    decreases s.len() - i,
{
    if i < 0 || i >= s.len() {
        Seq::empty()
    } else {
        match var_end(s, i) {
            Some(e) => if e > i {
                substitute(ctx, s.subrange(i + 2, e - 1), t) + interpolate_from(ctx, s, e, t)
            } else {
                Seq::empty()
            },
            None => seq![s[i]] + interpolate_from(ctx, s, i + 1, t),
        }
    }
}

/// A text that is only a reference to `git.author` interpolates to the
/// commit author, whatever the clock reads.
pub proof fn lemma_interpolate_author(ctx: VariableContextView, t: (Seq<char>, Seq<char>, Seq<char>))
    ensures
        interpolate_spec(ctx, "${git.author}"@, t) == ctx.git.author,
{
    let s = "${git.author}"@;
    reveal_strlit("${git.author}");
    reveal_strlit("git.author");
    assert(s.len() == 13);
    reveal_with_fuel(ident_end, 8);
    assert(ident_end(s, 5) == 5);
    assert(ident_end(s, 2) == 5);
    assert(ident_end(s, 12) == 12);
    assert(ident_end(s, 6) == 12);
    assert(var_end(s, 0) == Some(13int));
    assert(s.subrange(2, 12) =~= "git.author"@);
    lemma_git_variables(ctx);
    assert(interpolate_from(ctx, s, 13, t) == Seq::<char>::empty());
    assert(ctx.git.author + Seq::<char>::empty() =~= ctx.git.author);
}

/// Interpolation keeps every reference to an unset variable as it was
/// written: a text whose references all name unset variables (or that has
/// none) comes back unchanged, whatever the clock reads.
pub proof fn lemma_unset_references_kept(
    ctx: VariableContextView,
    s: Seq<char>,
    i: int,
    t: (Seq<char>, Seq<char>, Seq<char>),
)
    requires
        0 <= i <= s.len(),
        forall|k: int|
            0 <= k < references_from(s, i).len() ==> resolve_spec(ctx, #[trigger] references_from(s, i)[k])
                is Unset,
    ensures
        interpolate_from(ctx, s, i, t) == s.skip(i),
    decreases s.len() - i,
{
    if i >= s.len() {
        assert(s.skip(i) =~= Seq::<char>::empty());
    } else {
        match var_end(s, i) {
            Some(e) => {
                lemma_var_end(s, i);
                let name = s.subrange(i + 2, e - 1);
                assert(references_from(s, i) == seq![name] + references_from(s, e));
                assert(references_from(s, i)[0] == name);
                assert forall|k: int| 0 <= k < references_from(s, e).len() implies resolve_spec(
                    ctx,
                    #[trigger] references_from(s, e)[k],
                ) is Unset by {
                    assert(references_from(s, i)[k + 1] == references_from(s, e)[k]);
                }
                lemma_unset_references_kept(ctx, s, e, t);
                assert(substitute(ctx, name, t) =~= s.subrange(i, e));
                assert(s.subrange(i, e) + s.skip(e) =~= s.skip(i));
            },
            None => {
                assert(references_from(s, i) == references_from(s, i + 1));
                lemma_unset_references_kept(ctx, s, i + 1, t);
                assert(seq![s[i]] + s.skip(i + 1) =~= s.skip(i));
            },
        }
    }
}

pub open spec fn text_or_empty(o: Option<Seq<char>>) -> Seq<char> {
    match o {
        Some(t) => t,
        None => Seq::empty(),
    }
}

/// The clock texts when the clock reads `a` for the Unix timestamp and the
/// date and `b` for the date and time (a date the formatter cannot write
/// is empty).
pub open spec fn clock_reading(a: Timestamp, b: Timestamp) -> (Seq<char>, Seq<char>, Seq<char>) {
    (
        signed_decimal(a.secs as int),
        text_or_empty(utc_format_text(a.secs, a.nanos, "%Y-%m-%d"@)),
        text_or_empty(utc_format_text(b.secs, b.nanos, "%Y-%m-%dT%H:%M:%SZ"@)),
    )
}

/// `out` is the interpolation of `input` for some reading of the clock.
pub open spec fn is_interpolation_of(ctx: VariableContextView, input: Seq<char>, out: Seq<char>) -> bool {
    exists|a: Timestamp, b: Timestamp| out == interpolate_spec(ctx, input, clock_reading(a, b))
}

pub open spec fn interpolate_spec(ctx: VariableContextView, s: Seq<char>, t: (Seq<char>, Seq<char>, Seq<char>)) -> Seq<char> {
    interpolate_from(ctx, s, 0, t)
}

/// The names of all references in `s` from index `i` on, in order.
pub open spec fn references_from(s: Seq<char>, i: int) -> Seq<Seq<char>>
    decreases s.len() - i,
{
    if i < 0 || i >= s.len() {
        Seq::empty()
    } else {
        match var_end(s, i) {
            Some(e) => if e > i {
                seq![s.subrange(i + 2, e - 1)] + references_from(s, e)
            } else {
                Seq::empty()
            },
            None => references_from(s, i + 1),
        }
    }
}

fn ident_end_exec(s: &[char], i: usize) -> (r: usize)
    requires
        i <= s.len(),
    ensures
        r == ident_end(s@, i as int),
{
    let mut j = i;
    while j < s.len() && (('a' <= s[j] && s[j] <= 'z') || ('A' <= s[j] && s[j] <= 'Z') || s[j]
        == '_' || ('0' <= s[j] && s[j] <= '9'))
        invariant
            i <= j <= s.len(),
            ident_end(s@, i as int) == ident_end(s@, j as int),
        decreases s.len() - j,
    {
        j = j + 1;
    }
    j
}

fn is_ident_start_exec(c: char) -> (b: bool)
    ensures
        b == is_ident_start(c),
{
    ('a' <= c && c <= 'z') || ('A' <= c && c <= 'Z') || c == '_'
}

/// The end of the reference starting at `i`, if one does.
fn var_end_exec(s: &[char], i: usize) -> (r: Option<usize>)
    ensures
        r == (match var_end(s@, i as int) {
            Some(e) => Some(e as usize),
            None => None::<usize>,
        }),
        var_end(s@, i as int) matches Some(e) ==> e <= s.len(),
{
    proof {
        lemma_var_end(s@, i as int);
    }
    if i < s.len() && s.len() - i > 2 && s[i] == '$' && s[i + 1] == '{' && is_ident_start_exec(
        s[i + 2],
    ) {
        let e1 = ident_end_exec(s, i + 2);
        proof {
            lemma_ident_end(s@, i + 2);
        }
        if e1 < s.len() && s[e1] == '}' {
            Some(e1 + 1)
        } else if e1 < s.len() && s.len() - e1 > 1 && s[e1] == '.' && is_ident_start_exec(
            s[e1 + 1],
        ) {
            let e2 = ident_end_exec(s, e1 + 1);
            proof {
                lemma_ident_end(s@, e1 + 1);
            }
            if e2 < s.len() && s[e2] == '}' {
                Some(e2 + 1)
            } else {
                None
            }
        } else {
            None
        }
    } else {
        None
    }
}

/// The clock texts at the present moment.
pub fn read_clock() -> (r: ClockTexts)
    ensures
        exists|a: Timestamp, b: Timestamp| r@ == clock_reading(a, b),
{
    let now = utc_now();
    let ts = crate::num::fmt_i64(now.secs);
    let date = match format_utc(now, "%Y-%m-%d") {
        Some(d) => d,
        None => String::new(),
    };
    let now2 = utc_now();
    let datetime = match format_utc(now2, "%Y-%m-%dT%H:%M:%SZ") {
        Some(d) => d,
        None => String::new(),
    };
    let r = ClockTexts { timestamp: string_of(ts.as_slice()), date, datetime };
    assert(r@ == clock_reading(now, now2));
    r
}

impl VariableContext {
    /// The replacement text for one reference.
    fn substitute_exec(&self, name: &[char], clock: &ClockTexts) -> (r: Vec<char>)
        ensures
            r@ == substitute(self@, name@, clock@),
    {
        let name_str = string_of(name);
        match self.resolve_static(name_str.as_str()) {
            Lookup::Value(v) => chars_of(v.as_str()),
            Lookup::Unset => {
                let mut out: Vec<char> = Vec::new();
                out.push('$');
                out.push('{');
                append_chars(&mut out, name);
                out.push('}');
                assert(out@ =~= seq!['$', '{'] + name@ + seq!['}']);
                out
            },
            Lookup::Clock(c) => match c {
                ClockVar::Timestamp => chars_of(clock.timestamp.as_str()),
                ClockVar::Date => chars_of(clock.date.as_str()),
                ClockVar::DateTime => chars_of(clock.datetime.as_str()),
            },
        }
    }

    /// Interpolates every `${...}` reference in `input`, reading the clock
    /// variables from `clock`.
    pub fn interpolate_at(&self, input: &str, clock: &ClockTexts) -> (r: String)
        ensures
            r@ == interpolate_spec(self@, input@, clock@),
    {
        let s = chars_of(input);
        let mut out: Vec<char> = Vec::new();
        let mut i: usize = 0;
        while i < s.len()
            invariant
                i <= s.len(),
                s@ == input@,
                out@ + interpolate_from(self@, s@, i as int, clock@) == interpolate_from(
                    self@,
                    s@,
                    0,
                    clock@,
                ),
            decreases s.len() - i,
        {
            proof {
                lemma_var_end(s@, i as int);
            }
            match var_end_exec(s.as_slice(), i) {
                Some(e) => {
                    let name = crate::text::slice_chars(s.as_slice(), i + 2, e - 1);
                    let rep = self.substitute_exec(name.as_slice(), clock);
                    let ghost old_out = out@;
                    append_chars(&mut out, rep.as_slice());
                    assert(out@ + interpolate_from(self@, s@, e as int, clock@) =~= old_out
                        + interpolate_from(self@, s@, i as int, clock@));
                    i = e;
                },
                None => {
                    let ghost old_out = out@;
                    out.push(s[i]);
                    assert(out@ + interpolate_from(self@, s@, i + 1, clock@) =~= old_out
                        + interpolate_from(self@, s@, i as int, clock@));
                    i = i + 1;
                },
            }
        }
        assert(out@ =~= out@ + interpolate_from(self@, s@, i as int, clock@));
        string_of(out.as_slice())
    }

    /// Interpolates every `${...}` reference in `input`; the clock variables
    /// take the time at which they are read.
    pub fn interpolate(&self, input: &str) -> (r: String)
        ensures
            is_interpolation_of(self@, input@, r@),
    {
        let clock = read_clock();
        let r = self.interpolate_at(input, &clock);
        proof {
            let (a, b) = choose|a: Timestamp, b: Timestamp| clock@ == clock_reading(a, b);
            assert(r@ == interpolate_spec(self@, input@, clock_reading(a, b)));
        }
        r
    }

    /// Resolves a variable name to its value; the clock variables read the
    /// current time.
    pub fn resolve(&self, var_name: &str) -> (r: Option<String>)
        ensures
            match resolve_spec(self@, var_name@) {
                LookupView::Value(v) => r matches Some(x) && x@ == v,
                LookupView::Unset => r is None,
                LookupView::Clock(c) => r matches Some(x) && exists|a: Timestamp, b: Timestamp|
                    x@ == clock_pick(clock_reading(a, b), c),
            },
    {
        match self.resolve_static(var_name) {
            Lookup::Value(v) => Some(v),
            Lookup::Unset => None,
            Lookup::Clock(c) => {
                let clock = read_clock();
                match c {
                    ClockVar::Timestamp => Some(clock.timestamp),
                    ClockVar::Date => Some(clock.date),
                    ClockVar::DateTime => Some(clock.datetime),
                }
            },
        }
    }

    /// The names of all secret references (`secrets.NAME`) in a string, in
    /// order of appearance.
    pub fn find_secrets_in_string(&self, input: &str) -> (r: Vec<String>)
        ensures
            r@.map_values(|s: String| s@) == references_from(input@, 0).filter(
                |n: Seq<char>| starts_with(n, "secrets."@),
            ),
    {
        let s = chars_of(input);
        let prefix = chars_of("secrets.");
        let mut out: Vec<String> = Vec::new();
        let mut i: usize = 0;
        while i < s.len()
            invariant
                i <= s.len(),
                s@ == input@,
                prefix@ == "secrets."@,
                out@.map_values(|x: String| x@) + references_from(s@, i as int).filter(
                    |n: Seq<char>| starts_with(n, "secrets."@),
                ) == references_from(s@, 0).filter(|n: Seq<char>| starts_with(n, "secrets."@)),
            decreases s.len() - i,
        {
            proof {
                lemma_var_end(s@, i as int);
            }
            match var_end_exec(s.as_slice(), i) {
                Some(e) => {
                    let name = crate::text::slice_chars(s.as_slice(), i + 2, e - 1);
                    let ghost old_out = out@;
                    let ghost rest = references_from(s@, e as int);
                    proof {
                        reveal(Seq::filter);
                        crate::text::lemma_filter_prepend(name@, rest, |n: Seq<char>| starts_with(n, "secrets."@));
                    }
                    if starts_with_exec(name.as_slice(), prefix.as_slice()) {
                        out.push(string_of(name.as_slice()));
                        assert(out@.map_values(|x: String| x@) =~= old_out.map_values(|x: String| x@).push(name@));
                    }
                    let ghost secret = |n: Seq<char>| starts_with(n, "secrets."@);
                    assert(out@.map_values(|x: String| x@) + rest.filter(secret)
                        =~= old_out.map_values(|x: String| x@) + references_from(s@, i as int).filter(
                        secret,
                    ));
                    i = e;
                },
                None => {
                    i = i + 1;
                },
            }
        }
        let ghost secret = |n: Seq<char>| starts_with(n, "secrets."@);
        assert(out@.map_values(|x: String| x@) =~= out@.map_values(|x: String| x@) + references_from(
            s@,
            i as int,
        ).filter(secret));
        out
    }

    /// All secret values, to be masked in logs.
    pub fn get_secret_values(&self) -> (r: Vec<&str>)
        ensures
            r@.map_values(|s: &str| s@) == self.secrets.value_seq(),
    {
        self.secrets.values()
    }

    /// Interpolates each string of a list.
    pub fn interpolate_vec(&self, inputs: &[String]) -> (r: Vec<String>)
        ensures
            r@.len() == inputs@.len(),
            forall|i: int| 0 <= i < inputs@.len() ==> is_interpolation_of(self@, inputs@[i]@, #[trigger] r@[i]@),
    {
        let mut out: Vec<String> = Vec::new();
        let mut i: usize = 0;
        while i < inputs.len()
            invariant
                i <= inputs.len(),
                out@.len() == i,
                forall|k: int| 0 <= k < i ==> is_interpolation_of(self@, inputs@[k]@, #[trigger] out@[k]@),
            decreases inputs.len() - i,
        {
            let x = self.interpolate(inputs[i].as_str());
            let ghost old_out = out@;
            out.push(x);
            assert(forall|k: int| 0 <= k < i ==> out@[k] == old_out[k]);
            i = i + 1;
        }
        out
    }

    /// Interpolates each value of a map; the keys and their order stay.
    pub fn interpolate_map(&self, map: &StrMap) -> (r: StrMap)
        ensures
            r.key_seq() == map.key_seq(),
            r@.dom() == map@.dom(),
            forall|k: Seq<char>| #[trigger] map@.contains_key(k) ==> is_interpolation_of(self@, map@[k], r@[k]),
    {
        let mut out = StrMap::new();
        map.lemma_unique();
        let mut i: usize = 0;
        while i < map.len()
            invariant
                i <= map.pairs().len(),
                out.key_seq() == map.key_seq().take(i as int),
                forall|k: int| 0 <= k < i ==> is_interpolation_of(self@, map.pairs()[k].1, #[trigger] out.pairs()[k].1),
                forall|k: int| 0 <= k < i ==> #[trigger] out.pairs()[k].0 == map.pairs()[k].0,
                out.pairs().len() == i,
                crate::strmap::keys_unique(map.pairs()),
            decreases map.pairs().len() - i,
        {
            let (k, v) = map.entry_at(i);
            let x = self.interpolate(v.as_str());
            out.lemma_unique();
            proof {
                assert forall|j: int| 0 <= j < out.pairs().len() implies out.pairs()[j].0 != k@ by {
                    assert(out.pairs()[j].0 == map.pairs()[j].0);
                }
            }
            let ghost before = out.pairs();
            assert(!out@.contains_key(k@));
            let kc = k.clone();
            out.insert(kc, x);
            assert(out.pairs() == before.push((k@, x@)));
            assert(map.pairs()[i as int] == (k@, v@));
            assert(out.key_seq() =~= map.key_seq().take(i + 1));
            i = i + 1;
        }
        out.lemma_unique();
        assert(out.key_seq() =~= map.key_seq());
        proof {
            assert forall|k: Seq<char>| #[trigger] map@.contains_key(k) implies is_interpolation_of(self@, map@[k], out@[k]) by {
                let j = choose|j: int| 0 <= j < map.pairs().len() && map.pairs()[j].0 == k;
                assert(out.pairs()[j].0 == k);
                assert(out@[out.pairs()[j].0] == out.pairs()[j].1);
                assert(map@[map.pairs()[j].0] == map.pairs()[j].1);
            }
            assert forall|k: Seq<char>| out@.dom().contains(k) <==> map@.dom().contains(k) by {
                if out@.contains_key(k) {
                    let j = choose|j: int| 0 <= j < out.pairs().len() && out.pairs()[j].0 == k;
                    assert(map.pairs()[j].0 == k);
                }
                if map@.contains_key(k) {
                    let j = choose|j: int| 0 <= j < map.pairs().len() && map.pairs()[j].0 == k;
                    assert(out.pairs()[j].0 == k);
                }
            }
            assert(out@.dom() =~= map@.dom());
        }
        out
    }
}

impl VariableContext {
    /// Adds (or replaces) a custom variable.
    pub fn set(&mut self, name: &str, value: &str)
        ensures
            final(self)@ == (VariableContextView {
                custom: old(self)@.custom.insert(name@, value@),
                ..old(self)@
            }),
    {
        self.custom.insert(crate::text::owned(name), crate::text::owned(value));
    }

    /// Adds each `(key, value)` pair of the process environment.
    pub fn populate_env(&mut self, vars: Vec<(String, String)>)
        ensures
            final(self)@ == (VariableContextView {
                env: map_insert_all(old(self)@.env, vars@.map_values(|e: (String, String)| (e.0@, e.1@))),
                ..old(self)@
            }),
    {
        let ghost pv = vars@.map_values(|e: (String, String)| (e.0@, e.1@));
        let ghost start = self@;
        let n = vars.len();
        let mut i: usize = 0;
        while i < n
            invariant
                i <= n,
                n == vars@.len(),
                pv == vars@.map_values(|e: (String, String)| (e.0@, e.1@)),
                self@ == (VariableContextView {
                    env: map_insert_all(start.env, pv.take(i as int)),
                    ..start
                }),
            decreases n - i,
        {
            let k = vars[i].0.clone();
            let v = vars[i].1.clone();
            assert((k@, v@) == pv[i as int]);
            self.env.insert(k, v);
            assert(pv.take(i + 1).drop_last() =~= pv.take(i as int));
            i = i + 1;
        }
        assert(pv.take(n as int) =~= pv);
    }
}

/// The map after inserting each pair in turn.
pub open spec fn map_insert_all(m: Map<Seq<char>, Seq<char>>, ps: Seq<(Seq<char>, Seq<char>)>) -> Map<Seq<char>, Seq<char>>
    decreases ps.len(),
{
    if ps.len() == 0 {
        m
    } else {
        map_insert_all(m, ps.drop_last()).insert(ps.last().0, ps.last().1)
    }
}

/// Builder for creating a [`VariableContext`].
pub struct VariableContextBuilder {
    ctx: VariableContext,
}

impl View for VariableContextBuilder {
    type V = VariableContextView;

    closed spec fn view(&self) -> VariableContextView {
        self.ctx@
    }
}

impl Default for VariableContextBuilder {
    /// A builder of the empty context, as `new` makes it.
    fn default() -> (r: Self)
        ensures
            r@ == empty_context(),
    {
        VariableContextBuilder::new()
    }
}

impl VariableContextBuilder {
    pub fn new() -> (r: Self)
        ensures
            r@ == empty_context(),
    {
        VariableContextBuilder { ctx: VariableContext::new() }
    }

    /// Sets the commit SHA and its first seven characters as the short SHA.
    pub fn with_git_sha(self, sha: &str) -> (r: Self)
        ensures
            r@ == (VariableContextView {
                git: GitContextView { sha: sha@, short_sha: first_chars(sha@, 7), ..self@.git },
                ..self@
            }),
    {
        let mut b = self;
        let c = chars_of(sha);
        let n: usize = if c.len() <= 7 { c.len() } else { 7 };
        let short = crate::text::slice_chars(c.as_slice(), 0, n);
        assert(c@.len() <= 7 ==> c@.subrange(0, n as int) =~= c@);
        b.ctx.git.short_sha = string_of(short.as_slice());
        b.ctx.git.sha = crate::text::owned(sha);
        b
    }

    /// Sets the branch; the ref becomes the tag where one is set, otherwise
    /// this branch.
    pub fn with_git_branch(self, branch: &str) -> (r: Self)
        ensures
            r@ == (VariableContextView {
                git: GitContextView {
                    branch: branch@,
                    ref_name: match self@.git.tag {
                        Some(t) => t,
                        None => branch@,
                    },
                    ..self@.git
                },
                ..self@
            }),
    {
        let mut b = self;
        let ref_name = match &b.ctx.git.tag {
            Some(t) => t.clone(),
            None => crate::text::owned(branch),
        };
        b.ctx.git.ref_name = ref_name;
        b.ctx.git.branch = crate::text::owned(branch);
        b
    }

    /// Sets the tag, which also becomes the ref.
    pub fn with_git_tag(self, tag: &str) -> (r: Self)
        ensures
            r@ == (VariableContextView {
                git: GitContextView { tag: Some(tag@), ref_name: tag@, ..self@.git },
                ..self@
            }),
    {
        let mut b = self;
        b.ctx.git.ref_name = crate::text::owned(tag);
        b.ctx.git.tag = Some(crate::text::owned(tag));
        b
    }

    pub fn with_pipeline(self, id: &str, name: &str) -> (r: Self)
        ensures
            r@ == (VariableContextView {
                pipeline: PipelineContextView { id: id@, name: name@, ..self@.pipeline },
                ..self@
            }),
    {
        let mut b = self;
        b.ctx.pipeline.id = crate::text::owned(id);
        b.ctx.pipeline.name = crate::text::owned(name);
        b
    }

    pub fn with_run(self, id: &str, number: u32) -> (r: Self)
        ensures
            r@ == (VariableContextView {
                run: RunContextView { id: id@, number, ..self@.run },
                ..self@
            }),
    {
        let mut b = self;
        b.ctx.run.id = crate::text::owned(id);
        b.ctx.run.number = number;
        b
    }

    pub fn with_stage(self, name: &str, index: usize) -> (r: Self)
        ensures
            r@ == (VariableContextView { stage: StageContextView { name: name@, index }, ..self@ }),
    {
        let mut b = self;
        b.ctx.stage.name = crate::text::owned(name);
        b.ctx.stage.index = index;
        b
    }

    pub fn with_env(self, key: &str, value: &str) -> (r: Self)
        ensures
            r@ == (VariableContextView { env: self@.env.insert(key@, value@), ..self@ }),
    {
        let mut b = self;
        b.ctx.env.insert(crate::text::owned(key), crate::text::owned(value));
        b
    }

    pub fn with_secret(self, key: &str, value: &str) -> (r: Self)
        ensures
            r@ == (VariableContextView { secrets: self@.secrets.insert(key@, value@), ..self@ }),
    {
        let mut b = self;
        b.ctx.secrets.insert(crate::text::owned(key), crate::text::owned(value));
        b
    }

    pub fn with_custom(self, key: &str, value: &str) -> (r: Self)
        ensures
            r@ == (VariableContextView { custom: self@.custom.insert(key@, value@), ..self@ }),
    {
        let mut b = self;
        b.ctx.custom.insert(crate::text::owned(key), crate::text::owned(value));
        b
    }

    pub fn build(self) -> (r: VariableContext)
        ensures
            r@ == self@,
    {
        self.ctx
    }
}

/// The value of the first of `keys` that is set in `env`.
pub open spec fn env_first(env: Map<Seq<char>, Seq<char>>, keys: Seq<Seq<char>>) -> Option<Seq<char>>
    decreases keys.len(),
{
    if keys.len() == 0 {
        None
    } else if env.contains_key(keys[0]) {
        Some(env[keys[0]])
    } else {
        env_first(env, keys.drop_first())
    }
}

pub open spec fn or_empty(o: Option<Seq<char>>) -> Seq<char> {
    match o {
        Some(s) => s,
        None => Seq::empty(),
    }
}

/// The git context read from the environment variables of common CI systems.
pub open spec fn git_from_env(g: GitContextView, env: Map<Seq<char>, Seq<char>>) -> GitContextView {
    let sha = or_empty(
        env_first(env, seq!["BUILDIT_COMMIT_SHA"@, "GIT_COMMIT"@, "GITHUB_SHA"@, "CI_COMMIT_SHA"@]),
    );
    let branch = or_empty(
        env_first(env, seq!["BUILDIT_BRANCH"@, "GIT_BRANCH"@, "GITHUB_REF_NAME"@, "CI_COMMIT_BRANCH"@]),
    );
    let tag = match env_first(env, seq!["BUILDIT_TAG"@, "CI_COMMIT_TAG"@]) {
        Some(t) => Some(t),
        None => if env.contains_key("GITHUB_REF_TYPE"@) && env["GITHUB_REF_TYPE"@] == "tag"@
            && env.contains_key("GITHUB_REF_NAME"@) {
            Some(env["GITHUB_REF_NAME"@])
        } else {
            None
        },
    };
    GitContextView {
        sha: sha,
        short_sha: if sha.len() > 0 {
            first_chars(sha, 7)
        } else {
            g.short_sha
        },
        branch: branch,
        tag: tag,
        ref_name: match tag {
            Some(t) => t,
            None => branch,
        },
        message: or_empty(env_first(env, seq!["BUILDIT_COMMIT_MESSAGE"@, "CI_COMMIT_MESSAGE"@])),
        author: or_empty(env_first(env, seq!["BUILDIT_COMMIT_AUTHOR"@, "CI_COMMIT_AUTHOR"@])),
        author_email: or_empty(env_first(env, seq!["BUILDIT_COMMIT_AUTHOR_EMAIL"@])),
    }
}

fn env_first_exec(env: &StrMap, keys: &[&str]) -> (r: Option<String>)
    ensures
        opt_view(r) == env_first(env@, keys@.map_values(|k: &str| k@)),
{
    let ghost ks = keys@.map_values(|k: &str| k@);
    assert(ks.skip(0) =~= ks);
    let mut i: usize = 0;
    while i < keys.len()
        invariant
            i <= keys.len(),
            ks == keys@.map_values(|k: &str| k@),
            env_first(env@, ks) == env_first(env@, ks.skip(i as int)),
        decreases keys.len() - i,
    {
        assert(ks.skip(i as int)[0] == keys@[i as int]@);
        assert(ks.skip(i as int).drop_first() =~= ks.skip(i + 1));
        match env.get(keys[i]) {
            Some(v) => {
                return Some(v.clone());
            },
            None => {},
        }
        i = i + 1;
    }
    None
}

fn first_chars_string(s: &str, n: usize) -> (r: String)
    ensures
        r@ == first_chars(s@, n as nat),
{
    let c = chars_of(s);
    let m: usize = if c.len() <= n { c.len() } else { n };
    let short = crate::text::slice_chars(c.as_slice(), 0, m);
    assert(c@.len() <= n ==> c@.subrange(0, m as int) =~= c@);
    string_of(short.as_slice())
}

/// Standard output of the git commands that describe a working copy, each
/// `None` where the command failed.
pub struct GitRepoOutputs {
    /// `git rev-parse HEAD`
    pub head_sha: Option<String>,
    /// `git rev-parse --abbrev-ref HEAD`
    pub abbrev_ref: Option<String>,
    /// `git describe --tags --exact-match HEAD`
    pub exact_tag: Option<String>,
    /// `git log -1 --format=%s`
    pub subject: Option<String>,
    /// `git log -1 --format=%an`
    pub author_name: Option<String>,
    /// `git log -1 --format=%ae`
    pub author_email: Option<String>,
}

/// The git context after reading the (trimmed) outputs of the git commands.
pub open spec fn git_from_repo(g: GitContextView, o: GitRepoOutputsView) -> GitContextView {
    let g1 = match o.head_sha {
        Some(x) => GitContextView { sha: trim_of(x), short_sha: first_chars(trim_of(x), 7), ..g },
        None => g,
    };
    let g2 = match o.abbrev_ref {
        Some(x) => if trim_of(x) != "HEAD"@ {
            GitContextView { branch: trim_of(x), ref_name: trim_of(x), ..g1 }
        } else {
            g1
        },
        None => g1,
    };
    let g3 = match o.exact_tag {
        Some(x) => GitContextView { tag: Some(trim_of(x)), ref_name: trim_of(x), ..g2 },
        None => g2,
    };
    let g4 = match o.subject {
        Some(x) => GitContextView { message: trim_of(x), ..g3 },
        None => g3,
    };
    let g5 = match o.author_name {
        Some(x) => GitContextView { author: trim_of(x), ..g4 },
        None => g4,
    };
    match o.author_email {
        Some(x) => GitContextView { author_email: trim_of(x), ..g5 },
        None => g5,
    }
}

pub struct GitRepoOutputsView {
    pub head_sha: Option<Seq<char>>,
    pub abbrev_ref: Option<Seq<char>>,
    pub exact_tag: Option<Seq<char>>,
    pub subject: Option<Seq<char>>,
    pub author_name: Option<Seq<char>>,
    pub author_email: Option<Seq<char>>,
}

impl View for GitRepoOutputs {
    type V = GitRepoOutputsView;

    open spec fn view(&self) -> GitRepoOutputsView {
        GitRepoOutputsView {
            head_sha: opt_view(self.head_sha),
            abbrev_ref: opt_view(self.abbrev_ref),
            exact_tag: opt_view(self.exact_tag),
            subject: opt_view(self.subject),
            author_name: opt_view(self.author_name),
            author_email: opt_view(self.author_email),
        }
    }
}

fn trimmed(s: &String) -> (r: String)
    ensures
        r@ == trim_of(s@),
{
    let c = chars_of(s.as_str());
    let t = trim_exec(c.as_slice());
    string_of(t.as_slice())
}

impl VariableContext {
    /// A context whose git part is read from the outputs of the git commands
    /// run in a working copy.
    pub fn from_git_repo(outputs: &GitRepoOutputs) -> (r: Self)
        ensures
            r@ == (VariableContextView {
                git: git_from_repo(empty_context().git, outputs@),
                ..empty_context()
            }),
    {
        let mut ctx = Self::new();
        ctx.populate_git_from_repo(outputs);
        ctx
    }

    /// Populates the git context from the outputs of the git commands.
    pub fn populate_git_from_repo(&mut self, o: &GitRepoOutputs)
        ensures
            final(self)@ == (VariableContextView { git: git_from_repo(old(self)@.git, o@), ..old(self)@ }),
    {
        if let Some(x) = &o.head_sha {
            let sha = trimmed(x);
            self.git.short_sha = first_chars_string(sha.as_str(), 7);
            self.git.sha = sha;
        }
        if let Some(x) = &o.abbrev_ref {
            let branch = trimmed(x);
            if !eq_str(chars_of(branch.as_str()).as_slice(), "HEAD") {
                self.git.branch = branch.clone();
                self.git.ref_name = branch;
            }
        }
        if let Some(x) = &o.exact_tag {
            let tag = trimmed(x);
            self.git.tag = Some(tag.clone());
            self.git.ref_name = tag;
        }
        if let Some(x) = &o.subject {
            self.git.message = trimmed(x);
        }
        if let Some(x) = &o.author_name {
            self.git.author = trimmed(x);
        }
        if let Some(x) = &o.author_email {
            self.git.author_email = trimmed(x);
        }
    }

    /// Populates the git context from the environment variables of common CI
    /// systems; `env` holds the process environment.
    pub fn populate_git_from_env(&mut self, env: &StrMap)
        ensures
            final(self)@ == (VariableContextView { git: git_from_env(old(self)@.git, env@), ..old(self)@ }),
    {
        let sha_keys = ["BUILDIT_COMMIT_SHA", "GIT_COMMIT", "GITHUB_SHA", "CI_COMMIT_SHA"];
        let branch_keys = ["BUILDIT_BRANCH", "GIT_BRANCH", "GITHUB_REF_NAME", "CI_COMMIT_BRANCH"];
        let tag_keys = ["BUILDIT_TAG", "CI_COMMIT_TAG"];
        let message_keys = ["BUILDIT_COMMIT_MESSAGE", "CI_COMMIT_MESSAGE"];
        let author_keys = ["BUILDIT_COMMIT_AUTHOR", "CI_COMMIT_AUTHOR"];
        let email_keys = ["BUILDIT_COMMIT_AUTHOR_EMAIL"];
        proof {
            let v = |k: &str| k@;
            assert(sha_keys@.map_values(v) =~= seq![
                "BUILDIT_COMMIT_SHA"@,
                "GIT_COMMIT"@,
                "GITHUB_SHA"@,
                "CI_COMMIT_SHA"@,
            ]);
            assert(branch_keys@.map_values(v) =~= seq![
                "BUILDIT_BRANCH"@,
                "GIT_BRANCH"@,
                "GITHUB_REF_NAME"@,
                "CI_COMMIT_BRANCH"@,
            ]);
            assert(tag_keys@.map_values(v) =~= seq!["BUILDIT_TAG"@, "CI_COMMIT_TAG"@]);
            assert(message_keys@.map_values(v) =~= seq!["BUILDIT_COMMIT_MESSAGE"@, "CI_COMMIT_MESSAGE"@]);
            assert(author_keys@.map_values(v) =~= seq!["BUILDIT_COMMIT_AUTHOR"@, "CI_COMMIT_AUTHOR"@]);
            assert(email_keys@.map_values(v) =~= seq!["BUILDIT_COMMIT_AUTHOR_EMAIL"@]);
        }
        let sha = match env_first_exec(env, &sha_keys) {
            Some(s) => s,
            None => String::new(),
        };
        if !sha.as_str().is_empty() {
            self.git.short_sha = first_chars_string(sha.as_str(), 7);
        }
        self.git.sha = sha;
        self.git.branch = match env_first_exec(env, &branch_keys) {
            Some(s) => s,
            None => String::new(),
        };
        let tag = match env_first_exec(env, &tag_keys) {
            Some(t) => Some(t),
            None => match env.get("GITHUB_REF_TYPE") {
                Some(t) => if eq_str(chars_of(t.as_str()).as_slice(), "tag") {
                    match env.get("GITHUB_REF_NAME") {
                        Some(n) => Some(n.clone()),
                        None => None,
                    }
                } else {
                    None
                },
                None => None,
            },
        };
        self.git.ref_name = match &tag {
            Some(t) => t.clone(),
            None => self.git.branch.clone(),
        };
        self.git.tag = tag;
        self.git.message = match env_first_exec(env, &message_keys) {
            Some(s) => s,
            None => String::new(),
        };
        self.git.author = match env_first_exec(env, &author_keys) {
            Some(s) => s,
            None => String::new(),
        };
        self.git.author_email = match env_first_exec(env, &email_keys) {
            Some(s) => s,
            None => String::new(),
        };
    }
}

} // verus!
