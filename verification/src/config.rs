//! Pipeline configuration parsing (the `buildit.kdl` format).
//!
//! A document holds `pipeline "name"`, `on "<trigger>" ...`, `stage "name"
//! needs=... { image ..; run ..; artifacts ..; env { K "v" } }`,
//! `cache "name" { path ..; key ..; restore_keys .. }` and `env { K "v" }`
//! nodes; other nodes are ignored.
use vstd::prelude::*;
use crate::dag::{cycle_text, dep_cycle, dep_reaches, depends, detect_cycle, last_index_of, lemma_last_named, stages_view};
use crate::ids::ResourceId;
use crate::kdl_doc::{KdlEntryData, KdlScalar};
use crate::kdl_doc::{
    bool_prop, first_string_arg, get_all_string_args, get_bool_prop, get_first_string_arg,
    get_string_list_prop, get_string_prop, string_args, string_list_prop, string_prop, KdlNodeData,
};
use crate::pipeline::{
    strings_view, CacheConfig, CacheConfigView, Pipeline, PipelineView, Stage, StageAction,
    StageActionView, StageCondition, StageView, Trigger, TriggerView,
};
use crate::strmap::StrMap;
use crate::text::{append_str, chars_of, eq_str, owned, string_of};

verus! {

#[verifier::external_type_specification]
#[verifier::external_body]
pub struct ExKdlError(kdl::KdlError);

/// Configuration parsing errors.
#[derive(Debug)]
pub enum ConfigError {
    /// The text is not a KDL document.
    Parse(kdl::KdlError),
    MissingField(String),
    InvalidValue { field: String, message: String },
    Duplicate(String),
    InvalidReference(String),
    CycleDetected(String),
}

pub enum ConfigErrorView {
    Parse,
    MissingField(Seq<char>),
    InvalidValue { field: Seq<char>, message: Seq<char> },
    Duplicate(Seq<char>),
    InvalidReference(Seq<char>),
    CycleDetected(Seq<char>),
}

impl View for ConfigError {
    type V = ConfigErrorView;

    open spec fn view(&self) -> ConfigErrorView {
        match self {
            ConfigError::Parse(_) => ConfigErrorView::Parse,
            ConfigError::MissingField(s) => ConfigErrorView::MissingField(s@),
            ConfigError::InvalidValue { field, message } => ConfigErrorView::InvalidValue {
                field: field@,
                message: message@,
            },
            ConfigError::Duplicate(s) => ConfigErrorView::Duplicate(s@),
            ConfigError::InvalidReference(s) => ConfigErrorView::InvalidReference(s@),
            ConfigError::CycleDetected(s) => ConfigErrorView::CycleDetected(s@),
        }
    }
}

/// The text of a configuration error.
pub open spec fn config_error_text(e: ConfigErrorView) -> Seq<char> {
    match e {
        ConfigErrorView::Parse => "KDL parse error: "@ + "Failed to parse KDL document"@,
        ConfigErrorView::MissingField(s) => "missing required field: "@ + s,
        ConfigErrorView::InvalidValue { field, message } => "invalid value for "@ + field + ": "@
            + message,
        ConfigErrorView::Duplicate(s) => "duplicate definition: "@ + s,
        ConfigErrorView::InvalidReference(s) => "invalid reference: "@ + s,
        ConfigErrorView::CycleDetected(s) => "cycle detected in dependencies: "@ + s,
    }
}

/// Calls `kdl::KdlError`'s `Display`, which writes the fixed text
/// "Failed to parse KDL document".
#[verifier::external_body]
fn kdl_error_text(e: &kdl::KdlError) -> (r: String)
    ensures
        r@ == "Failed to parse KDL document"@,
{
    e.to_string()
}

impl ConfigError {
    /// The error's message.
    pub fn message(&self) -> (r: String)
        ensures
            r@ == config_error_text(self@),
    {
        let mut out: Vec<char>;
        match self {
            ConfigError::Parse(e) => {
                out = chars_of("KDL parse error: ");
                let t = kdl_error_text(e);
                append_str(&mut out, t.as_str());
            },
            ConfigError::MissingField(m) => {
                out = chars_of("missing required field: ");
                append_str(&mut out, m.as_str());
            },
            ConfigError::InvalidValue { field, message } => {
                out = chars_of("invalid value for ");
                append_str(&mut out, field.as_str());
                append_str(&mut out, ": ");
                append_str(&mut out, message.as_str());
            },
            ConfigError::Duplicate(m) => {
                out = chars_of("duplicate definition: ");
                append_str(&mut out, m.as_str());
            },
            ConfigError::InvalidReference(m) => {
                out = chars_of("invalid reference: ");
                append_str(&mut out, m.as_str());
            },
            ConfigError::CycleDetected(m) => {
                out = chars_of("cycle detected in dependencies: ");
                append_str(&mut out, m.as_str());
            },
        }
        string_of(out.as_slice())
    }
}

pub open spec fn or_empty(o: Option<Seq<char>>) -> Seq<char> {
    match o {
        Some(s) => s,
        None => Seq::empty(),
    }
}

/// The trigger that an `on` node describes.
pub open spec fn trigger_spec(n: KdlNodeData) -> Result<TriggerView, ConfigErrorView> {
    let t = or_empty(first_string_arg(n));
    if t == "push"@ {
        let b = string_list_prop(n, "branches"@);
        let p = string_list_prop(n, "paths"@);
        Ok(
            TriggerView::Push {
                branches: if b.len() == 0 {
                    seq!["*"@]
                } else {
                    b
                },
                paths: if p.len() == 0 {
                    None
                } else {
                    Some(p)
                },
            },
        )
    } else if t == "pull_request"@ {
        let b = string_list_prop(n, "branches"@);
        Ok(
            TriggerView::PullRequest {
                branches: if b.len() == 0 {
                    None
                } else {
                    Some(b)
                },
            },
        )
    } else if t == "tag"@ {
        Ok(TriggerView::Tag { pattern: string_prop(n, "pattern"@) })
    } else if t == "schedule"@ {
        match string_prop(n, "cron"@) {
            Some(c) => Ok(TriggerView::Schedule { cron: c }),
            None => Err(ConfigErrorView::MissingField("schedule cron"@)),
        }
    } else if t == "manual"@ || t.len() == 0 {
        Ok(TriggerView::Manual)
    } else {
        Err(
            ConfigErrorView::InvalidValue {
                field: "trigger type"@,
                message: "unknown trigger type: "@ + t,
            },
        )
    }
}

/// What the children of a stage node set.
pub struct StageBody {
    pub image: Seq<char>,
    pub commands: Seq<Seq<char>>,
    pub artifacts: Seq<Seq<char>>,
    pub env: Map<Seq<char>, Seq<char>>,
}

/// An `env` block: each child `KEY "value"` sets `KEY`.
pub open spec fn env_block(m: Map<Seq<char>, Seq<char>>, cs: Seq<KdlNodeData>) -> Map<Seq<char>, Seq<char>>
    decreases cs.len(),
{
    if cs.len() == 0 {
        m
    } else {
        let m1 = env_block(m, cs.drop_last());
        match first_string_arg(cs.last()) {
            Some(v) => m1.insert(cs.last().name@, v),
            None => m1,
        }
    }
}

pub open spec fn env_of(m: Map<Seq<char>, Seq<char>>, n: KdlNodeData) -> Map<Seq<char>, Seq<char>> {
    match n.children {
        Some(cs) => env_block(m, cs@),
        None => m,
    }
}

pub open spec fn stage_body(cs: Seq<KdlNodeData>) -> StageBody
    decreases cs.len(),
{
    if cs.len() == 0 {
        StageBody { image: Seq::empty(), commands: Seq::empty(), artifacts: Seq::empty(), env: Map::empty() }
    } else {
        let b = stage_body(cs.drop_last());
        let c = cs.last();
        if c.name@ == "image"@ {
            StageBody { image: or_empty(first_string_arg(c)), ..b }
        } else if c.name@ == "run"@ {
            match first_string_arg(c) {
                Some(x) => StageBody { commands: b.commands.push(x), ..b },
                None => b,
            }
        } else if c.name@ == "artifacts"@ {
            match first_string_arg(c) {
                Some(x) => StageBody { artifacts: b.artifacts.push(x), ..b },
                None => b,
            }
        } else if c.name@ == "env"@ {
            StageBody { env: env_of(b.env, c), ..b }
        } else {
            b
        }
    }
}

/// The command of a `run` child: its first string argument.
pub open spec fn run_command(c: KdlNodeData) -> Option<Seq<char>> {
    if c.name@ == "run"@ {
        first_string_arg(c)
    } else {
        None
    }
}

/// The artifact path of an `artifacts` child: its first string argument.
pub open spec fn artifact_path(c: KdlNodeData) -> Option<Seq<char>> {
    if c.name@ == "artifacts"@ {
        first_string_arg(c)
    } else {
        None
    }
}

pub open spec fn run_commands(cs: Seq<KdlNodeData>) -> Seq<Seq<char>> {
    cs.filter_map(|c: KdlNodeData| run_command(c))
}

pub open spec fn artifact_paths(cs: Seq<KdlNodeData>) -> Seq<Seq<char>> {
    cs.filter_map(|c: KdlNodeData| artifact_path(c))
}

/// Every `run` child of a stage contributes its command and every
/// `artifacts` child its path, in order: the commands are exactly the first
/// string arguments of the `run` children (those that have one), and the
/// artifacts those of the `artifacts` children.
pub proof fn lemma_stage_body_lists(cs: Seq<KdlNodeData>)
    ensures
        stage_body(cs).commands == run_commands(cs),
        stage_body(cs).artifacts == artifact_paths(cs),
    decreases cs.len(),
{
    reveal_strlit("image");
    reveal_strlit("run");
    reveal_strlit("artifacts");
    reveal_strlit("env");
    assert("image"@.len() == 5 && "run"@.len() == 3 && "artifacts"@.len() == 9 && "env"@.len() == 3);
    assert("run"@[0] != "env"@[0]);
    if cs.len() > 0 {
        lemma_stage_body_lists(cs.drop_last());
        let b = stage_body(cs.drop_last());
        let c = cs.last();
        assert(cs.drop_last().len() < cs.len());
        assert(run_commands(cs) == match run_command(c) {
            Some(x) => run_commands(cs.drop_last()) + seq![x],
            None => run_commands(cs.drop_last()),
        });
        assert(artifact_paths(cs) == match artifact_path(c) {
            Some(x) => artifact_paths(cs.drop_last()) + seq![x],
            None => artifact_paths(cs.drop_last()),
        });
        match run_command(c) {
            Some(x) => {
                assert(b.commands.push(x) =~= run_commands(cs.drop_last()) + seq![x]);
            },
            None => {},
        }
        match artifact_path(c) {
            Some(x) => {
                assert(b.artifacts.push(x) =~= artifact_paths(cs.drop_last()) + seq![x]);
            },
            None => {},
        }
    }
}

/// The image of a stage is the first string argument of its last `image`
/// child (empty where that child has none), and empty without such a child.
pub proof fn lemma_stage_image(cs: Seq<KdlNodeData>)
    ensures
        (forall|i: int| 0 <= i < cs.len() ==> (#[trigger] cs[i]).name@ != "image"@) ==> stage_body(cs).image
            == Seq::<char>::empty(),
        forall|i: int|
            0 <= i < cs.len() && (#[trigger] cs[i]).name@ == "image"@ && (forall|j: int|
                i < j < cs.len() ==> cs[j].name@ != "image"@) ==> stage_body(cs).image == or_empty(
                first_string_arg(cs[i]),
            ),
    decreases cs.len(),
{
    reveal_strlit("image");
    reveal_strlit("run");
    reveal_strlit("artifacts");
    reveal_strlit("env");
    assert("image"@.len() == 5 && "run"@.len() == 3 && "artifacts"@.len() == 9 && "env"@.len() == 3);
    if cs.len() > 0 {
        let p = cs.drop_last();
        lemma_stage_image(p);
        let c = cs.last();
        if c.name@ != "image"@ {
            assert(stage_body(cs).image == stage_body(p).image);
            assert forall|i: int|
                0 <= i < cs.len() && (#[trigger] cs[i]).name@ == "image"@ && (forall|j: int|
                    i < j < cs.len() ==> cs[j].name@ != "image"@) implies stage_body(cs).image == or_empty(
                first_string_arg(cs[i]),
            ) by {
                assert(i < p.len());
                assert(p[i] == cs[i]);
                assert forall|j: int| i < j < p.len() implies p[j].name@ != "image"@ by {
                    assert(p[j] == cs[j]);
                }
            }
            if forall|i: int| 0 <= i < cs.len() ==> (#[trigger] cs[i]).name@ != "image"@ {
                assert forall|i: int| 0 <= i < p.len() implies (#[trigger] p[i]).name@ != "image"@ by {
                    assert(p[i] == cs[i]);
                }
            }
        } else {
            assert forall|i: int|
                0 <= i < cs.len() && (#[trigger] cs[i]).name@ == "image"@ && (forall|j: int|
                    i < j < cs.len() ==> cs[j].name@ != "image"@) implies stage_body(cs).image == or_empty(
                first_string_arg(cs[i]),
            ) by {
                if i < cs.len() - 1 {
                    assert(cs[cs.len() - 1].name@ != "image"@);
                }
            }
            assert(cs[cs.len() - 1] == c);
        }
    }
}

/// A parsed stage runs exactly the commands of its `run` children, in order,
/// and keeps exactly the artifact paths of its `artifacts` children.
pub proof fn lemma_stage_commands(n: KdlNodeData)
    requires
        stage_spec(n) is Ok,
    ensures
        ({
            let cs = match n.children {
                Some(cs) => cs@,
                None => Seq::<KdlNodeData>::empty(),
            };
            stage_spec(n)->Ok_0.action matches StageActionView::Run { commands, artifacts, .. } && commands
                == run_commands(cs) && artifacts == artifact_paths(cs)
        }),
{
    match n.children {
        Some(cs) => lemma_stage_body_lists(cs@),
        None => lemma_stage_body_lists(Seq::<KdlNodeData>::empty()),
    }
}

/// The stage that a `stage` node describes.
pub open spec fn stage_spec(n: KdlNodeData) -> Result<StageView, ConfigErrorView> {
    match first_string_arg(n) {
        None => Err(ConfigErrorView::MissingField("stage name"@)),
        Some(name) => {
            let body = match n.children {
                Some(cs) => stage_body(cs@),
                None => stage_body(Seq::empty()),
            };
            if body.image.len() == 0 {
                Err(ConfigErrorView::MissingField("image for stage '"@ + name + "'"@))
            } else {
                Ok(
                    StageView {
                        name: name,
                        needs: string_list_prop(n, "needs"@),
                        when: string_prop(n, "when"@),
                        manual: match bool_prop(n, "manual"@) {
                            Some(b) => b,
                            None => false,
                        },
                        action: StageActionView::Run {
                            image: body.image,
                            commands: body.commands,
                            artifacts: body.artifacts,
                        },
                        env: body.env,
                    },
                )
            }
        },
    }
}

pub open spec fn cache_body(c: CacheConfigView, cs: Seq<KdlNodeData>) -> CacheConfigView
    decreases cs.len(),
{
    if cs.len() == 0 {
        c
    } else {
        let b = cache_body(c, cs.drop_last());
        let x = cs.last();
        if x.name@ == "path"@ {
            match first_string_arg(x) {
                Some(p) => CacheConfigView { paths: b.paths.push(p), ..b },
                None => b,
            }
        } else if x.name@ == "key"@ {
            CacheConfigView { key: or_empty(first_string_arg(x)), ..b }
        } else if x.name@ == "restore_keys"@ || x.name@ == "restore-keys"@ {
            CacheConfigView { restore_keys: string_args(x.entries@), ..b }
        } else {
            b
        }
    }
}

/// The cache path of a `path` child: its first string argument.
pub open spec fn cache_path(c: KdlNodeData) -> Option<Seq<char>> {
    if c.name@ == "path"@ {
        first_string_arg(c)
    } else {
        None
    }
}

/// Every `path` child of a cache contributes its path, in order, after the
/// paths the cache had; the name is kept.
pub proof fn lemma_cache_paths(c: CacheConfigView, cs: Seq<KdlNodeData>)
    ensures
        cache_body(c, cs).paths == c.paths + cs.filter_map(|x: KdlNodeData| cache_path(x)),
        cache_body(c, cs).name == c.name,
    decreases cs.len(),
{
    reveal_strlit("path");
    reveal_strlit("key");
    reveal_strlit("restore_keys");
    reveal_strlit("restore-keys");
    assert("path"@.len() == 4 && "key"@.len() == 3 && "restore_keys"@.len() == 12 && "restore-keys"@.len() == 12);
    if cs.len() == 0 {
        assert(c.paths + Seq::<Seq<char>>::empty() =~= c.paths);
    } else {
        lemma_cache_paths(c, cs.drop_last());
        let b = cache_body(c, cs.drop_last());
        let rest = cs.drop_last().filter_map(|x: KdlNodeData| cache_path(x));
        match cache_path(cs.last()) {
            Some(p) => {
                assert(cs.filter_map(|x: KdlNodeData| cache_path(x)) == rest + seq![p]);
                assert(b.paths.push(p) =~= c.paths + (rest + seq![p]));
            },
            None => {
                assert(cs.filter_map(|x: KdlNodeData| cache_path(x)) == rest);
            },
        }
    }
}

/// The cache that a `cache` node describes.
pub open spec fn cache_spec(n: KdlNodeData) -> Result<CacheConfigView, ConfigErrorView> {
    match first_string_arg(n) {
        None => Err(ConfigErrorView::MissingField("cache name"@)),
        Some(name) => {
            let c = CacheConfigView { name: name, paths: Seq::empty(), key: Seq::empty(), restore_keys: Seq::empty() };
            Ok(
                match n.children {
                    Some(cs) => cache_body(c, cs@),
                    None => c,
                },
            )
        },
    }
}

/// What the top-level nodes of a document declare.
pub struct DocAcc {
    pub name: Seq<char>,
    pub triggers: Seq<TriggerView>,
    pub stages: Seq<StageView>,
    pub caches: Seq<CacheConfigView>,
    pub env: Map<Seq<char>, Seq<char>>,
}

/// The top-level nodes read in order; the first error stops the reading.
pub open spec fn doc_fold(nodes: Seq<KdlNodeData>) -> Result<DocAcc, ConfigErrorView>
    decreases nodes.len(),
{
    if nodes.len() == 0 {
        Ok(DocAcc { name: Seq::empty(), triggers: Seq::empty(), stages: Seq::empty(), caches: Seq::empty(), env: Map::empty() })
    } else {
        match doc_fold(nodes.drop_last()) {
            Err(e) => Err(e),
            Ok(acc) => {
                let n = nodes.last();
                if n.name@ == "pipeline"@ {
                    match first_string_arg(n) {
                        Some(x) => Ok(DocAcc { name: x, ..acc }),
                        None => Err(ConfigErrorView::MissingField("pipeline name"@)),
                    }
                } else if n.name@ == "on"@ {
                    match trigger_spec(n) {
                        Ok(t) => Ok(DocAcc { triggers: acc.triggers.push(t), ..acc }),
                        Err(e) => Err(e),
                    }
                } else if n.name@ == "stage"@ {
                    match stage_spec(n) {
                        Ok(s) => Ok(DocAcc { stages: acc.stages.push(s), ..acc }),
                        Err(e) => Err(e),
                    }
                } else if n.name@ == "cache"@ {
                    match cache_spec(n) {
                        Ok(c) => Ok(DocAcc { caches: acc.caches.push(c), ..acc }),
                        Err(e) => Err(e),
                    }
                } else if n.name@ == "env"@ {
                    Ok(DocAcc { env: env_of(acc.env, n), ..acc })
                } else {
                    Ok(acc)
                }
            },
        }
    }
}

/// The first dependency in `needs` that is not among `names`.
pub open spec fn first_unknown(needs: Seq<Seq<char>>, names: Seq<Seq<char>>) -> Option<Seq<char>>
    decreases needs.len(),
{
    if needs.len() == 0 {
        None
    } else {
        match first_unknown(needs.drop_last(), names) {
            Some(d) => Some(d),
            None => if names.contains(needs.last()) {
                None
            } else {
                Some(needs.last())
            },
        }
    }
}

/// The first stage, in order, with a dependency on an unknown stage, and that dependency.
pub open spec fn first_missing_dep(stages: Seq<StageView>, names: Seq<Seq<char>>) -> Option<(Seq<char>, Seq<char>)>
    decreases stages.len(),
{
    if stages.len() == 0 {
        None
    } else {
        match first_missing_dep(stages.drop_last(), names) {
            Some(p) => Some(p),
            None => match first_unknown(stages.last().needs, names) {
                Some(d) => Some((stages.last().name, d)),
                None => None,
            },
        }
    }
}

pub open spec fn stage_names(stages: Seq<StageView>) -> Seq<Seq<char>> {
    stages.map_values(|s: StageView| s.name)
}

/// The document read, checked for a name and for dependencies on unknown stages.
pub open spec fn checked_doc(nodes: Seq<KdlNodeData>) -> Result<DocAcc, ConfigErrorView> {
    match doc_fold(nodes) {
        Err(e) => Err(e),
        Ok(acc) => if acc.name.len() == 0 {
            Err(ConfigErrorView::MissingField("pipeline name"@))
        } else {
            match first_missing_dep(acc.stages, stage_names(acc.stages)) {
                Some((s, d)) => Err(
                    ConfigErrorView::InvalidReference(
                        "stage '"@ + s + "' depends on unknown stage '"@ + d + "'"@,
                    ),
                ),
                None => Ok(acc),
            }
        },
    }
}

fn missing(what: &str) -> (r: ConfigError)
    ensures
        r@ == ConfigErrorView::MissingField(what@),
{
    ConfigError::MissingField(crate::text::owned(what))
}

/// Parses an `on` node.
pub fn parse_trigger(node: &KdlNodeData) -> (r: Result<Trigger, ConfigError>)
    ensures
        match (r, trigger_spec(*node)) {
            (Ok(t), Ok(v)) => t@ == v,
            (Err(e), Err(v)) => e@ == v,
            _ => false,
        },
{
    let trigger_type = match get_first_string_arg(node) {
        Some(t) => t,
        None => String::new(),
    };
    let tc = chars_of(trigger_type.as_str());
    if eq_str(tc.as_slice(), "push") {
        let branches = get_string_list_prop(node, "branches");
        let paths = get_string_list_prop(node, "paths");
        let branches = if branches.len() == 0 {
            let mut v: Vec<String> = Vec::new();
            v.push(crate::text::owned("*"));
            assert(v@.map_values(|s: String| s@) =~= seq!["*"@]);
            v
        } else {
            branches
        };
        let paths = if paths.len() == 0 {
            None
        } else {
            Some(paths)
        };
        Ok(Trigger::Push { branches, paths })
    } else if eq_str(tc.as_slice(), "pull_request") {
        let branches = get_string_list_prop(node, "branches");
        Ok(
            Trigger::PullRequest {
                branches: if branches.len() == 0 {
                    None
                } else {
                    Some(branches)
                },
            },
        )
    } else if eq_str(tc.as_slice(), "tag") {
        Ok(Trigger::Tag { pattern: get_string_prop(node, "pattern") })
    } else if eq_str(tc.as_slice(), "schedule") {
        match get_string_prop(node, "cron") {
            Some(c) => Ok(Trigger::Schedule { cron: c }),
            None => Err(missing("schedule cron")),
        }
    } else if eq_str(tc.as_slice(), "manual") || tc.len() == 0 {
        Ok(Trigger::Manual)
    } else {
        let mut m: Vec<char> = Vec::new();
        append_str(&mut m, "unknown trigger type: ");
        append_str(&mut m, trigger_type.as_str());
        Err(
            ConfigError::InvalidValue {
                field: crate::text::owned("trigger type"),
                message: string_of(m.as_slice()),
            },
        )
    }
}

fn env_block_exec(m: &mut StrMap, cs: &Vec<KdlNodeData>)
    ensures
        final(m)@ == env_block(old(m)@, cs@),
{
    let mut i: usize = 0;
    let ghost start = m@;
    while i < cs.len()
        invariant
            i <= cs.len(),
            m@ == env_block(start, cs@.take(i as int)),
        decreases cs.len() - i,
    {
        assert(cs@.take(i + 1).drop_last() =~= cs@.take(i as int));
        if let Some(v) = get_first_string_arg(&cs[i]) {
            m.insert(cs[i].name.clone(), v);
        }
        i = i + 1;
    }
    assert(cs@.take(i as int) =~= cs@);
}

/// Parses a `stage` node.
pub fn parse_stage(node: &KdlNodeData) -> (r: Result<Stage, ConfigError>)
    ensures
        match (r, stage_spec(*node)) {
            (Ok(s), Ok(v)) => s@ == v,
            (Err(e), Err(v)) => e@ == v,
            _ => false,
        },
{
    let name = match get_first_string_arg(node) {
        Some(n) => n,
        None => {
            return Err(missing("stage name"));
        },
    };
    let needs = get_string_list_prop(node, "needs");
    let manual = match get_bool_prop(node, "manual") {
        Some(b) => b,
        None => false,
    };
    let when = match get_string_prop(node, "when") {
        Some(e) => Some(StageCondition { expression: e }),
        None => None,
    };
    let mut image = String::new();
    let mut commands: Vec<String> = Vec::new();
    let mut artifacts: Vec<String> = Vec::new();
    let mut env = StrMap::new();
    let empty: Vec<KdlNodeData> = Vec::new();
    let cs = match &node.children {
        Some(cs) => cs,
        None => &empty,
    };
    let mut i: usize = 0;
    while i < cs.len()
        invariant
            i <= cs.len(),
            ({
                let b = stage_body(cs@.take(i as int));
                &&& image@ == b.image
                &&& strings_view(commands@) == b.commands
                &&& strings_view(artifacts@) == b.artifacts
                &&& env@ == b.env
            }),
        decreases cs.len() - i,
    {
        assert(cs@.take(i + 1).drop_last() =~= cs@.take(i as int));
        let c = &cs[i];
        let cn = chars_of(c.name.as_str());
        if eq_str(cn.as_slice(), "image") {
            image = match get_first_string_arg(c) {
                Some(x) => x,
                None => String::new(),
            };
        } else if eq_str(cn.as_slice(), "run") {
            if let Some(x) = get_first_string_arg(c) {
                let ghost old = commands@;
                commands.push(x);
                assert(strings_view(commands@) =~= strings_view(old).push(x@));
            }
        } else if eq_str(cn.as_slice(), "artifacts") {
            if let Some(x) = get_first_string_arg(c) {
                let ghost old = artifacts@;
                artifacts.push(x);
                assert(strings_view(artifacts@) =~= strings_view(old).push(x@));
            }
        } else if eq_str(cn.as_slice(), "env") {
            if let Some(gcs) = &c.children {
                env_block_exec(&mut env, gcs);
            }
        }
        i = i + 1;
    }
    assert(cs@.take(i as int) =~= cs@);
    proof {
        if node.children is Some {
            assert(cs@ == node.children->0@);
        } else {
            assert(cs@ == Seq::<KdlNodeData>::empty());
        }
    }
    if image.as_str().is_empty() {
        let mut m: Vec<char> = Vec::new();
        append_str(&mut m, "image for stage '");
        append_str(&mut m, name.as_str());
        append_str(&mut m, "'");
        return Err(ConfigError::MissingField(string_of(m.as_slice())));
    }
    Ok(
        Stage {
            name,
            needs,
            when,
            manual,
            action: StageAction::Run { image, commands, artifacts },
            env,
        },
    )
}

/// Parses a `cache` node.
pub fn parse_cache(node: &KdlNodeData) -> (r: Result<CacheConfig, ConfigError>)
    ensures
        match (r, cache_spec(*node)) {
            (Ok(c), Ok(v)) => c@ == v,
            (Err(e), Err(v)) => e@ == v,
            _ => false,
        },
{
    let name = match get_first_string_arg(node) {
        Some(n) => n,
        None => {
            return Err(missing("cache name"));
        },
    };
    let mut paths: Vec<String> = Vec::new();
    let mut key = String::new();
    let mut restore_keys: Vec<String> = Vec::new();
    let empty: Vec<KdlNodeData> = Vec::new();
    let cs = match &node.children {
        Some(cs) => cs,
        None => &empty,
    };
    let ghost c0 = CacheConfigView { name: name@, paths: Seq::empty(), key: Seq::empty(), restore_keys: Seq::empty() };
    assert(strings_view(paths@) =~= Seq::<Seq<char>>::empty());
    let mut i: usize = 0;
    while i < cs.len()
        invariant
            i <= cs.len(),
            ({
                let b = cache_body(c0, cs@.take(i as int));
                &&& b.name == name@
                &&& strings_view(paths@) == b.paths
                &&& key@ == b.key
                &&& strings_view(restore_keys@) == b.restore_keys
            }),
        decreases cs.len() - i,
    {
        assert(cs@.take(i + 1).drop_last() =~= cs@.take(i as int));
        let c = &cs[i];
        let cn = chars_of(c.name.as_str());
        if eq_str(cn.as_slice(), "path") {
            if let Some(p) = get_first_string_arg(c) {
                let ghost old = paths@;
                paths.push(p);
                assert(strings_view(paths@) =~= strings_view(old).push(p@));
            }
        } else if eq_str(cn.as_slice(), "key") {
            key = match get_first_string_arg(c) {
                Some(x) => x,
                None => String::new(),
            };
        } else if eq_str(cn.as_slice(), "restore_keys") || eq_str(cn.as_slice(), "restore-keys") {
            restore_keys = get_all_string_args(c);
        }
        i = i + 1;
    }
    assert(cs@.take(i as int) =~= cs@);
    proof {
        if node.children is Some {
            assert(cs@ == node.children->0@);
        } else {
            assert(cs@ == Seq::<KdlNodeData>::empty());
        }
    }
    Ok(CacheConfig { name, paths, key, restore_keys })
}


/// Once an error stops the reading, later nodes do not change it.
proof fn lemma_fold_sticky(nodes: Seq<KdlNodeData>, i: int)
    requires
        0 <= i <= nodes.len(),
        doc_fold(nodes.take(i)) is Err,
    ensures
        doc_fold(nodes) == doc_fold(nodes.take(i)),
    decreases nodes.len() - i,
{
    if i < nodes.len() {
        assert(nodes.take(i + 1).drop_last() =~= nodes.take(i));
        lemma_fold_sticky(nodes, i + 1);
    } else {
        assert(nodes.take(i) =~= nodes);
    }
}

pub open spec fn triggers_view(v: Seq<Trigger>) -> Seq<TriggerView> {
    v.map_values(|t: Trigger| t@)
}

pub open spec fn caches_view(v: Seq<CacheConfig>) -> Seq<CacheConfigView> {
    v.map_values(|c: CacheConfig| c@)
}

/// The pipeline that a checked document describes.
pub open spec fn pipeline_view_of(acc: DocAcc, id: ResourceId, tenant_id: ResourceId) -> PipelineView {
    PipelineView {
        id: id,
        name: acc.name,
        tenant_id: tenant_id,
        repository: Seq::empty(),
        triggers: acc.triggers,
        stages: acc.stages,
        env: acc.env,
        caches: acc.caches,
    }
}

/// `m` reads `a -> b` for the dependency of `a` on `b` that the
/// depth-first search finds first leading back onto its path (so one that
/// lies on a cycle).
pub open spec fn cycle_message(stages: Seq<StageView>, m: Seq<char>) -> bool {
    &&& m == cycle_text(stages)
    &&& exists|a: Seq<char>, b: Seq<char>|
        m == a + " -> "@ + b && depends(stages, a, b) && dep_reaches(stages, b, a)
}

/// What reading the nodes of a document gives: the first error met, a
/// cycle among the stages, or the pipeline with the given ids.
pub open spec fn pipeline_outcome(
    nodes: Seq<KdlNodeData>,
    id: ResourceId,
    tenant_id: ResourceId,
    r: Result<Pipeline, ConfigError>,
) -> bool {
    match checked_doc(nodes) {
        Err(e) => r matches Err(x) && x@ == e,
        Ok(acc) => if dep_cycle(acc.stages) {
            r matches Err(x) && x@ matches ConfigErrorView::CycleDetected(m) && cycle_message(
                acc.stages,
                m,
            )
        } else {
            r matches Ok(p) && p@ == pipeline_view_of(acc, id, tenant_id)
        },
    }
}

/// Whether some stage is called `name`.
fn has_stage(stages: &Vec<Stage>, name: &str) -> (b: bool)
    ensures
        b == stage_names(stages_view(stages@)).contains(name@),
{
    let ghost sv = stages_view(stages@);
    let r = last_index_of(stages, name);
    proof {
        lemma_last_named(sv, name@);
        if stage_names(sv).contains(name@) {
            let k = choose|k: int| 0 <= k < stage_names(sv).len() && stage_names(sv)[k] == name@;
            assert(sv[k].name == name@);
        }
        if r is Some {
            assert(stage_names(sv)[r->0 as int] == name@);
        }
    }
    r.is_some()
}

/// The first dependency on a stage that does not exist, as
/// `(stage, dependency)`.
fn find_missing_dep(stages: &Vec<Stage>) -> (r: Option<(usize, usize)>)
    ensures
        match r {
            Some((i, k)) => i < stages.len() && k < stages@[i as int].needs.len() && first_missing_dep(
                stages_view(stages@),
                stage_names(stages_view(stages@)),
            ) == Some((stages@[i as int].name@, stages@[i as int].needs@[k as int]@)),
            None => first_missing_dep(stages_view(stages@), stage_names(stages_view(stages@)))
                is None,
        },
{
    let ghost sv = stages_view(stages@);
    let ghost names = stage_names(sv);
    let mut i: usize = 0;
    while i < stages.len()
        invariant
            i <= stages.len(),
            sv == stages_view(stages@),
            names == stage_names(sv),
            first_missing_dep(sv.take(i as int), names) is None,
        decreases stages.len() - i,
    {
        assert(sv.take(i + 1).drop_last() =~= sv.take(i as int));
        let needs = &stages[i].needs;
        let ghost ns = sv[i as int].needs;
        let mut k: usize = 0;
        while k < needs.len()
            invariant
                i < stages.len(),
                sv == stages_view(stages@),
                names == stage_names(sv),
                needs@ == stages@[i as int].needs@,
                ns == strings_view(needs@),
                k <= needs.len(),
                first_missing_dep(sv.take(i as int), names) is None,
                first_unknown(ns.take(k as int), names) is None,
            decreases needs.len() - k,
        {
            assert(ns.take(k + 1).drop_last() =~= ns.take(k as int));
            if !has_stage(stages, needs[k].as_str()) {
                proof {
                    assert(ns[k as int] == needs@[k as int]@);
                    lemma_first_unknown_prefix(ns, k as int + 1, names);
                    assert(sv.take(i + 1).drop_last() =~= sv.take(i as int));
                    assert(sv.take(i + 1).last() == sv[i as int]);
                    assert(first_missing_dep(sv.take(i + 1), names) == Some(
                        (sv[i as int].name, ns[k as int]),
                    ));
                    lemma_missing_prefix(sv, i as int + 1, names);
                }
                return Some((i, k));
            }
            k = k + 1;
        }
        assert(ns.take(k as int) =~= ns);
        i = i + 1;
    }
    assert(sv.take(i as int) =~= sv);
    None
}

proof fn lemma_first_unknown_prefix(ns: Seq<Seq<char>>, k: int, names: Seq<Seq<char>>)
    requires
        0 < k <= ns.len(),
        first_unknown(ns.take(k - 1), names) is None,
        !names.contains(ns[k - 1]),
    ensures
        first_unknown(ns, names) == Some(ns[k - 1]),
    decreases ns.len() - k,
{
    assert(ns.take(k).drop_last() =~= ns.take(k - 1));
    if k < ns.len() {
        lemma_first_unknown_extend(ns, k, names);
    } else {
        assert(ns.take(k) =~= ns);
    }
}

proof fn lemma_first_unknown_extend(ns: Seq<Seq<char>>, k: int, names: Seq<Seq<char>>)
    requires
        0 < k <= ns.len(),
        first_unknown(ns.take(k), names) is Some,
    ensures
        first_unknown(ns, names) == first_unknown(ns.take(k), names),
    decreases ns.len() - k,
{
    if k < ns.len() {
        assert(ns.take(k + 1).drop_last() =~= ns.take(k));
        lemma_first_unknown_extend(ns, k + 1, names);
    } else {
        assert(ns.take(k) =~= ns);
    }
}

proof fn lemma_missing_prefix(sv: Seq<StageView>, i: int, names: Seq<Seq<char>>)
    requires
        0 < i <= sv.len(),
        first_missing_dep(sv.take(i), names) is Some,
    ensures
        first_missing_dep(sv, names) == first_missing_dep(sv.take(i), names),
    decreases sv.len() - i,
{
    if i < sv.len() {
        assert(sv.take(i + 1).drop_last() =~= sv.take(i));
        lemma_missing_prefix(sv, i + 1, names);
    } else {
        assert(sv.take(i) =~= sv);
    }
}

proof fn lemma_no_unknown(needs: Seq<Seq<char>>, names: Seq<Seq<char>>)
    requires
        first_unknown(needs, names) is None,
    ensures
        forall|k: int| 0 <= k < needs.len() ==> names.contains(#[trigger] needs[k]),
    decreases needs.len(),
{
    if needs.len() > 0 {
        lemma_no_unknown(needs.drop_last(), names);
        assert forall|k: int| 0 <= k < needs.len() implies names.contains(#[trigger] needs[k]) by {
            if k < needs.len() - 1 {
                assert(needs.drop_last()[k] == needs[k]);
            }
        }
    }
}

proof fn lemma_no_missing_dep(stages: Seq<StageView>, names: Seq<Seq<char>>)
    requires
        first_missing_dep(stages, names) is None,
    ensures
        forall|i: int, k: int|
            0 <= i < stages.len() && 0 <= k < stages[i].needs.len() ==> names.contains(
                #[trigger] stages[i].needs[k],
            ),
    decreases stages.len(),
{
    if stages.len() > 0 {
        let p = stages.drop_last();
        lemma_no_missing_dep(p, names);
        lemma_no_unknown(stages.last().needs, names);
        assert forall|i: int, k: int|
            0 <= i < stages.len() && 0 <= k < stages[i].needs.len() implies names.contains(
                #[trigger] stages[i].needs[k],
            ) by {
            if i < stages.len() - 1 {
                assert(p[i] == stages[i]);
                assert(names.contains(p[i].needs[k]));
            } else {
                let last = stages.last().needs;
                assert(stages[i].needs == last);
                assert(names.contains(last[k]));
            }
        }
    }
}

/// A configuration that parses into a pipeline gives it a name, every
/// need of its stages names one of its stages, and the needs form no
/// cycle.
pub proof fn lemma_parsed_pipeline_well_formed(
    nodes: Seq<KdlNodeData>,
    id: ResourceId,
    tenant_id: ResourceId,
    r: Result<Pipeline, ConfigError>,
)
    requires
        pipeline_outcome(nodes, id, tenant_id, r),
        r is Ok,
    ensures
        r->Ok_0.name@.len() > 0,
        !dep_cycle(stages_view(r->Ok_0.stages@)),
        forall|i: int, k: int|
            0 <= i < r->Ok_0.stages@.len() && 0 <= k < r->Ok_0.stages@[i]@.needs.len() ==> stage_names(
                stages_view(r->Ok_0.stages@),
            ).contains(#[trigger] r->Ok_0.stages@[i]@.needs[k]),
{
    let acc = checked_doc(nodes)->Ok_0;
    let p = r->Ok_0;
    assert(p@ == pipeline_view_of(acc, id, tenant_id));
    assert(stages_view(p.stages@) =~= acc.stages);
    lemma_no_missing_dep(acc.stages, stage_names(acc.stages));
    assert forall|i: int, k: int|
        0 <= i < p.stages@.len() && 0 <= k < p.stages@[i]@.needs.len() implies stage_names(
            stages_view(p.stages@),
        ).contains(#[trigger] p.stages@[i]@.needs[k]) by {
        assert(acc.stages[i] == p.stages@[i]@);
    }
}

/// Builds a pipeline from the top-level nodes of a document: reads the
/// `pipeline`, `on`, `stage`, `cache` and `env` nodes in order, then checks
/// that the pipeline has a name, that every dependency names a stage, and
/// that no stage depends on itself through a chain of dependencies.
pub fn pipeline_from_nodes(nodes: &Vec<KdlNodeData>, id: ResourceId, tenant_id: ResourceId) -> (r:
    Result<Pipeline, ConfigError>)
    ensures
        pipeline_outcome(nodes@, id, tenant_id, r),
{
    let mut name = String::new();
    let mut triggers: Vec<Trigger> = Vec::new();
    let mut stages: Vec<Stage> = Vec::new();
    let mut caches: Vec<CacheConfig> = Vec::new();
    let mut env = StrMap::new();
    let mut i: usize = 0;
    assert(nodes@.take(0) =~= Seq::<KdlNodeData>::empty());
    assert(triggers_view(triggers@) =~= Seq::<TriggerView>::empty());
    assert(stages_view(stages@) =~= Seq::<StageView>::empty());
    assert(caches_view(caches@) =~= Seq::<CacheConfigView>::empty());
    while i < nodes.len()
        invariant
            i <= nodes.len(),
            doc_fold(nodes@.take(i as int)) == Ok::<DocAcc, ConfigErrorView>(
                DocAcc {
                    name: name@,
                    triggers: triggers_view(triggers@),
                    stages: stages_view(stages@),
                    caches: caches_view(caches@),
                    env: env@,
                },
            ),
        decreases nodes.len() - i,
    {
        assert(nodes@.take(i + 1).drop_last() =~= nodes@.take(i as int));
        let n = &nodes[i];
        let nn = chars_of(n.name.as_str());
        if eq_str(nn.as_slice(), "pipeline") {
            match get_first_string_arg(n) {
                Some(x) => {
                    name = x;
                },
                None => {
                    proof {
                        lemma_fold_sticky(nodes@, i + 1);
                    }
                    return Err(missing("pipeline name"));
                },
            }
        } else if eq_str(nn.as_slice(), "on") {
            match parse_trigger(n) {
                Ok(t) => {
                    let ghost old = triggers@;
                    triggers.push(t);
                    assert(triggers_view(triggers@) =~= triggers_view(old).push(t@));
                },
                Err(e) => {
                    proof {
                        lemma_fold_sticky(nodes@, i + 1);
                    }
                    return Err(e);
                },
            }
        } else if eq_str(nn.as_slice(), "stage") {
            match parse_stage(n) {
                Ok(st) => {
                    let ghost old = stages@;
                    stages.push(st);
                    assert(stages_view(stages@) =~= stages_view(old).push(st@));
                },
                Err(e) => {
                    proof {
                        lemma_fold_sticky(nodes@, i + 1);
                    }
                    return Err(e);
                },
            }
        } else if eq_str(nn.as_slice(), "cache") {
            match parse_cache(n) {
                Ok(c) => {
                    let ghost old = caches@;
                    caches.push(c);
                    assert(caches_view(caches@) =~= caches_view(old).push(c@));
                },
                Err(e) => {
                    proof {
                        lemma_fold_sticky(nodes@, i + 1);
                    }
                    return Err(e);
                },
            }
        } else if eq_str(nn.as_slice(), "env") {
            if let Some(cs) = &n.children {
                env_block_exec(&mut env, cs);
            }
        }
        i = i + 1;
    }
    assert(nodes@.take(i as int) =~= nodes@);
    if name.as_str().is_empty() {
        return Err(missing("pipeline name"));
    }
    if let Some((si, k)) = find_missing_dep(&stages) {
        let mut m: Vec<char> = Vec::new();
        append_str(&mut m, "stage '");
        append_str(&mut m, stages[si].name.as_str());
        append_str(&mut m, "' depends on unknown stage '");
        append_str(&mut m, stages[si].needs[k].as_str());
        append_str(&mut m, "'");
        return Err(ConfigError::InvalidReference(string_of(m.as_slice())));
    }
    if let Err(cycle) = detect_cycle(&stages) {
        return Err(ConfigError::CycleDetected(cycle));
    }
    Ok(
        Pipeline {
            id,
            name,
            tenant_id,
            repository: String::new(),
            triggers,
            stages,
            env,
            caches,
        },
    )
}


#[verifier::external_type_specification]
#[verifier::external_body]
pub struct ExKdlDocument(kdl::KdlDocument);

/// The top-level nodes of the KDL document that `text` spells, or `None`
/// where `text` is not a KDL document.
pub uninterp spec fn kdl_document(text: Seq<char>) -> Option<Seq<KdlNodeData>>;

/// Parses text with `kdl::KdlDocument`'s `FromStr` (KDL v2 syntax) and hands
/// back its nodes as plain values. Claimed: the parse succeeds exactly where
/// `kdl_document` has a value, and then gives those nodes.
#[verifier::external_body]
fn parse_kdl(text: &str) -> (r: Result<Vec<KdlNodeData>, kdl::KdlError>)
    ensures
        r is Ok <==> kdl_document(text@) is Some,
        r matches Ok(v) ==> kdl_document(text@) == Some(v@),
{
    match text.parse::<kdl::KdlDocument>() {
        Ok(doc) => Ok(node_tree(&doc)),
        Err(e) => Err(e),
    }
}

#[verifier::external_type_specification]
#[verifier::external_body]
pub struct ExKdlEntry(kdl::KdlEntry);

/// One entry of a parsed KDL node, copied into plain values: its name, if
/// it has one, and its value.
#[verifier::external_body]
fn entry_data(e: &kdl::KdlEntry) -> KdlEntryData {
    let value = match e.value() {
        kdl::KdlValue::String(s) => KdlScalar::Str(s.clone()),
        kdl::KdlValue::Integer(i) => KdlScalar::Int(*i),
        kdl::KdlValue::Float(_) => KdlScalar::Float,
        kdl::KdlValue::Bool(b) => KdlScalar::Bool(*b),
        kdl::KdlValue::Null => KdlScalar::Null,
    };
    KdlEntryData { name: e.name().map(|k| k.value().to_string()), value }
}

/// The nodes of a parsed `kdl::KdlDocument`, copied one for one into plain
/// values (names, entries in order, children blocks).
#[verifier::external_body]
fn node_tree(doc: &kdl::KdlDocument) -> Vec<KdlNodeData> {
    doc.nodes().iter().map(
        |n| KdlNodeData {
            name: n.name().value().to_string(),
            entries: n.entries().iter().map(entry_data).collect(),
            children: n.children().map(node_tree),
        },
    ).collect()
}

/// Parses a pipeline configuration from KDL text. The pipeline and tenant
/// ids are fresh; the repository is left for the caller to set.
pub fn parse_pipeline(kdl: &str) -> (r: Result<Pipeline, ConfigError>)
    ensures
        kdl_document(kdl@) is None ==> (r matches Err(e) && e@ is Parse),
        kdl_document(kdl@) is Some ==> exists|id: ResourceId, tenant_id: ResourceId|
            #[trigger] pipeline_outcome(kdl_document(kdl@)->0, id, tenant_id, r),
{
    let nodes = match parse_kdl(kdl) {
        Ok(n) => n,
        Err(e) => {
            return Err(ConfigError::Parse(e));
        },
    };
    let id = ResourceId::new();
    let tenant_id = ResourceId::new();
    let r = pipeline_from_nodes(&nodes, id, tenant_id);
    assert(kdl_document(kdl@) == Some(nodes@));
    assert(pipeline_outcome(nodes@, id, tenant_id, r));
    assert(pipeline_outcome(kdl_document(kdl@)->0, id, tenant_id, r));
    r
}

} // verus!
