//! Decisions of the stack runner: the job that runs Terraform for a stack,
//! how a command's exit is judged, and the reading of a plan's summary line.
use vstd::prelude::*;
use crate::docker::join_and;
use crate::executor::{JobSpec, ResourceRequirements};
use crate::ids::ResourceId;
use crate::json::{as_str_spec, JsonValue};
use crate::num::{parse_i32, parse_i32_spec};
use crate::pipeline::strings_view;
use crate::strmap::StrMap;
use crate::text::{
    append_str, chars_of, eq_str, has_sub, has_sub_exec, lines_exec, lines_of, owned, split_whitespace_exec,
    split_ws, string_of,
};
use crate::time::Duration;

verus! {

/// Configuration for the stack runner.
#[derive(Debug, Clone)]
pub struct StackRunnerConfig {
    /// Terraform Docker image to use.
    pub terraform_image: String,
    /// Working directory base path for cloned repositories.
    pub work_dir: String,
    /// Namespace for Kubernetes jobs.
    pub namespace: String,
}

impl StackRunnerConfig {
    /// The configuration from the `TERRAFORM_IMAGE`, `STACK_WORK_DIR` and
    /// `BUILDIT_JOB_NAMESPACE` settings, each defaulted where unset.
    pub fn from_settings(
        terraform_image: Option<String>,
        work_dir: Option<String>,
        namespace: Option<String>,
    ) -> (r: Self)
        ensures
            r.terraform_image@ == match terraform_image {
                Some(v) => v@,
                None => "hashicorp/terraform:1.5"@,
            },
            r.work_dir@ == match work_dir {
                Some(v) => v@,
                None => "/tmp/buildit/stacks"@,
            },
            r.namespace@ == match namespace {
                Some(v) => v@,
                None => "buildit"@,
            },
    {
        StackRunnerConfig {
            terraform_image: match terraform_image {
                Some(v) => v,
                None => owned("hashicorp/terraform:1.5"),
            },
            work_dir: match work_dir {
                Some(v) => v,
                None => owned("/tmp/buildit/stacks"),
            },
            namespace: match namespace {
                Some(v) => v,
                None => owned("buildit"),
            },
        }
    }
}

/// Errors that can occur during stack execution.
#[derive(Debug)]
pub enum StackRunnerError {
    Database(String),
    Git(String),
    NoWorkingDirectory,
    Execution(String),
    TerraformFailed(String),
    JobError(String),
}

/// The text of a stack runner error.
pub open spec fn runner_error_text(e: StackRunnerError) -> Seq<char> {
    match e {
        StackRunnerError::Database(m) => "Database error: "@ + m@,
        StackRunnerError::Git(m) => "Git error: "@ + m@,
        StackRunnerError::NoWorkingDirectory => "No working directory set for stack"@,
        StackRunnerError::Execution(m) => "Execution error: "@ + m@,
        StackRunnerError::TerraformFailed(m) => "Terraform command failed: "@ + m@,
        StackRunnerError::JobError(m) => "Job execution error: "@ + m@,
    }
}

impl StackRunnerError {
    /// The error's message.
    pub fn message(&self) -> (r: String)
        ensures
            r@ == runner_error_text(*self),
    {
        let (p, m) = match self {
            StackRunnerError::Database(m) => ("Database error: ", m.as_str()),
            StackRunnerError::Git(m) => ("Git error: ", m.as_str()),
            StackRunnerError::NoWorkingDirectory => ("No working directory set for stack", ""),
            StackRunnerError::Execution(m) => ("Execution error: ", m.as_str()),
            StackRunnerError::TerraformFailed(m) => ("Terraform command failed: ", m.as_str()),
            StackRunnerError::JobError(m) => ("Job execution error: ", m.as_str()),
        };
        proof {
            reveal_strlit("");
        }
        let mut out = chars_of(p);
        append_str(&mut out, m);
        string_of(out.as_slice())
    }
}

/// The commands that run a plan in a container.
pub fn build_plan_commands() -> (r: Vec<String>)
    ensures
        strings_view(r@) == seq![
            "terraform init -input=false"@,
            "terraform plan -input=false -no-color -out=tfplan -detailed-exitcode || true"@,
        ],
{
    let mut v: Vec<String> = Vec::new();
    v.push(owned("terraform init -input=false"));
    v.push(owned("terraform plan -input=false -no-color -out=tfplan -detailed-exitcode || true"));
    assert(strings_view(v@) =~= seq![
        "terraform init -input=false"@,
        "terraform plan -input=false -no-color -out=tfplan -detailed-exitcode || true"@,
    ]);
    v
}

/// The environment that the string members of a stack's environment object
/// give, set in member order.
pub open spec fn env_from_members(ms: Seq<(String, JsonValue)>) -> Map<Seq<char>, Seq<char>>
    decreases ms.len(),
{
    if ms.len() == 0 {
        Map::empty()
    } else {
        let m = env_from_members(ms.drop_last());
        match as_str_spec(ms.last().1) {
            Some(v) => m.insert(ms.last().0@, v),
            None => m,
        }
    }
}

pub open spec fn env_from_json(v: JsonValue) -> Map<Seq<char>, Seq<char>> {
    match v {
        JsonValue::Object(ms) => env_from_members(ms@),
        _ => Map::empty(),
    }
}

/// The job that runs Terraform for a stack: the configured image, the
/// commands joined with ` && ` in `/bin/sh -c`, the stack's environment
/// variables, its path as working directory and an hour's timeout. The job
/// id is fresh.
pub fn build_terraform_job_spec(
    config: &StackRunnerConfig,
    stack_path: &str,
    env_vars: &JsonValue,
    commands: &Vec<String>,
) -> (j: JobSpec)
    ensures
        j.image@ == config.terraform_image@,
        strings_view(j.command@) == seq!["/bin/sh"@, "-c"@, join_and(strings_view(commands@))],
        j.env@ == env_from_json(*env_vars),
        j.working_dir matches Some(w) && w@ == stack_path@,
        j.timeout == Some(Duration { secs: 3600, nanos: 0 }),
        j.resources.cpu_limit is None && j.resources.memory_limit is None
            && j.resources.cpu_request is None && j.resources.memory_request is None,
        j.volumes.len() == 0,
        j.git_clone is None,
{
    let mut env = StrMap::new();
    match env_vars {
        JsonValue::Object(ms) => {
            let mut i: usize = 0;
            while i < ms.len()
                invariant
                    i <= ms.len(),
                    *env_vars == JsonValue::Object(*ms),
                    env@ == env_from_members(ms@.take(i as int)),
                decreases ms.len() - i,
            {
                assert(ms@.take(i + 1).drop_last() =~= ms@.take(i as int));
                assert(ms@.take(i + 1).last() == ms@[i as int]);
                if let JsonValue::String(v) = &ms[i].1 {
                    env.insert(ms[i].0.clone(), v.clone());
                }
                i = i + 1;
            }
            assert(ms@.take(i as int) =~= ms@);
        },
        _ => {},
    }
    let mut joined: Vec<char> = Vec::new();
    let ghost cs = strings_view(commands@);
    let mut i: usize = 0;
    while i < commands.len()
        invariant
            i <= commands.len(),
            cs == strings_view(commands@),
            joined@ == join_and(cs.take(i as int)),
        decreases commands.len() - i,
    {
        assert(cs.take(i + 1).drop_last() =~= cs.take(i as int));
        if i > 0 {
            append_str(&mut joined, " && ");
        }
        append_str(&mut joined, commands[i].as_str());
        proof {
            if i == 0 {
                assert(joined@ =~= cs.take(1)[0]);
            }
        }
        i = i + 1;
    }
    assert(cs.take(i as int) =~= cs);
    let mut command: Vec<String> = Vec::new();
    command.push(owned("/bin/sh"));
    command.push(owned("-c"));
    command.push(string_of(joined.as_slice()));
    assert(strings_view(command@) =~= seq!["/bin/sh"@, "-c"@, joined@]);
    JobSpec {
        id: ResourceId::new(),
        image: config.terraform_image.clone(),
        command,
        working_dir: Some(owned(stack_path)),
        env,
        resources: ResourceRequirements::default(),
        timeout: Some(Duration::from_secs(3600)),
        volumes: Vec::new(),
        git_clone: None,
    }
}

/// Whether a Terraform command's run counts as a success: a zero exit, or
/// exit code 2 of a `plan` (changes were found).
pub fn terraform_run_succeeded(is_plan: bool, success: bool, code: Option<i32>) -> (r: bool)
    ensures
        r == (success || (is_plan && code == Some(2i32))),
{
    success || (is_plan && code == Some(2i32))
}

/// A plan needs approval when the stack does not apply automatically and
/// the plan changes something.
pub fn plan_needs_approval(auto_apply: bool, to_add: i32, to_change: i32, to_destroy: i32) -> (r: bool)
    ensures
        r == (!auto_apply && (to_add > 0 || to_change > 0 || to_destroy > 0)),
{
    !auto_apply && (to_add > 0 || to_change > 0 || to_destroy > 0)
}

/// The text with trailing commas removed.
pub open spec fn strip_commas(s: Seq<char>) -> Seq<char>
    decreases s.len(),
{
    if s.len() > 0 && s.last() == ',' {
        strip_commas(s.drop_last())
    } else {
        s
    }
}

/// The counts after reading the word at `i`: a number before a `to` that is
/// followed by `add`, `change` or `destroy` sets that count.
pub open spec fn count_step(parts: Seq<Seq<char>>, i: int, acc: (i32, i32, i32)) -> (i32, i32, i32) {
    if parts[i] == "to"@ && i > 0 && i + 1 < parts.len() {
        match parse_i32_spec(parts[i - 1]) {
            Some(n) => {
                let w = strip_commas(parts[i + 1]);
                if w == "add"@ {
                    (n, acc.1, acc.2)
                } else if w == "change"@ {
                    (acc.0, n, acc.2)
                } else if w == "destroy"@ || w == "destroy."@ {
                    (acc.0, acc.1, n)
                } else {
                    acc
                }
            },
            None => acc,
        }
    } else {
        acc
    }
}

pub open spec fn counts_upto(parts: Seq<Seq<char>>, k: nat) -> (i32, i32, i32)
    decreases k,
{
    if k == 0 {
        (0, 0, 0)
    } else {
        count_step(parts, k - 1, counts_upto(parts, (k - 1) as nat))
    }
}

/// A number can never be the word `to`.
proof fn lemma_number_not_to(w: Seq<char>)
    requires
        parse_i32_spec(w) is Some,
    ensures
        w != "to"@,
{
    reveal_strlit("to");
    if w == "to"@ {
        assert(w[0] == 't');
        assert(!crate::num::is_digit(w[0]));
    }
}

/// The words of a summary `Plan: <a> to add, <b> to change, <c> to destroy.`
/// give the numbers `a`, `b` and `c` as the counts of additions, changes
/// and deletions.
pub proof fn lemma_summary_counts(a: Seq<char>, b: Seq<char>, c: Seq<char>)
    requires
        parse_i32_spec(a) is Some,
        parse_i32_spec(b) is Some,
        parse_i32_spec(c) is Some,
    ensures
        counts_upto(
            seq!["Plan:"@, a, "to"@, "add,"@, b, "to"@, "change,"@, c, "to"@, "destroy."@],
            10,
        ) == (parse_i32_spec(a)->0, parse_i32_spec(b)->0, parse_i32_spec(c)->0),
{
    let w = seq!["Plan:"@, a, "to"@, "add,"@, b, "to"@, "change,"@, c, "to"@, "destroy."@];
    reveal_strlit("Plan:");
    reveal_strlit("to");
    reveal_strlit("add,");
    reveal_strlit("change,");
    reveal_strlit("destroy.");
    reveal_strlit("add");
    reveal_strlit("change");
    reveal_strlit("destroy");
    lemma_number_not_to(a);
    lemma_number_not_to(b);
    lemma_number_not_to(c);
    assert("Plan:"@.len() == 5 && "to"@.len() == 2 && "add,"@.len() == 4);
    assert("Plan:"@ != "to"@);
    assert("add,"@ != "to"@);
    assert("change,"@ != "to"@);
    assert("destroy."@ != "to"@);
    assert(strip_commas("add,"@) == "add"@) by {
        assert("add,"@.drop_last() =~= "add"@);
        assert(strip_commas("add"@) == "add"@);
    }
    assert(strip_commas("change,"@) == "change"@) by {
        assert("change,"@.drop_last() =~= "change"@);
        assert(strip_commas("change"@) == "change"@);
    }
    assert(strip_commas("destroy."@) == "destroy."@);
    assert("add"@ != "change"@);
    assert(counts_upto(w, 0) == (0i32, 0i32, 0i32));
    assert(counts_upto(w, 1) == (0i32, 0i32, 0i32));
    assert(counts_upto(w, 2) == (0i32, 0i32, 0i32));
    assert(counts_upto(w, 3) == (parse_i32_spec(a)->0, 0i32, 0i32));
    assert(counts_upto(w, 4) == counts_upto(w, 3));
    assert(counts_upto(w, 5) == counts_upto(w, 3));
    assert(counts_upto(w, 6) == (parse_i32_spec(a)->0, parse_i32_spec(b)->0, 0i32));
    assert(counts_upto(w, 7) == counts_upto(w, 6));
    assert(counts_upto(w, 8) == counts_upto(w, 6));
    assert(counts_upto(w, 9) == (parse_i32_spec(a)->0, parse_i32_spec(b)->0, parse_i32_spec(c)->0));
}

/// The line that holds the plan's summary.
pub open spec fn is_summary_line(l: Seq<char>) -> bool {
    has_sub(l, "Plan:"@) && has_sub(l, "to add"@)
}

pub open spec fn first_summary(ls: Seq<Seq<char>>) -> Option<int>
    decreases ls.len(),
{
    if ls.len() == 0 {
        None
    } else {
        match first_summary(ls.drop_last()) {
            Some(i) => Some(i),
            None => if is_summary_line(ls.last()) {
                Some(ls.len() - 1)
            } else {
                None
            },
        }
    }
}

/// The counts that the first `Plan: X to add, Y to change, Z to destroy.`
/// line gives; zeros where there is none.
pub open spec fn plan_counts(output: Seq<char>) -> (i32, i32, i32) {
    let ls = lines_of(output);
    match first_summary(ls) {
        Some(j) => {
            let parts = split_ws(ls[j]);
            counts_upto(parts, parts.len())
        },
        None => (0, 0, 0),
    }
}

proof fn lemma_first_summary_prefix(ls: Seq<Seq<char>>, k: int)
    requires
        0 < k <= ls.len(),
        first_summary(ls.take(k)) is Some,
    ensures
        first_summary(ls) == first_summary(ls.take(k)),
    decreases ls.len() - k,
{
    if k < ls.len() {
        assert(ls.take(k + 1).drop_last() =~= ls.take(k));
        lemma_first_summary_prefix(ls, k + 1);
    } else {
        assert(ls.take(k) =~= ls);
    }
}

fn strip_commas_exec(s: &[char]) -> (r: Vec<char>)
    ensures
        r@ == strip_commas(s@),
{
    let mut n = s.len();
    assert(s@.take(n as int) =~= s@);
    while n > 0 && s[n - 1] == ','
        invariant
            n <= s.len(),
            strip_commas(s@) == strip_commas(s@.take(n as int)),
        decreases n,
    {
        assert(s@.take(n as int).drop_last() =~= s@.take(n - 1));
        n = n - 1;
    }
    let r = crate::text::slice_chars(s, 0, n);
    assert(r@ =~= s@.take(n as int));
    r
}

/// Reads the resource counts from a plan's summary line.
pub fn parse_plan_summary(output: &str) -> (r: (i32, i32, i32))
    ensures
        r == plan_counts(output@),
{
    let oc = chars_of(output);
    let lines = lines_exec(oc.as_slice());
    let ghost ls = lines@.map_values(|v: Vec<char>| v@);
    let add = chars_of("Plan:");
    let to_add = chars_of("to add");
    let mut j: usize = 0;
    while j < lines.len()
        invariant
            j <= lines.len(),
            ls == lines@.map_values(|v: Vec<char>| v@),
            ls == lines_of(output@),
            add@ == "Plan:"@,
            to_add@ == "to add"@,
            first_summary(ls.take(j as int)) is None,
        decreases lines.len() - j,
    {
        assert(ls.take(j + 1).drop_last() =~= ls.take(j as int));
        assert(ls.take(j + 1).last() == lines@[j as int]@);
        if has_sub_exec(lines[j].as_slice(), add.as_slice()) && has_sub_exec(
            lines[j].as_slice(),
            to_add.as_slice(),
        ) {
            proof {
                lemma_first_summary_prefix(ls, j as int + 1);
            }
            let parts = split_whitespace_exec(lines[j].as_slice());
            let ghost ps = parts@.map_values(|v: Vec<char>| v@);
            let mut a: i32 = 0;
            let mut c: i32 = 0;
            let mut d: i32 = 0;
            let mut i: usize = 0;
            while i < parts.len()
                invariant
                    i <= parts.len(),
                    ps == parts@.map_values(|v: Vec<char>| v@),
                    (a, c, d) == counts_upto(ps, i as nat),
                decreases parts.len() - i,
            {
                assert(parts@[i as int]@ == ps[i as int]);
                if eq_str(parts[i].as_slice(), "to") && i > 0 && i + 1 < parts.len() {
                    assert(parts@[i - 1]@ == ps[i - 1]);
                    assert(parts@[i + 1]@ == ps[i + 1]);
                    if let Some(n) = parse_i32(parts[i - 1].as_slice()) {
                        let w = strip_commas_exec(parts[i + 1].as_slice());
                        if eq_str(w.as_slice(), "add") {
                            a = n;
                        } else if eq_str(w.as_slice(), "change") {
                            c = n;
                        } else if eq_str(w.as_slice(), "destroy") || eq_str(w.as_slice(), "destroy.") {
                            d = n;
                        }
                    }
                }
                i = i + 1;
            }
            return (a, c, d);
        }
        j = j + 1;
    }
    assert(ls.take(j as int) =~= ls);
    (0, 0, 0)
}

} // verus!
