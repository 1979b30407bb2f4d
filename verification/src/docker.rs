//! The local Docker executor's decisions: container names, the container
//! to create for a job, and the job status that a container's state means.
use vstd::prelude::*;
use crate::executor::{status_exit_code, terminal_exit_code, JobResult, JobSpec, JobStatus, GitCloneSpec, LogLine, LogStream, VolumeMount};
use crate::ids::{lemma_uuid_text_injective, uuid_text, ResourceId};
use crate::num::{decimal, fmt_u64};
use crate::pipeline::strings_view;
use crate::text::{append_chars, append_str, chars_of, starts_with, starts_with_exec, string_of, trim_end_exec, trim_end_of};
use crate::time::{instant_of, parse_rfc3339, rfc3339_instant, Timestamp};

verus! {

/// The name of the container that runs a job.
pub open spec fn container_name_text(id: ResourceId) -> Seq<char> {
    "buildit-job-"@ + uuid_text(id.0)
}

/// The container name for a job: `buildit-job-` and the job id.
pub fn container_name(job_id: &ResourceId) -> (r: String)
    ensures
        r@ == container_name_text(*job_id),
{
    let mut out = chars_of("buildit-job-");
    let t = job_id.to_text();
    append_chars(&mut out, t.as_slice());
    string_of(out.as_slice())
}

/// Distinct jobs get distinct container names.
pub proof fn lemma_container_name_injective(a: ResourceId, b: ResourceId)
    requires
        a != b,
    ensures
        container_name_text(a) != container_name_text(b),
{
    if container_name_text(a) == container_name_text(b) {
        let p = "buildit-job-"@;
        assert(uuid_text(a.0) =~= container_name_text(a).skip(p.len() as int));
        assert(uuid_text(b.0) =~= container_name_text(b).skip(p.len() as int));
        lemma_uuid_text_injective(a.0, b.0);
    }
}

/// The clone URL with the access token put in after `https://`.
pub open spec fn authed_url(url: Seq<char>, token: Option<String>) -> Seq<char> {
    match token {
        Some(t) => if starts_with(url, "https://"@) {
            "https://"@ + t@ + "@"@ + url.skip(8)
        } else {
            url
        },
        None => url,
    }
}

pub open spec fn opt_arg(prefix: Seq<char>, o: Option<String>) -> Seq<char> {
    match o {
        Some(v) => prefix + v@,
        None => Seq::empty(),
    }
}

/// The shell command that clones the repository (and checks out the commit).
pub open spec fn clone_script(g: GitCloneSpec) -> Seq<char> {
    "git clone "@ + match g.depth {
        Some(d) => "--depth "@ + decimal(d as nat),
        None => Seq::empty(),
    } + " "@ + opt_arg("-b "@, g.branch) + " "@ + authed_url(g.url@, g.access_token) + " "@
        + g.target_dir@ + opt_arg(" && git checkout "@, g.sha)
}

/// The commands joined with ` && `.
pub open spec fn join_and(cmds: Seq<Seq<char>>) -> Seq<char>
    decreases cmds.len(),
{
    if cmds.len() == 0 {
        Seq::empty()
    } else if cmds.len() == 1 {
        cmds[0]
    } else {
        join_and(cmds.drop_last()) + " && "@ + cmds.last()
    }
}

/// The command of the container: the clone script followed by the job's
/// commands in a shell where a repository is to be cloned, else the job's
/// command (none when it is empty).
pub open spec fn container_cmd(spec: JobSpec) -> Option<Seq<Seq<char>>> {
    match spec.git_clone {
        Some(g) => {
            let user = join_and(strings_view(spec.command@));
            let full = if user.len() == 0 {
                clone_script(g)
            } else {
                clone_script(g) + " && cd "@ + g.target_dir@ + " && "@ + user
            };
            Some(seq!["sh"@, "-c"@, full])
        },
        None => if spec.command.len() == 0 {
            None
        } else {
            Some(strings_view(spec.command@))
        },
    }
}

pub open spec fn bind_text(v: VolumeMount) -> Seq<char> {
    v.name@ + ":"@ + v.mount_path@ + ":"@ + if v.read_only {
        "ro"@
    } else {
        "rw"@
    }
}

/// What to create the container with.
#[derive(Debug)]
pub struct ContainerPlan {
    pub name: String,
    pub image: String,
    pub cmd: Option<Vec<String>>,
    /// `KEY=value` entries.
    pub env: Vec<String>,
    pub working_dir: Option<String>,
    /// `name:path:ro|rw` volume binds.
    pub binds: Option<Vec<String>>,
}

pub open spec fn opt_strings(o: Option<Vec<String>>) -> Option<Seq<Seq<char>>> {
    match o {
        Some(v) => Some(strings_view(v@)),
        None => None,
    }
}

pub open spec fn opt_string(o: Option<String>) -> Option<Seq<char>> {
    match o {
        Some(v) => Some(v@),
        None => None,
    }
}

/// The container that runs a job.
pub open spec fn plan_ok(spec: JobSpec, p: ContainerPlan) -> bool {
    &&& p.name@ == container_name_text(spec.id)
    &&& p.image@ == spec.image@
    &&& opt_strings(p.cmd) == container_cmd(spec)
    &&& p.env.len() == spec.env.key_seq().len()
    &&& forall|i: int|
        0 <= i < p.env.len() ==> (#[trigger] p.env@[i])@ == spec.env.key_seq()[i] + "="@
            + spec.env.value_seq()[i]
    &&& opt_string(p.working_dir) == match spec.git_clone {
        Some(g) => Some(g.target_dir@),
        None => opt_string(spec.working_dir),
    }
    &&& match p.binds {
        Some(b) => spec.volumes.len() > 0 && b.len() == spec.volumes.len() && forall|i: int|
            0 <= i < b.len() ==> (#[trigger] b@[i])@ == bind_text(spec.volumes@[i]),
        None => spec.volumes.len() == 0,
    }
}

fn join_and_exec(cmds: &Vec<String>) -> (r: Vec<char>)
    ensures
        r@ == join_and(strings_view(cmds@)),
{
    let ghost cs = strings_view(cmds@);
    let mut out: Vec<char> = Vec::new();
    let mut i: usize = 0;
    while i < cmds.len()
        invariant
            i <= cmds.len(),
            cs == strings_view(cmds@),
            out@ == join_and(cs.take(i as int)),
        decreases cmds.len() - i,
    {
        assert(cs.take(i + 1).drop_last() =~= cs.take(i as int));
        if i > 0 {
            append_str(&mut out, " && ");
        }
        append_str(&mut out, cmds[i].as_str());
        proof {
            if i == 0 {
                assert(out@ =~= cs.take(1)[0]);
            }
        }
        i = i + 1;
    }
    assert(cs.take(i as int) =~= cs);
    out
}

fn clone_script_exec(g: &GitCloneSpec) -> (r: Vec<char>)
    ensures
        r@ == clone_script(*g),
{
    let mut out = chars_of("git clone ");
    if let Some(d) = g.depth {
        append_str(&mut out, "--depth ");
        let ds = fmt_u64(d as u64);
        append_chars(&mut out, ds.as_slice());
    }
    append_str(&mut out, " ");
    if let Some(b) = &g.branch {
        append_str(&mut out, "-b ");
        append_str(&mut out, b.as_str());
    }
    append_str(&mut out, " ");
    let url = chars_of(g.url.as_str());
    match &g.access_token {
        Some(t) => {
            let pre = chars_of("https://");
            if starts_with_exec(url.as_slice(), pre.as_slice()) {
                append_str(&mut out, "https://");
                append_str(&mut out, t.as_str());
                append_str(&mut out, "@");
                proof {
                    reveal_strlit("https://");
                }
                assert(pre@.len() == 8);
                let mut k: usize = 8;
                let ghost before = out@;
                assert(out@ =~= before + url@.subrange(8, 8));
                while k < url.len()
                    invariant
                        8 <= k <= url.len(),
                        url@ == g.url@,
                        out@ == before + url@.subrange(8, k as int),
                    decreases url.len() - k,
                {
                    out.push(url[k]);
                    assert(url@.subrange(8, k + 1) =~= url@.subrange(8, k as int).push(url@[k as int]));
                    k = k + 1;
                }
                assert(url@.subrange(8, k as int) =~= url@.skip(8));
            } else {
                append_chars(&mut out, url.as_slice());
            }
        },
        None => {
            append_chars(&mut out, url.as_slice());
        },
    }
    append_str(&mut out, " ");
    append_str(&mut out, g.target_dir.as_str());
    if let Some(s) = &g.sha {
        append_str(&mut out, " && git checkout ");
        append_str(&mut out, s.as_str());
    }
    proof {
        assert(out@ =~= clone_script(*g));
    }
    out
}

/// The container to create for a job: its name, image, command (with the
/// repository clone in front where one is asked for), environment, working
/// directory and volume binds.
pub fn plan_container(spec: &JobSpec) -> (p: ContainerPlan)
    ensures
        plan_ok(*spec, p),
{
    let name = container_name(&spec.id);
    // environment
    let mut env: Vec<String> = Vec::new();
    let n = spec.env.len();
    let mut i: usize = 0;
    while i < n
        invariant
            i <= n,
            n == spec.env.key_seq().len(),
            env.len() == i,
            forall|t: int|
                0 <= t < i ==> (#[trigger] env@[t])@ == spec.env.key_seq()[t] + "="@
                    + spec.env.value_seq()[t],
        decreases spec.env.key_seq().len() - i,
    {
        let (k, v) = spec.env.entry_at(i);
        let mut e = chars_of(k.as_str());
        append_str(&mut e, "=");
        append_str(&mut e, v.as_str());
        env.push(string_of(e.as_slice()));
        i = i + 1;
    }
    // command
    let cmd: Option<Vec<String>> = match &spec.git_clone {
        Some(g) => {
            let mut full = clone_script_exec(g);
            let user = join_and_exec(&spec.command);
            if user.len() > 0 {
                append_str(&mut full, " && cd ");
                append_str(&mut full, g.target_dir.as_str());
                append_str(&mut full, " && ");
                append_chars(&mut full, user.as_slice());
            }
            let mut c: Vec<String> = Vec::new();
            c.push(crate::text::owned("sh"));
            c.push(crate::text::owned("-c"));
            c.push(string_of(full.as_slice()));
            assert(strings_view(c@) =~= seq!["sh"@, "-c"@, full@]);
            Some(c)
        },
        None => if spec.command.len() == 0 {
            None
        } else {
            Some(spec.command.clone())
        },
    };
    // working directory
    let working_dir = match &spec.git_clone {
        Some(g) => Some(g.target_dir.clone()),
        None => spec.working_dir.clone(),
    };
    // binds
    let binds = if spec.volumes.len() == 0 {
        None
    } else {
        let mut b: Vec<String> = Vec::new();
        let mut i: usize = 0;
        while i < spec.volumes.len()
            invariant
                i <= spec.volumes.len(),
                b.len() == i,
                forall|t: int| 0 <= t < i ==> (#[trigger] b@[t])@ == bind_text(spec.volumes@[t]),
            decreases spec.volumes.len() - i,
        {
            let v = &spec.volumes[i];
            let mut e = chars_of(v.name.as_str());
            append_str(&mut e, ":");
            append_str(&mut e, v.mount_path.as_str());
            append_str(&mut e, ":");
            if v.read_only {
                append_str(&mut e, "ro");
            } else {
                append_str(&mut e, "rw");
            }
            b.push(string_of(e.as_slice()));
            i = i + 1;
        }
        Some(b)
    };
    ContainerPlan { name, image: spec.image.clone(), cmd, env, working_dir, binds }
}

/// What Docker reports of a container's state.
#[derive(Debug)]
pub struct ContainerStateData {
    pub running: Option<bool>,
    pub paused: Option<bool>,
    pub exit_code: Option<i64>,
    pub started_at: Option<String>,
    pub finished_at: Option<String>,
    pub error: Option<String>,
}

pub open spec fn or_now(t: Option<Timestamp>, now: Timestamp) -> Timestamp {
    match t {
        Some(x) => x,
        None => now,
    }
}

/// The job status that a container state means, with the start and finish
/// instants already read: running, paused (pending), or exited, where exit
/// code 0 is success and anything else a failure.
pub open spec fn status_of_state(
    running: Option<bool>,
    paused: Option<bool>,
    exit_code: Option<i64>,
    started: Option<Timestamp>,
    finished: Option<Timestamp>,
    error: Option<String>,
    now: Timestamp,
    s: JobStatus,
) -> bool {
    if running == Some(true) {
        s == JobStatus::Running { started_at: or_now(started, now) }
    } else if paused == Some(true) {
        s == JobStatus::Pending
    } else {
        let code: Option<i32> = match exit_code {
            Some(c) => Some(c as i32),
            None => None,
        };
        let fin = or_now(finished, now);
        if code == Some(0i32) {
            s == JobStatus::Succeeded { started_at: or_now(started, fin), finished_at: fin }
        } else {
            match s {
                JobStatus::Failed { started_at, finished_at, exit_code: c, message } => started_at
                    == started && finished_at == fin && c == code && message@ == match error {
                    Some(e) => e@,
                    None => Seq::empty(),
                },
                _ => false,
            }
        }
    }
}

/// The job status for a container state whose instants have been read.
pub fn status_from_state(
    running: Option<bool>,
    paused: Option<bool>,
    exit_code: Option<i64>,
    started: Option<Timestamp>,
    finished: Option<Timestamp>,
    error: Option<String>,
    now: Timestamp,
) -> (s: JobStatus)
    ensures
        status_of_state(running, paused, exit_code, started, finished, error, now, s),
{
    if running == Some(true) {
        JobStatus::Running {
            started_at: match started {
                Some(x) => x,
                None => now,
            },
        }
    } else if paused == Some(true) {
        JobStatus::Pending
    } else {
        let code: Option<i32> = match exit_code {
            Some(c) => Some(c as i32),
            None => None,
        };
        let fin = match finished {
            Some(x) => x,
            None => now,
        };
        if code == Some(0i32) {
            JobStatus::Succeeded {
                started_at: match started {
                    Some(x) => x,
                    None => fin,
                },
                finished_at: fin,
            }
        } else {
            JobStatus::Failed {
                started_at: started,
                finished_at: fin,
                exit_code: code,
                message: match error {
                    Some(e) => e,
                    None => String::new(),
                },
            }
        }
    }
}

pub open spec fn read_instant(t: Option<String>) -> Option<Timestamp> {
    match t {
        Some(s) => instant_of(rfc3339_instant(s@)),
        None => None,
    }
}

/// The job status that a container's state means; `now` stands in for
/// instants that are missing or unreadable.
pub fn container_status(state: &ContainerStateData, now: Timestamp) -> (s: JobStatus)
    ensures
        status_of_state(
            state.running,
            state.paused,
            state.exit_code,
            read_instant(state.started_at),
            read_instant(state.finished_at),
            state.error,
            now,
            s,
        ),
{
    let started = match &state.started_at {
        Some(t) => parse_rfc3339(t.as_str()),
        None => None,
    };
    let finished = match &state.finished_at {
        Some(t) => parse_rfc3339(t.as_str()),
        None => None,
    };
    status_from_state(state.running, state.paused, state.exit_code, started, finished, state.error.clone(), now)
}

/// Which stream a chunk of container output came on.
#[derive(Debug, Clone, Copy, PartialEq, Eq, Structural)]
pub enum DockerOutput {
    StdOut,
    StdErr,
    StdIn,
    Console,
}

/// A chunk of container output as a log line: standard error stays
/// standard error, everything else counts as standard output; the text
/// loses its trailing white space and the line is stamped `now`.
pub fn docker_log_line(kind: DockerOutput, message: &str, now: Timestamp) -> (r: LogLine)
    ensures
        r.timestamp == now,
        r.stream == (if kind == DockerOutput::StdErr {
            LogStream::Stderr
        } else {
            LogStream::Stdout
        }),
        r.content@ == trim_end_of(message@),
{
    let stream = match kind {
        DockerOutput::StdErr => LogStream::Stderr,
        _ => LogStream::Stdout,
    };
    let cs = chars_of(message);
    let t = trim_end_exec(cs.as_slice());
    LogLine { timestamp: now, stream, content: string_of(t.as_slice()) }
}

/// The result of waiting for a job whose container has already stopped:
/// its status, and 0 as the exit code of a success or the recorded code of
/// a failure; nothing while it has not finished.
pub fn finished_result(status: JobStatus) -> (r: Option<JobResult>)
    ensures
        r is Some <==> status.terminal(),
        r matches Some(j) ==> j.status == status && j.exit_code == status_exit_code(status)
            && j.artifacts.len() == 0,
{
    if status.is_terminal() {
        let exit_code = terminal_exit_code(&status);
        Some(JobResult { status, exit_code, artifacts: Vec::new() })
    } else {
        None
    }
}

/// The result after waiting for a container: its status then, and the
/// exit code the wait reported, as a 32-bit value.
pub fn waited_result(status: JobStatus, code: Option<i64>) -> (r: JobResult)
    ensures
        r.status == status,
        r.exit_code == (match code {
            Some(c) => Some(c as i32),
            None => None,
        }),
        r.artifacts.len() == 0,
{
    let exit_code = match code {
        Some(c) => {
            #[verifier::truncate]
            let x = c as i32;
            Some(x)
        },
        None => None,
    };
    JobResult { status, exit_code, artifacts: Vec::new() }
}

} // verus!
