//! The Kubernetes executor's decisions: job names, the Job to create for a
//! job specification, the status a Job's state means, and the reading of
//! timestamped log lines.
use vstd::prelude::*;
use vstd::string::StringSliceAdditionalSpecFns;
use vstd::utf8::{decode_utf8, encode_utf8_decode_utf8, encode_utf8_valid_utf8, is_char_boundary};
use crate::errors::Error;
use crate::executor::{JobResult, JobSpec, JobStatus};
use crate::ids::{is_lower_hex_or_dash, lemma_uuid_text_injective, lemma_uuid_text_shape, uuid_text, ResourceId};
use crate::pipeline::strings_view;
use crate::strmap::StrMap;
use crate::text::{append_chars, chars_of, owned, str_eq, string_of, trim_end_exec, trim_end_of, trim_exec, trim_of};
use crate::time::{instant_of, parse_rfc3339, rfc3339_instant, Timestamp};
use crate::docker::{opt_string, opt_strings, or_now};

verus! {

/// The name of the Kubernetes Job that runs a job.
pub open spec fn job_name_text(id: ResourceId) -> Seq<char> {
    "buildit-job-"@ + uuid_text(id.0)
}

/// A character allowed in a Kubernetes object name.
pub open spec fn k8s_name_char(c: char) -> bool {
    ('a' <= c && c <= 'z') || ('0' <= c && c <= '9') || c == '-'
}

/// The Job name for a job: `buildit-job-` and the job id, whose text is
/// already in lower case. It fits Kubernetes' 63-character limit and holds
/// only lower-case letters, digits and hyphens.
pub fn job_name(job_id: &ResourceId) -> (r: String)
    ensures
        r@ == job_name_text(*job_id),
        r@.len() <= 63,
        forall|i: int| 0 <= i < r@.len() ==> k8s_name_char(#[trigger] r@[i]),
{
    let mut out = chars_of("buildit-job-");
    let t = job_id.to_text();
    append_chars(&mut out, t.as_slice());
    proof {
        reveal_strlit("buildit-job-");
        lemma_uuid_text_shape(job_id.0);
        let p = "buildit-job-"@;
        assert forall|i: int| 0 <= i < out@.len() implies k8s_name_char(#[trigger] out@[i]) by {
            if i >= p.len() {
                assert(out@[i] == uuid_text(job_id.0)[i - p.len()]);
                assert(is_lower_hex_or_dash(uuid_text(job_id.0)[i - p.len()]));
            }
        }
    }
    string_of(out.as_slice())
}

/// Distinct jobs get distinct Job names.
pub proof fn lemma_job_name_injective(a: ResourceId, b: ResourceId)
    requires
        a != b,
    ensures
        job_name_text(a) != job_name_text(b),
{
    if job_name_text(a) == job_name_text(b) {
        let p = "buildit-job-"@;
        assert(uuid_text(a.0) =~= job_name_text(a).skip(p.len() as int));
        assert(uuid_text(b.0) =~= job_name_text(b).skip(p.len() as int));
        lemma_uuid_text_injective(a.0, b.0);
    }
}

/// Resource requests and limits, each as `(resource, quantity)` pairs in
/// key order (`cpu` before `memory`).
#[derive(Debug)]
pub struct K8sResources {
    pub requests: Option<Vec<(String, String)>>,
    pub limits: Option<Vec<(String, String)>>,
}

/// The single container of the Job.
#[derive(Debug)]
pub struct K8sContainerPlan {
    pub name: String,
    pub image: String,
    pub command: Option<Vec<String>>,
    pub working_dir: Option<String>,
    /// `(name, value)` environment entries.
    pub env: Option<Vec<(String, String)>>,
    pub resources: Option<K8sResources>,
    pub image_pull_policy: String,
}

/// The Kubernetes Job to create.
#[derive(Debug)]
pub struct K8sJobPlan {
    pub name: String,
    pub namespace: String,
    /// Labels of the Job and of its pod template.
    pub labels: StrMap,
    pub backoff_limit: i32,
    pub ttl_seconds_after_finished: i32,
    pub restart_policy: String,
    pub container: K8sContainerPlan,
}

pub open spec fn pairs_view(v: Seq<(String, String)>) -> Seq<(Seq<char>, Seq<char>)> {
    v.map_values(|p: (String, String)| (p.0@, p.1@))
}

pub open spec fn opt_pairs(o: Option<Vec<(String, String)>>) -> Option<Seq<(Seq<char>, Seq<char>)>> {
    match o {
        Some(v) => Some(pairs_view(v@)),
        None => None,
    }
}

/// The `(key, value)` entries for the present values among `cpu` and `memory`.
pub open spec fn quantities(cpu: Option<String>, mem: Option<String>) -> Seq<(Seq<char>, Seq<char>)> {
    let a = match cpu {
        Some(c) => seq![("cpu"@, c@)],
        None => Seq::empty(),
    };
    let b = match mem {
        Some(m) => seq![("memory"@, m@)],
        None => Seq::empty(),
    };
    a + b
}

pub open spec fn nonempty_or_none(s: Seq<(Seq<char>, Seq<char>)>) -> Option<Seq<(Seq<char>, Seq<char>)>> {
    if s.len() == 0 {
        None
    } else {
        Some(s)
    }
}

/// The Job for a job specification.
pub open spec fn k8s_plan_ok(spec: JobSpec, namespace: Seq<char>, labels: Map<Seq<char>, Seq<char>>, p: K8sJobPlan) -> bool {
    let req = quantities(spec.resources.cpu_request, spec.resources.memory_request);
    let lim = quantities(spec.resources.cpu_limit, spec.resources.memory_limit);
    let env = Seq::new(
        spec.env.key_seq().len(),
        |i: int| (spec.env.key_seq()[i], spec.env.value_seq()[i]),
    );
    &&& p.name@ == job_name_text(spec.id)
    &&& p.namespace@ == namespace
    &&& p.labels@ == labels.insert("buildit.io/job-id"@, uuid_text(spec.id.0))
    &&& p.backoff_limit == 0
    &&& p.ttl_seconds_after_finished == 3600
    &&& p.restart_policy@ == "Never"@
    &&& p.container.name@ == "job"@
    &&& p.container.image@ == spec.image@
    &&& opt_strings(p.container.command) == if spec.command.len() == 0 {
        None
    } else {
        Some(strings_view(spec.command@))
    }
    &&& opt_string(p.container.working_dir) == opt_string(spec.working_dir)
    &&& opt_pairs(p.container.env) == nonempty_or_none(env)
    &&& match p.container.resources {
        None => req.len() == 0 && lim.len() == 0,
        Some(r) => (req.len() > 0 || lim.len() > 0) && opt_pairs(r.requests) == nonempty_or_none(req)
            && opt_pairs(r.limits) == nonempty_or_none(lim),
    }
    &&& p.container.image_pull_policy@ == "IfNotPresent"@
}

fn quantities_exec(cpu: &Option<String>, mem: &Option<String>) -> (r: Vec<(String, String)>)
    ensures
        pairs_view(r@) == quantities(*cpu, *mem),
{
    let mut v: Vec<(String, String)> = Vec::new();
    if let Some(c) = cpu {
        v.push((owned("cpu"), c.clone()));
    }
    if let Some(m) = mem {
        v.push((owned("memory"), m.clone()));
    }
    assert(pairs_view(v@) =~= quantities(*cpu, *mem));
    v
}

/// The Job to create for a job: named after the job, labelled with its id,
/// never retried, cleaned up an hour after it finishes, with one container
/// that runs the job's image, command, working directory, environment and
/// resource requests and limits.
pub fn plan_k8s_job(spec: &JobSpec, namespace: &str, labels: &StrMap) -> (p: K8sJobPlan)
    ensures
        k8s_plan_ok(*spec, namespace@, labels@, p),
{
    let name = job_name(&spec.id);
    // environment
    let n = spec.env.len();
    let ghost envs = Seq::new(
        spec.env.key_seq().len(),
        |i: int| (spec.env.key_seq()[i], spec.env.value_seq()[i]),
    );
    let mut env: Vec<(String, String)> = Vec::new();
    let mut i: usize = 0;
    while i < n
        invariant
            i <= n,
            n == spec.env.key_seq().len(),
            envs.len() == n,
            envs == Seq::new(
                spec.env.key_seq().len(),
                |i: int| (spec.env.key_seq()[i], spec.env.value_seq()[i]),
            ),
            pairs_view(env@) == envs.take(i as int),
        decreases n - i,
    {
        let (k, v) = spec.env.entry_at(i);
        let ghost before = env@;
        env.push((k.clone(), v.clone()));
        assert(pairs_view(env@) =~= pairs_view(before).push((k@, v@)));
        assert(envs.take(i + 1) =~= envs.take(i as int).push(envs[i as int]));
        i = i + 1;
    }
    assert(envs.take(i as int) =~= envs);
    let env = if env.len() == 0 {
        None
    } else {
        Some(env)
    };
    // resources
    let req = quantities_exec(&spec.resources.cpu_request, &spec.resources.memory_request);
    let lim = quantities_exec(&spec.resources.cpu_limit, &spec.resources.memory_limit);
    let resources = if req.len() == 0 && lim.len() == 0 {
        None
    } else {
        Some(
            K8sResources {
                requests: if req.len() == 0 {
                    None
                } else {
                    Some(req)
                },
                limits: if lim.len() == 0 {
                    None
                } else {
                    Some(lim)
                },
            },
        )
    };
    let container = K8sContainerPlan {
        name: owned("job"),
        image: spec.image.clone(),
        command: if spec.command.len() == 0 {
            None
        } else {
            Some(spec.command.clone())
        },
        working_dir: spec.working_dir.clone(),
        env,
        resources,
        image_pull_policy: owned("IfNotPresent"),
    };
    let mut job_labels = labels.duplicate();
    job_labels.lemma_unique();
    labels.lemma_unique();
    assert(job_labels@ =~= labels@);
    job_labels.insert(owned("buildit.io/job-id"), spec.id.to_string());
    K8sJobPlan {
        name,
        namespace: owned(namespace),
        labels: job_labels,
        backoff_limit: 0,
        ttl_seconds_after_finished: 3600,
        restart_policy: owned("Never"),
        container,
    }
}

/// A condition reported on a Job.
#[derive(Debug)]
pub struct JobCondition {
    pub type_: String,
    pub message: Option<String>,
}

/// What Kubernetes reports of a Job's state (all absent where the Job has
/// no status yet).
#[derive(Debug)]
pub struct K8sJobState {
    pub active: Option<i32>,
    pub succeeded: Option<i32>,
    pub failed: Option<i32>,
    pub start_time: Option<Timestamp>,
    pub completion_time: Option<Timestamp>,
    pub conditions: Option<Vec<JobCondition>>,
}

/// Index of the first condition of type `Failed`.
pub open spec fn first_failed(cs: Seq<JobCondition>) -> Option<int>
    decreases cs.len(),
{
    if cs.len() == 0 {
        None
    } else {
        match first_failed(cs.drop_last()) {
            Some(i) => Some(i),
            None => if cs.last().type_@ == "Failed"@ {
                Some(cs.len() - 1)
            } else {
                None
            },
        }
    }
}

/// The failure message: that of the first `Failed` condition, or
/// `Job failed` where there is none or it has no message.
pub open spec fn failure_message(cs: Option<Vec<JobCondition>>) -> Seq<char> {
    match cs {
        Some(v) => match first_failed(v@) {
            Some(i) => match v@[i].message {
                Some(m) => m@,
                None => "Job failed"@,
            },
            None => "Job failed"@,
        },
        None => "Job failed"@,
    }
}

pub open spec fn count_of(o: Option<i32>) -> i32 {
    match o {
        Some(x) => x,
        None => 0,
    }
}

/// The job status that a Job's state means: succeeded pods win, then
/// failed ones, then active ones; a Job not yet started is pending.
pub open spec fn k8s_status_ok(st: K8sJobState, now: Timestamp, s: JobStatus) -> bool {
    if count_of(st.succeeded) > 0 {
        s == JobStatus::Succeeded {
            started_at: or_now(st.start_time, now),
            finished_at: or_now(st.completion_time, now),
        }
    } else if count_of(st.failed) > 0 {
        match s {
            JobStatus::Failed { started_at, finished_at, exit_code, message } => started_at
                == st.start_time && finished_at == or_now(st.completion_time, now) && exit_code
                is None && message@ == failure_message(st.conditions),
            _ => false,
        }
    } else if count_of(st.active) > 0 {
        s == JobStatus::Running { started_at: or_now(st.start_time, now) }
    } else if st.start_time is None {
        s == JobStatus::Pending
    } else {
        s == JobStatus::Running { started_at: or_now(st.start_time, now) }
    }
}

fn failure_message_exec(cs: &Option<Vec<JobCondition>>) -> (r: String)
    ensures
        r@ == failure_message(*cs),
{
    match cs {
        None => owned("Job failed"),
        Some(v) => {
            let mut i: usize = 0;
            while i < v.len()
                invariant
                    i <= v.len(),
                    *cs == Some(*v),
                    first_failed(v@.take(i as int)) is None,
                decreases v.len() - i,
            {
                assert(v@.take(i + 1).drop_last() =~= v@.take(i as int));
                if str_eq(v[i].type_.as_str(), "Failed") {
                    proof {
                        assert(v@.take(i + 1).last() == v@[i as int]);
                        assert(first_failed(v@.take(i + 1)) == Some(i as int));
                        lemma_first_failed_prefix(v@, i as int + 1);
                    }
                    let r = match &v[i].message {
                        Some(m) => m.clone(),
                        None => owned("Job failed"),
                    };
                    assert(first_failed(v@) == Some(i as int));
                    assert(*cs == Some(*v));
                    return r;
                }
                i = i + 1;
            }
            assert(v@.take(i as int) =~= v@);
            owned("Job failed")
        },
    }
}

proof fn lemma_first_failed_prefix(cs: Seq<JobCondition>, k: int)
    requires
        0 < k <= cs.len(),
        first_failed(cs.take(k)) is Some,
    ensures
        first_failed(cs) == first_failed(cs.take(k)),
    decreases cs.len() - k,
{
    if k < cs.len() {
        assert(cs.take(k + 1).drop_last() =~= cs.take(k));
        lemma_first_failed_prefix(cs, k + 1);
    } else {
        assert(cs.take(k) =~= cs);
    }
}

/// The job status for a Job's state; `now` stands in for missing instants.
pub fn k8s_job_status(st: &K8sJobState, now: Timestamp) -> (s: JobStatus)
    ensures
        k8s_status_ok(*st, now, s),
{
    let active = match st.active {
        Some(x) => x,
        None => 0,
    };
    let succeeded = match st.succeeded {
        Some(x) => x,
        None => 0,
    };
    let failed = match st.failed {
        Some(x) => x,
        None => 0,
    };
    let started = match st.start_time {
        Some(t) => t,
        None => now,
    };
    let finished = match st.completion_time {
        Some(t) => t,
        None => now,
    };
    if succeeded > 0 {
        JobStatus::Succeeded { started_at: started, finished_at: finished }
    } else if failed > 0 {
        JobStatus::Failed {
            started_at: st.start_time,
            finished_at: finished,
            exit_code: None,
            message: failure_message_exec(&st.conditions),
        }
    } else if active > 0 {
        JobStatus::Running { started_at: started }
    } else if st.start_time.is_none() {
        JobStatus::Pending
    } else {
        JobStatus::Running { started_at: started }
    }
}

/// Index of the first space byte.
pub open spec fn first_space(b: Seq<u8>) -> Option<int>
    decreases b.len(),
{
    if b.len() == 0 {
        None
    } else {
        match first_space(b.drop_last()) {
            Some(i) => Some(i),
            None => if b.last() == 32 {
                Some(b.len() - 1)
            } else {
                None
            },
        }
    }
}

/// Where the timestamp of a log line ends: at the first space, or byte 30
/// where there is none, and at most byte 35.
pub open spec fn log_ts_end(b: Seq<u8>) -> int {
    let e = match first_space(b) {
        Some(i) => i,
        None => 30,
    };
    if e < 35 {
        e
    } else {
        35
    }
}

/// The line looks like it starts with a timestamp: it is longer than 30
/// bytes and its fifth character is `-`.
pub open spec fn looks_timestamped(line: &str) -> bool {
    line.spec_bytes().len() > 30 && line@.len() > 4 && line@[4] == '-'
}

/// The text that a timestamped line's timestamp is read from.
pub open spec fn log_ts_text(line: &str) -> Seq<char> {
    trim_of(decode_utf8(line.spec_bytes().subrange(0, log_ts_end(line.spec_bytes()))))
}

/// The rest of a timestamped line after the timestamp and one separator
/// byte; empty where that position is not a character boundary.
pub open spec fn log_rest(line: &str) -> Seq<char> {
    let b = line.spec_bytes();
    let e = log_ts_end(b);
    if is_char_boundary(b, e + 1) {
        decode_utf8(b.subrange(e + 1, b.len() as int))
    } else {
        Seq::empty()
    }
}

/// The byte positions of a line are cut only at character boundaries.
pub open spec fn log_line_cuttable(line: &str) -> bool {
    looks_timestamped(line) ==> is_char_boundary(line.spec_bytes(), log_ts_end(line.spec_bytes()))
}

/// Whether a line can be split at its timestamp's end (which is always so
/// for a line that does not look timestamped).
pub fn can_cut_log_line(line: &str) -> (r: bool)
    ensures
        r == log_line_cuttable(line),
{
    let b = line.as_bytes();
    let cs = chars_of(line);
    if !(b.len() > 30 && cs.len() > 4 && cs[4] == '-') {
        return true;
    }
    let mut e: usize = match first_space_exec(b) {
        Some(i) => i,
        None => 30,
    };
    if e > 35 {
        e = 35;
    }
    assert(e == log_ts_end(b@));
    line.is_char_boundary(e)
}

/// The trimmed text before the timestamp's end, for a line that looks
/// timestamped.
pub fn log_timestamp_text(line: &str) -> (r: Option<String>)
    requires
        log_line_cuttable(line),
    ensures
        match r {
            Some(t) => looks_timestamped(line) && t@ == log_ts_text(line),
            None => !looks_timestamped(line),
        },
{
    let b = line.as_bytes();
    let cs = chars_of(line);
    if !(b.len() > 30 && cs.len() > 4 && cs[4] == '-') {
        return None;
    }
    let mut e: usize = match first_space_exec(b) {
        Some(i) => i,
        None => 30,
    };
    if e > 35 {
        e = 35;
    }
    assert(e == log_ts_end(b@));
    let (head, _) = line.split_at(e);
    let hc = chars_of(head);
    proof {
        encode_utf8_decode_utf8(head@);
    }
    let t = trim_exec(hc.as_slice());
    Some(string_of(t.as_slice()))
}

/// Index of the first space byte.
fn first_space_exec(b: &[u8]) -> (r: Option<usize>)
    ensures
        match r {
            Some(i) => first_space(b@) == Some(i as int),
            None => first_space(b@) is None,
        },
{
    let mut i: usize = 0;
    while i < b.len()
        invariant
            i <= b.len(),
            first_space(b@.take(i as int)) is None,
        decreases b.len() - i,
    {
        assert(b@.take(i + 1).drop_last() =~= b@.take(i as int));
        if b[i] == 32 {
            proof {
                assert(b@.take(i + 1).last() == b@[i as int]);
                lemma_first_space_prefix(b@, i as int + 1);
            }
            return Some(i);
        }
        i = i + 1;
    }
    assert(b@.take(i as int) =~= b@);
    None
}

proof fn lemma_first_space_prefix(b: Seq<u8>, k: int)
    requires
        0 < k <= b.len(),
        first_space(b.take(k)) is Some,
    ensures
        first_space(b) == first_space(b.take(k)),
    decreases b.len() - k,
{
    if k < b.len() {
        assert(b.take(k + 1).drop_last() =~= b.take(k));
        lemma_first_space_prefix(b, k + 1);
    } else {
        assert(b.take(k) =~= b);
    }
}

/// The log line for a raw line whose timestamp, if it had one, was read as
/// `ts`: the timestamp and the rest of the line, or `now` and the whole
/// line; trailing white space is dropped from the text.
pub fn log_line_from(line: &str, ts: Option<Timestamp>, now: Timestamp) -> (r: (Timestamp, String))
    requires
        log_line_cuttable(line),
    ensures
        match ts {
            Some(t) => looks_timestamped(line) ==> r.0 == t && r.1@ == trim_end_of(log_rest(line)),
            None => true,
        },
        (ts is None || !looks_timestamped(line)) ==> r.0 == now && r.1@ == trim_end_of(line@),
{
    let b = line.as_bytes();
    let cs = chars_of(line);
    let timestamped = b.len() > 30 && cs.len() > 4 && cs[4] == '-';
    match ts {
        Some(t) => if timestamped {
            let mut e: usize = match first_space_exec(b) {
                Some(i) => i,
                None => 30,
            };
            if e > 35 {
                e = 35;
            }
            assert(e == log_ts_end(b@));
            let rest: Vec<char> = if e + 1 <= b.len() && line.is_char_boundary(e + 1) {
                let (_, tail) = line.split_at(e + 1);
                proof {
                    encode_utf8_decode_utf8(tail@);
                }
                chars_of(tail)
            } else {
                Vec::new()
            };
            proof {
                encode_utf8_valid_utf8(line@);
                if !(e + 1 <= b.len()) {
                    assert(!is_char_boundary(b@, e + 1));
                }
            }
            let msg = trim_end_exec(rest.as_slice());
            return (t, string_of(msg.as_slice()));
        },
        None => {},
    }
    let msg = trim_end_exec(cs.as_slice());
    (now, string_of(msg.as_slice()))
}

/// Splits a raw `kubectl logs --timestamps` line into its instant and text:
/// a leading RFC 3339 timestamp is read with `chrono`, else `now` is used.
pub fn parse_log_line(line: &str, now: Timestamp) -> (r: (Timestamp, String))
    requires
        log_line_cuttable(line),
    ensures
        looks_timestamped(line) && rfc3339_instant(log_ts_text(line)) is Some ==> r.0 == instant_of(
            rfc3339_instant(log_ts_text(line)),
        )->0 && r.1@ == trim_end_of(log_rest(line)),
        !(looks_timestamped(line) && rfc3339_instant(log_ts_text(line)) is Some) ==> r.0 == now
            && r.1@ == trim_end_of(line@),
{
    let ts = match log_timestamp_text(line) {
        Some(t) => parse_rfc3339(t.as_str()),
        None => None,
    };
    log_line_from(line, ts, now)
}

/// What a watch of a Job reports.
#[derive(Debug)]
pub enum JobWatchEvent {
    /// The Job as it now is, with its succeeded and failed pod counts.
    Applied { succeeded: Option<i32>, failed: Option<i32> },
    /// The Job was deleted.
    Deleted,
    /// The watch is (re)starting and lists what exists.
    Listing,
    /// The watch failed for a moment; it goes on.
    WatchFailed,
}

/// What waiting for a Job does after an event of its watch.
#[derive(Debug)]
pub enum WatchStep {
    /// Wait for the next event.
    KeepWaiting,
    /// The Job has finished: read its status.
    Finished,
    /// Stop waiting with this error.
    Fail(Error),
}

/// A Job has finished once one of its pods succeeded or failed; a deleted
/// Job fails the wait; anything else keeps it waiting.
pub fn watch_step(event: &JobWatchEvent) -> (r: WatchStep)
    ensures
        match *event {
            JobWatchEvent::Applied { succeeded, failed } => if count_of(succeeded) > 0 || count_of(
                failed,
            ) > 0 {
                r is Finished
            } else {
                r is KeepWaiting
            },
            JobWatchEvent::Deleted => r matches WatchStep::Fail(Error::ExecutionFailed(m)) && m@
                == "Job was deleted"@,
            _ => r is KeepWaiting,
        },
{
    match event {
        JobWatchEvent::Applied { succeeded, failed } => {
            let s = match succeeded {
                Some(x) => *x,
                None => 0,
            };
            let f = match failed {
                Some(x) => *x,
                None => 0,
            };
            if s > 0 || f > 0 {
                WatchStep::Finished
            } else {
                WatchStep::KeepWaiting
            }
        },
        JobWatchEvent::Deleted => WatchStep::Fail(Error::ExecutionFailed(owned("Job was deleted"))),
        JobWatchEvent::Listing => WatchStep::KeepWaiting,
        JobWatchEvent::WatchFailed => WatchStep::KeepWaiting,
    }
}

/// The result of a finished Job: its status and the exit code of its pod's
/// first container, if it terminated; no artifacts are collected.
pub fn finished_job_result(status: JobStatus, exit_code: Option<i32>) -> (r: JobResult)
    ensures
        r.status == status,
        r.exit_code == exit_code,
        r.artifacts.len() == 0,
{
    JobResult { status, exit_code, artifacts: Vec::new() }
}

} // verus!
