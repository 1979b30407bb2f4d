//! What the dashboard pages show of runs, stages, stacks and deployments:
//! durations, short hashes, trigger details with their defaults, masked
//! values, and the stages of a run merged with their results.
use vstd::prelude::*;
use crate::json::{get_spec, json_as_array, json_get, json_str_at, str_at, JsonValue};
use crate::num::{decimal, fmt_i128, fmt_u128, signed_decimal};
use crate::pipeline::strings_view;
use crate::text::{append_str, chars_of, owned, str_eq, string_of};
use crate::time::Timestamp;
use crate::ui::{secs_between, StageView};

verus! {

/// An instant as `chrono` makes them (the nanosecond part stays below two
/// seconds, leap seconds included).
pub open spec fn valid_instant(t: Timestamp) -> bool {
    t.nanos < 2_000_000_000
}

pub open spec fn valid_opt(t: Option<Timestamp>) -> bool {
    match t {
        Some(x) => valid_instant(x),
        None => true,
    }
}

/// Whole seconds from `start` to `end`, rounded toward zero, as `chrono`'s
/// `(end - start).num_seconds()` gives them.
pub fn elapsed_secs(start: Timestamp, end: Timestamp) -> (s: i128)
    requires
        valid_instant(start),
        valid_instant(end),
    ensures
        s == secs_between(end, start),
{
    let d: i128 = (end.secs as i128 - start.secs as i128) * 1_000_000_000 + (end.nanos as i128
        - start.nanos as i128);
    if d >= 0 {
        (d as u128 / 1_000_000_000) as i128
    } else {
        -(((-d) as u128 / 1_000_000_000) as i128)
    }
}

/// A duration as the pages show it: seconds under a minute, else minutes
/// and seconds.
pub open spec fn duration_text(s: int) -> Seq<char> {
    if s < 60 {
        signed_decimal(s) + "s"@
    } else {
        decimal((s / 60) as nat) + "m "@ + decimal((s % 60) as nat) + "s"@
    }
}

/// Formats a number of seconds: `42s`, or `1m 23s` from a minute on.
pub fn duration_label(secs: i128) -> (r: String)
    ensures
        r@ == duration_text(secs as int),
{
    let mut out: Vec<char>;
    if secs < 60 {
        out = fmt_i128(secs);
        append_str(&mut out, "s");
    } else {
        out = fmt_u128((secs / 60) as u128);
        append_str(&mut out, "m ");
        let rest = fmt_u128((secs % 60) as u128);
        crate::text::append_chars(&mut out, rest.as_slice());
        append_str(&mut out, "s");
    }
    string_of(out.as_slice())
}

/// The duration of something that started and may have finished: up to
/// its end, or up to `now` while it runs; `-` where it has not started.
pub open spec fn span_text(start: Option<Timestamp>, end: Option<Timestamp>, now: Timestamp) -> Seq<char> {
    match (start, end) {
        (Some(s), Some(e)) => duration_text(secs_between(e, s)),
        (Some(s), None) => duration_text(secs_between(now, s)),
        _ => "-"@,
    }
}

/// The duration label of a stage or a run.
pub fn span_label(start: Option<Timestamp>, end: Option<Timestamp>, now: Timestamp) -> (r: String)
    requires
        valid_opt(start),
        valid_opt(end),
        valid_instant(now),
    ensures
        r@ == span_text(start, end, now),
{
    match (start, end) {
        (Some(s), Some(e)) => duration_label(elapsed_secs(s, e)),
        (Some(s), None) => duration_label(elapsed_secs(s, now)),
        _ => owned("-"),
    }
}

/// The duration of a stack run: like a stage's, but a running one shows
/// its seconds so far and "(running)".
pub open spec fn stack_run_span_text(start: Option<Timestamp>, end: Option<Timestamp>, now: Timestamp) -> Seq<
    char,
> {
    match (start, end) {
        (Some(s), Some(e)) => duration_text(secs_between(e, s)),
        (Some(s), None) => signed_decimal(secs_between(now, s)) + "s (running)"@,
        _ => "-"@,
    }
}

/// The duration label of a stack run.
pub fn stack_run_duration(start: Option<Timestamp>, end: Option<Timestamp>, now: Timestamp) -> (r: String)
    requires
        valid_opt(start),
        valid_opt(end),
        valid_instant(now),
    ensures
        r@ == stack_run_span_text(start, end, now),
{
    match (start, end) {
        (Some(s), Some(e)) => duration_label(elapsed_secs(s, e)),
        (Some(s), None) => {
            let mut out = fmt_i128(elapsed_secs(s, now));
            append_str(&mut out, "s (running)");
            string_of(out.as_slice())
        },
        _ => owned("-"),
    }
}

/// The duration of a deployment: shown only once it has finished.
pub open spec fn finished_span_text(start: Option<Timestamp>, end: Option<Timestamp>) -> Seq<char> {
    match (start, end) {
        (Some(s), Some(e)) => duration_text(secs_between(e, s)),
        _ => "-"@,
    }
}

/// The duration label of a deployment.
pub fn deployment_duration(start: Option<Timestamp>, end: Option<Timestamp>) -> (r: String)
    requires
        valid_opt(start),
        valid_opt(end),
    ensures
        r@ == finished_span_text(start, end),
{
    match (start, end) {
        (Some(s), Some(e)) => duration_label(elapsed_secs(s, e)),
        _ => owned("-"),
    }
}

/// The first `n` characters of a text (all of it where it is shorter), as
/// commit hashes are shortened.
pub fn first_chars(s: &str, n: usize) -> (r: String)
    ensures
        r@ == s@.take(if n < s@.len() {
            n as int
        } else {
            s@.len() as int
        }),
{
    let cs = chars_of(s);
    let k = if n < cs.len() {
        n
    } else {
        cs.len()
    };
    let mut out: Vec<char> = Vec::new();
    let mut i: usize = 0;
    while i < k
        invariant
            i <= k,
            k <= cs.len(),
            cs@ == s@,
            out@ == s@.take(i as int),
        decreases k - i,
    {
        out.push(cs[i]);
        assert(s@.take(i + 1) =~= s@.take(i as int).push(s@[i as int]));
        i = i + 1;
    }
    string_of(out.as_slice())
}

/// A text detail of a run's trigger, or the page's default for it.
pub fn info_text(info: &JsonValue, key: &str, default: &str) -> (r: String)
    ensures
        r@ == match str_at(*info, key@) {
            Some(t) => t,
            None => default@,
        },
{
    match json_str_at(info, key) {
        Some(t) => owned(t),
        None => owned(default),
    }
}

/// The trigger details a run page shows: the branch (`main` by default),
/// the commit hash cut to seven characters, the commit message
/// (`No message` by default) and the trigger kind (`manual` by default).
pub fn trigger_summary(info: &JsonValue) -> (r: (String, String, String, String))
    ensures
        r.0@ == match str_at(*info, "branch"@) {
            Some(t) => t,
            None => "main"@,
        },
        r.1@ == match str_at(*info, "commit_sha"@) {
            Some(t) => t.take(if 7 < t.len() {
                7
            } else {
                t.len() as int
            }),
            None => Seq::<char>::empty(),
        },
        r.2@ == match str_at(*info, "commit_message"@) {
            Some(t) => t,
            None => "No message"@,
        },
        r.3@ == match str_at(*info, "kind"@) {
            Some(t) => t,
            None => "manual"@,
        },
{
    let branch = info_text(info, "branch", "main");
    let sha_full = info_text(info, "commit_sha", "");
    proof {
        reveal_strlit("");
    }
    let sha = first_chars(sha_full.as_str(), 7);
    let message = info_text(info, "commit_message", "No message");
    let kind = info_text(info, "kind", "manual");
    (branch, sha, message, kind)
}

/// A variable's value as a page shows it: masked where it is sensitive,
/// empty where it has none.
pub fn masked_value(value: Option<String>, is_sensitive: bool) -> (r: String)
    ensures
        r@ == (if is_sensitive {
            "********"@
        } else {
            match value {
                Some(v) => v@,
                None => Seq::<char>::empty(),
            }
        }),
{
    if is_sensitive {
        owned("********")
    } else {
        match value {
            Some(v) => v,
            None => {
                let r = String::new();
                r
            },
        }
    }
}

/// The number of resources in a stack's Terraform state (the length of its
/// `resources` array, as an `i32`), or 0 where there is no such state.
pub fn resource_count(state: Option<&JsonValue>) -> (r: i32)
    ensures
        r == match state {
            Some(v) => match get_spec(*v, "resources"@) {
                Some(JsonValue::Array(a)) => a.len() as i32,
                _ => 0i32,
            },
            None => 0i32,
        },
{
    match state {
        Some(v) => match json_get(v, "resources") {
            Some(x) => match json_as_array(x) {
                Some(a) => {
                    #[verifier::truncate]
                    let n = a.len() as i32;
                    n
                },
                None => 0,
            },
            None => 0,
        },
        None => 0,
    }
}

/// Whether a run's plan changes anything.
pub fn run_has_changes(to_add: i32, to_change: i32, to_destroy: i32) -> (r: bool)
    ensures
        r == (to_add > 0 || to_change > 0 || to_destroy > 0),
{
    to_add > 0 || to_change > 0 || to_destroy > 0
}

/// A stage of a pipeline as defined: its name and what it needs.
#[derive(Debug, Clone)]
pub struct StageDefinition {
    pub name: String,
    pub depends_on: Vec<String>,
}

/// What a run recorded for one stage.
#[derive(Debug, Clone)]
pub struct StageTiming {
    pub stage_name: String,
    pub status: String,
    pub started_at: Option<Timestamp>,
    pub finished_at: Option<Timestamp>,
}

/// The result recorded last for a stage name (a later result for the same
/// name replaces an earlier one).
pub open spec fn last_result(rs: Seq<StageTiming>, name: Seq<char>) -> Option<int>
    decreases rs.len(),
{
    if rs.len() == 0 {
        None
    } else if rs.last().stage_name@ == name {
        Some(rs.len() - 1)
    } else {
        last_result(rs.drop_last(), name)
    }
}

pub proof fn lemma_last_result_bounds(rs: Seq<StageTiming>, name: Seq<char>)
    ensures
        last_result(rs, name) matches Some(i) ==> 0 <= i < rs.len() && rs[i].stage_name@ == name,
    decreases rs.len(),
{
    if rs.len() > 0 && rs.last().stage_name@ != name {
        lemma_last_result_bounds(rs.drop_last(), name);
    }
}

pub open spec fn timings_valid(rs: Seq<StageTiming>) -> bool {
    forall|i: int| 0 <= i < rs.len() ==> valid_opt(#[trigger] rs[i].started_at) && valid_opt(rs[i].finished_at)
}

/// The status and duration a stage shows: those of its last result, or
/// `pending` and `-` where it has none.
pub open spec fn stage_shown(rs: Seq<StageTiming>, name: Seq<char>, now: Timestamp) -> (Seq<char>, Seq<char>) {
    match last_result(rs, name) {
        Some(i) => (rs[i].status@, span_text(rs[i].started_at, rs[i].finished_at, now)),
        None => ("pending"@, "-"@),
    }
}

fn last_result_exec(rs: &Vec<StageTiming>, name: &str) -> (r: Option<usize>)
    ensures
        match r {
            Some(i) => last_result(rs@, name@) == Some(i as int),
            None => last_result(rs@, name@) is None,
        },
{
    let mut i: usize = rs.len();
    assert(rs@.take(i as int) =~= rs@);
    while i > 0
        invariant
            i <= rs.len(),
            forall|k: int| i <= k < rs.len() ==> (#[trigger] rs@[k]).stage_name@ != name@,
            last_result(rs@, name@) == last_result(rs@.take(i as int), name@),
        decreases i,
    {
        assert(rs@.take(i as int).drop_last() =~= rs@.take(i - 1));
        if str_eq(rs[i - 1].stage_name.as_str(), name) {
            return Some(i - 1);
        }
        i = i - 1;
    }
    assert(rs@.take(0) =~= Seq::<StageTiming>::empty());
    None
}

/// The stages of a run as its page shows them: each definition in order,
/// with the status and duration of its last result (or `pending` and `-`),
/// its dependencies, and no position yet.
pub fn stage_views(defs: Vec<StageDefinition>, results: &Vec<StageTiming>, now: Timestamp) -> (r: Vec<
    StageView,
>)
    requires
        timings_valid(results@),
        valid_instant(now),
    ensures
        r.len() == defs.len(),
        forall|i: int|
            0 <= i < r.len() ==> {
                &&& (#[trigger] r@[i]).name@ == defs@[i].name@
                &&& strings_view(r@[i].dependencies@) == strings_view(defs@[i].depends_on@)
                &&& (r@[i].status@, r@[i].duration@) == stage_shown(results@, defs@[i].name@, now)
                &&& r@[i].column == 0 && r@[i].row == 0 && r@[i].x == 0 && r@[i].y == 0
            },
{
    let ghost ds = defs@;
    let mut out: Vec<StageView> = Vec::new();
    let mut defs = defs;
    let mut i: usize = 0;
    let n = defs.len();
    while i < n
        invariant
            n == ds.len(),
            i <= n,
            defs@ == ds.skip(i as int),
            timings_valid(results@),
            valid_instant(now),
            out.len() == i,
            forall|k: int|
                0 <= k < i ==> {
                    &&& (#[trigger] out@[k]).name@ == ds[k].name@
                    &&& strings_view(out@[k].dependencies@) == strings_view(ds[k].depends_on@)
                    &&& (out@[k].status@, out@[k].duration@) == stage_shown(results@, ds[k].name@, now)
                    &&& out@[k].column == 0 && out@[k].row == 0 && out@[k].x == 0 && out@[k].y == 0
                },
        decreases n - i,
    {
        let def = defs.remove(0);
        assert(def == ds[i as int]);
        assert(defs@ =~= ds.skip(i + 1));
        let (status, duration) = match last_result_exec(results, def.name.as_str()) {
            Some(j) => {
                proof {
                    lemma_last_result_bounds(results@, def.name@);
                }
                let r = &results[j];
                (r.status.clone(), span_label(r.started_at, r.finished_at, now))
            },
            None => {
                proof {
                    reveal_strlit("pending");
                }
                (owned("pending"), owned("-"))
            },
        };
        out.push(
            StageView {
                name: def.name,
                status,
                duration,
                dependencies: def.depends_on,
                column: 0,
                row: 0,
                x: 0,
                y: 0,
            },
        );
        i = i + 1;
    }
    out
}

/// Whether instant `a` comes before instant `b`.
pub open spec fn instant_before(a: Timestamp, b: Timestamp) -> bool {
    a.secs < b.secs || (a.secs == b.secs && a.nanos < b.nanos)
}

pub open spec fn earlier_of(a: Option<Timestamp>, b: Option<Timestamp>) -> Option<Timestamp> {
    match (a, b) {
        (Some(x), Some(y)) => if instant_before(y, x) {
            Some(y)
        } else {
            Some(x)
        },
        (Some(x), None) => Some(x),
        (None, y) => y,
    }
}

pub open spec fn later_of(a: Option<Timestamp>, b: Option<Timestamp>) -> Option<Timestamp> {
    match (a, b) {
        (Some(x), Some(y)) => if instant_before(x, y) {
            Some(y)
        } else {
            Some(x)
        },
        (Some(x), None) => Some(x),
        (None, y) => y,
    }
}

/// The earliest start among stage results.
pub open spec fn earliest_start(rs: Seq<StageTiming>) -> Option<Timestamp>
    decreases rs.len(),
{
    if rs.len() == 0 {
        None
    } else {
        earlier_of(earliest_start(rs.drop_last()), rs.last().started_at)
    }
}

/// The latest end among stage results.
pub open spec fn latest_end(rs: Seq<StageTiming>) -> Option<Timestamp>
    decreases rs.len(),
{
    if rs.len() == 0 {
        None
    } else {
        later_of(latest_end(rs.drop_last()), rs.last().finished_at)
    }
}

/// The earliest start is one of the starts, and none comes before it.
pub proof fn lemma_earliest_start(rs: Seq<StageTiming>)
    ensures
        earliest_start(rs) is None <==> forall|i: int| 0 <= i < rs.len() ==> (#[trigger] rs[i]).started_at is None,
        earliest_start(rs) matches Some(t) ==> {
            &&& exists|i: int| 0 <= i < rs.len() && (#[trigger] rs[i]).started_at == Some(t)
            &&& forall|i: int| 0 <= i < rs.len() ==> ((#[trigger] rs[i]).started_at matches Some(u) ==> !instant_before(u, t))
        },
    decreases rs.len(),
{
    if rs.len() > 0 {
        let p = rs.drop_last();
        let n = rs.len() - 1;
        lemma_earliest_start(p);
        assert forall|i: int| 0 <= i < p.len() implies #[trigger] p[i] == rs[i] by {}
        let l = rs[n].started_at;
        assert(earliest_start(rs) == earlier_of(earliest_start(p), l));
        match earliest_start(p) {
            None => {
                assert forall|i: int| 0 <= i < n implies (#[trigger] rs[i]).started_at is None by {
                    assert(p[i].started_at is None);
                }
                if let Some(t) = l {
                    assert(rs[n].started_at == Some(t));
                }
            },
            Some(x) => {
                let j = choose|i: int| 0 <= i < p.len() && (#[trigger] p[i]).started_at == Some(x);
                assert(rs[j].started_at == Some(x));
                match l {
                    Some(y) => {
                        if instant_before(y, x) {
                            assert(rs[n].started_at == Some(y));
                            assert forall|i: int| 0 <= i < rs.len() implies ((#[trigger] rs[i]).started_at matches Some(u)
                                ==> !instant_before(u, y)) by {
                                if i < n {
                                    assert(p[i] == rs[i]);
                                }
                            }
                        } else {
                            assert forall|i: int| 0 <= i < rs.len() implies ((#[trigger] rs[i]).started_at matches Some(u)
                                ==> !instant_before(u, x)) by {
                                if i < n {
                                    assert(p[i] == rs[i]);
                                }
                            }
                        }
                    },
                    None => {
                        assert forall|i: int| 0 <= i < rs.len() implies ((#[trigger] rs[i]).started_at matches Some(u)
                            ==> !instant_before(u, x)) by {
                            if i < n {
                                assert(p[i] == rs[i]);
                            }
                        }
                    },
                }
            },
        }
    }
}

/// The first and last instants of a run: the earliest start and the latest
/// end among its stage results.
pub fn run_span(results: &Vec<StageTiming>) -> (r: (Option<Timestamp>, Option<Timestamp>))
    ensures
        r.0 == earliest_start(results@),
        r.1 == latest_end(results@),
{
    let mut first: Option<Timestamp> = None;
    let mut last: Option<Timestamp> = None;
    let mut i: usize = 0;
    while i < results.len()
        invariant
            i <= results.len(),
            first == earliest_start(results@.take(i as int)),
            last == latest_end(results@.take(i as int)),
        decreases results.len() - i,
    {
        assert(results@.take(i + 1).drop_last() =~= results@.take(i as int));
        let r = &results[i];
        first = match (first, r.started_at) {
            (Some(x), Some(y)) => if y.secs < x.secs || (y.secs == x.secs && y.nanos < x.nanos) {
                Some(y)
            } else {
                Some(x)
            },
            (Some(x), None) => Some(x),
            (None, y) => y,
        };
        last = match (last, r.finished_at) {
            (Some(x), Some(y)) => if x.secs < y.secs || (x.secs == y.secs && x.nanos < y.nanos) {
                Some(y)
            } else {
                Some(x)
            },
            (Some(x), None) => Some(x),
            (None, y) => y,
        };
        i = i + 1;
    }
    assert(results@.take(i as int) =~= results@);
    (first, last)
}

/// The duration a run page shows for a whole run: from its earliest stage
/// start to its latest stage end, or to `now` while no stage has ended.
pub fn run_duration(results: &Vec<StageTiming>, now: Timestamp) -> (r: String)
    requires
        timings_valid(results@),
        valid_instant(now),
    ensures
        r@ == span_text(earliest_start(results@), latest_end(results@), now),
{
    proof {
        lemma_span_valid(results@);
    }
    let (first, last) = run_span(results);
    span_label(first, last, now)
}

proof fn lemma_span_valid(rs: Seq<StageTiming>)
    requires
        timings_valid(rs),
    ensures
        valid_opt(earliest_start(rs)),
        valid_opt(latest_end(rs)),
    decreases rs.len(),
{
    if rs.len() > 0 {
        let p = rs.drop_last();
        assert(timings_valid(p)) by {
            assert forall|i: int| 0 <= i < p.len() implies valid_opt(#[trigger] p[i].started_at) && valid_opt(
                p[i].finished_at,
            ) by {
                assert(p[i] == rs[i]);
            }
        }
        lemma_span_valid(p);
        assert(valid_opt(rs[rs.len() - 1].started_at));
    }
}

/// The address GitHub is told to send a repository's webhooks to.
pub fn webhook_url(id: &str) -> (r: String)
    ensures
        r@ == "https://api.buildit.dev/webhooks/github/"@ + id@,
{
    let mut out = chars_of("https://api.buildit.dev/webhooks/github/");
    append_str(&mut out, id);
    string_of(out.as_slice())
}

} // verus!
