//! Dashboard helpers: the layout of a run's stage graph, and short labels.
use vstd::prelude::*;
use crate::graph::{count_eq, has_cycle, lemma_count_update, lemma_white_mono, path_ok, step_ok, wf_graph, adj_view};
use crate::pipeline::strings_view;
use crate::num::{decimal, fmt_i128, fmt_u128, signed_decimal};
use crate::text::{append_chars, append_str, chars_of, str_eq, string_of};
use crate::time::{utc_now, Timestamp};

verus! {

/// A stage as the run page shows it.
#[derive(Debug)]
pub struct StageView {
    pub name: String,
    pub status: String,
    pub duration: String,
    pub dependencies: Vec<String>,
    /// Column/group this stage belongs to.
    pub column: i32,
    /// Row within the column.
    pub row: i32,
    /// Position in the dependency graph drawing.
    pub x: i32,
    pub y: i32,
}

/// An arrow of the dependency graph drawing, from a dependency to the stage
/// that needs it.
#[derive(Debug)]
pub struct DagEdge {
    pub from_x: i32,
    pub from_y: i32,
    pub to_x: i32,
    pub to_y: i32,
    /// Status of the source stage (for edge colouring).
    pub from_status: String,
    pub from_name: String,
    pub to_name: String,
    /// Control point offset for the curve, to spread edges from one source.
    pub control_offset: i32,
}

pub open spec fn stage_names(s: Seq<StageView>) -> Seq<Seq<char>> {
    s.map_values(|x: StageView| x.name@)
}

pub open spec fn stage_deps(s: Seq<StageView>, i: int) -> Seq<Seq<char>> {
    strings_view(s[i].dependencies@)
}

/// Index of the last entry equal to `name`.
pub open spec fn last_index(names: Seq<Seq<char>>, name: Seq<char>) -> Option<int>
    decreases names.len(),
{
    if names.len() == 0 {
        None
    } else if names.last() == name {
        Some(names.len() - 1)
    } else {
        last_index(names.drop_last(), name)
    }
}

/// The indices of the names in `ds` that some stage carries.
pub open spec fn known_deps(names: Seq<Seq<char>>, ds: Seq<Seq<char>>) -> Seq<usize>
    decreases ds.len(),
{
    if ds.len() == 0 {
        Seq::empty()
    } else {
        let rest = known_deps(names, ds.drop_last());
        match last_index(names, ds.last()) {
            Some(j) => rest.push(j as usize),
            None => rest,
        }
    }
}

/// Each stage points at the stages its dependencies name.
pub open spec fn dep_graph(s: Seq<StageView>) -> Seq<Seq<usize>> {
    Seq::new(s.len(), |i: int| known_deps(stage_names(s), stage_deps(s, i)))
}

/// The largest level among the listed stages, 0 if none.
pub open spec fn max_over(levels: Seq<int>, cs: Seq<usize>) -> int
    decreases cs.len(),
{
    if cs.len() == 0 {
        0
    } else {
        let m = max_over(levels, cs.drop_last());
        let v = levels[cs.last() as int];
        if v > m {
            v
        } else {
            m
        }
    }
}

/// A stage without dependencies is at level 0; any other is one level
/// right of its deepest known dependency.
pub open spec fn level_eq(s: Seq<StageView>, levels: Seq<int>, i: int) -> bool {
    levels[i] == if s[i].dependencies.len() == 0 {
        0
    } else {
        1 + max_over(levels, dep_graph(s)[i])
    }
}

proof fn lemma_last_index(names: Seq<Seq<char>>, name: Seq<char>)
    ensures
        match last_index(names, name) {
            Some(i) => 0 <= i < names.len() && names[i] == name && forall|k: int|
                i < k < names.len() ==> names[k] != name,
            None => forall|k: int| 0 <= k < names.len() ==> names[k] != name,
        },
    decreases names.len(),
{
    if names.len() > 0 {
        lemma_last_index(names.drop_last(), name);
        assert(forall|k: int| 0 <= k < names.len() - 1 ==> names.drop_last()[k] == names[k]);
    }
}

proof fn lemma_last_index_is(names: Seq<Seq<char>>, name: Seq<char>, i: int)
    requires
        0 <= i < names.len(),
        names[i] == name,
        forall|k: int| i < k < names.len() ==> names[k] != name,
    ensures
        last_index(names, name) == Some(i),
    decreases names.len(),
{
    if i < names.len() - 1 {
        lemma_last_index_is(names.drop_last(), name, i);
    }
}

proof fn lemma_last_index_none(names: Seq<Seq<char>>, name: Seq<char>)
    requires
        forall|k: int| 0 <= k < names.len() ==> names[k] != name,
    ensures
        last_index(names, name) is None,
    decreases names.len(),
{
    if names.len() > 0 {
        lemma_last_index_none(names.drop_last(), name);
    }
}

proof fn lemma_known_deps_range(names: Seq<Seq<char>>, ds: Seq<Seq<char>>)
    requires
        names.len() <= usize::MAX,
    ensures
        forall|k: int| 0 <= k < known_deps(names, ds).len() ==> #[trigger] known_deps(names, ds)[k] < names.len(),
    decreases ds.len(),
{
    if ds.len() > 0 {
        lemma_known_deps_range(names, ds.drop_last());
        lemma_last_index(names, ds.last());
        let kd = known_deps(names, ds);
        let kr = known_deps(names, ds.drop_last());
        assert forall|k: int| 0 <= k < kd.len() implies #[trigger] kd[k] < names.len() by {
            if k < kr.len() {
                assert(kd[k] == kr[k]);
            }
        }
    }
}

/// Index of the last stage called `name`.
fn index_by_name(stages: &Vec<StageView>, name: &str) -> (r: Option<usize>)
    ensures
        match r {
            Some(i) => last_index(stage_names(stages@), name@) == Some(i as int),
            None => last_index(stage_names(stages@), name@) is None,
        },
{
    let ghost names = stage_names(stages@);
    let mut i: usize = stages.len();
    while i > 0
        invariant
            i <= stages.len(),
            names == stage_names(stages@),
            forall|k: int| i <= k < stages.len() ==> names[k] != name@,
        decreases i,
    {
        i = i - 1;
        if str_eq(stages[i].name.as_str(), name) {
            proof {
                lemma_last_index_is(names, name@, i as int);
            }
            return Some(i);
        }
    }
    proof {
        lemma_last_index_none(names, name@);
    }
    None
}

/// How many levels are set (not negative).
pub open spec fn count_set(s: Seq<int>) -> nat
    decreases s.len(),
{
    if s.len() == 0 {
        0
    } else {
        count_set(s.drop_last()) + if s.last() >= 0 {
            1nat
        } else {
            0nat
        }
    }
}

proof fn lemma_count_set_update(s: Seq<int>, i: int, x: int)
    requires
        0 <= i < s.len(),
        s[i] < 0,
        x >= 0,
    ensures
        count_set(s.update(i, x)) == count_set(s) + 1,
    decreases s.len(),
{
    if i == s.len() - 1 {
        assert(s.update(i, x).drop_last() =~= s.drop_last());
    } else {
        assert(s.update(i, x).drop_last() =~= s.drop_last().update(i, x));
        lemma_count_set_update(s.drop_last(), i, x);
    }
}

proof fn lemma_count_set_lt(s: Seq<int>, i: int)
    requires
        0 <= i < s.len(),
        s[i] < 0,
    ensures
        count_set(s) < s.len(),
    decreases s.len(),
{
    lemma_count_set_le(s.drop_last());
    if i < s.len() - 1 {
        lemma_count_set_lt(s.drop_last(), i);
    }
}

proof fn lemma_count_set_le(s: Seq<int>)
    ensures
        count_set(s) <= s.len(),
    decreases s.len(),
{
    if s.len() > 0 {
        lemma_count_set_le(s.drop_last());
    }
}

/// `max_over` reads only the levels of the listed stages.
proof fn lemma_max_over_same(l1: Seq<int>, l2: Seq<int>, cs: Seq<usize>)
    requires
        forall|t: int| 0 <= t < cs.len() ==> l1[#[trigger] cs[t] as int] == l2[cs[t] as int],
    ensures
        max_over(l1, cs) == max_over(l2, cs),
    decreases cs.len(),
{
    if cs.len() > 0 {
        lemma_max_over_same(l1, l2, cs.drop_last());
        assert(l1[cs[cs.len() - 1] as int] == l2[cs[cs.len() - 1] as int]);
    }
}

proof fn lemma_max_over_nonneg(l: Seq<int>, cs: Seq<usize>)
    ensures
        max_over(l, cs) >= 0,
    decreases cs.len(),
{
    if cs.len() > 0 {
        lemma_max_over_nonneg(l, cs.drop_last());
    }
}

/// The levels as integers.
pub open spec fn iv(v: Seq<i128>) -> Seq<int> {
    v.map_values(|x: i128| x as int)
}

/// The depth-first level computation, from the levels `l` found so far
/// (-1 where none yet) and the stages `path` being visited: a stage whose
/// level is known keeps it; one met again on the current path counts as
/// level 0; any other gets 0 without dependencies, and otherwise one more
/// than the largest level among its known dependencies, visited in list
/// order. Gives the levels afterwards and the level of `u`. (A path as long
/// as the graph cannot occur; it only bounds the recursion.)
pub open spec fn visit(g: Seq<Seq<usize>>, hd: Seq<bool>, l: Seq<int>, path: Seq<int>, u: int) -> (
    Seq<int>,
    int,
)
    decreases g.len() - path.len(), 0nat,
{
    if l[u] >= 0 {
        (l, l[u])
    } else if path.contains(u) || path.len() >= g.len() {
        (l, 0)
    } else {
        let r = visit_deps(g, hd, l, path.push(u), u, g[u].len());
        let lv = if hd[u] {
            r.1 + 1
        } else {
            0
        };
        (r.0.update(u, lv), lv)
    }
}

/// Visits the first `k` known dependencies of `u` in order, along `p`; gives
/// the levels afterwards and the largest level met (0 if none).
pub open spec fn visit_deps(g: Seq<Seq<usize>>, hd: Seq<bool>, l: Seq<int>, p: Seq<int>, u: int, k: nat) -> (
    Seq<int>,
    int,
)
    decreases g.len() - p.len(), k + 1,
{
    if k == 0 {
        (l, 0)
    } else {
        let a = visit_deps(g, hd, l, p, u, (k - 1) as nat);
        let b = visit(g, hd, a.0, p, g[u][k - 1] as int);
        (
            b.0,
            if b.1 > a.1 {
                b.1
            } else {
                a.1
            },
        )
    }
}

/// The levels after visiting stages `0..i` in turn, each from a fresh path.
pub open spec fn levels_from(g: Seq<Seq<usize>>, hd: Seq<bool>, i: nat) -> Seq<int>
    decreases i,
{
    if i == 0 {
        Seq::new(g.len(), |x: int| -1int)
    } else {
        visit(g, hd, levels_from(g, hd, (i - 1) as nat), Seq::empty(), (i - 1) as int).0
    }
}

/// Which stages list any dependency.
pub open spec fn deps_flags(s: Seq<StageView>) -> Seq<bool> {
    Seq::new(s.len(), |i: int| s[i].dependencies.len() > 0)
}

/// The level (column) of every stage in the layout.
pub open spec fn layout_levels(s: Seq<StageView>) -> Seq<int> {
    levels_from(dep_graph(s), deps_flags(s), s.len())
}

/// A path without repeats through `n` stages has at most `n` entries.
proof fn lemma_path_short(p: Seq<int>, n: int)
    requires
        p.no_duplicates(),
        0 <= n,
        forall|i: int| 0 <= i < p.len() ==> 0 <= #[trigger] p[i] < n,
    ensures
        p.len() <= n,
{
    p.unique_seq_to_set();
    vstd::set_lib::lemma_int_range(0, n);
    assert(p.to_set().subset_of(vstd::set_lib::set_int_range(0, n))) by {
        assert forall|x: int| p.to_set().contains(x) implies vstd::set_lib::set_int_range(0, n).contains(x) by {
            let i = choose|i: int| 0 <= i < p.len() && p[i] == x;
            assert(0 <= p[i] < n);
        }
    }
    vstd::set_lib::lemma_len_subset(p.to_set(), vstd::set_lib::set_int_range(0, n));
}

/// State of the level computation: levels are -1 (unset) or between 0 and
/// the number of set levels; while `ok`, every set level obeys the level
/// equation over set levels; once not `ok`, the graph has a cycle.
pub open spec fn lv_inv(g: Seq<Seq<usize>>, hd: Seq<bool>, l: Seq<int>, v: Seq<u8>, done: int, ok: bool) -> bool {
    &&& wf_graph(g)
    &&& l.len() == g.len()
    &&& v.len() == g.len()
    &&& hd.len() == g.len()
    &&& forall|x: int| 0 <= x < g.len() ==> -1 <= #[trigger] l[x] <= done
    &&& done == count_set(l)
    &&& forall|x: int| 0 <= x < g.len() ==> #[trigger] v[x] <= 1
    &&& forall|x: int| 0 <= x < g.len() && !hd[x] ==> (#[trigger] g[x]).len() == 0
    &&& ok ==> forall|x: int|
        0 <= x < g.len() && #[trigger] l[x] >= 0 ==> (forall|k: int|
            0 <= k < g[x].len() ==> l[#[trigger] g[x][k] as int] >= 0) && l[x] == if !hd[x] {
            0
        } else {
            1 + max_over(l, g[x])
        }
    &&& !ok ==> has_cycle(g)
}

/// The stages being visited whose level is not set are those on the path.
pub open spec fn on_path(l: Seq<int>, v: Seq<u8>, path: Seq<int>) -> bool {
    forall|x: int| 0 <= x < l.len() ==> ((v[x] == 1 && l[x] < 0) <==> path.contains(x))
}

pub open spec fn lv_mono(l1: Seq<int>, l2: Seq<int>, v1: Seq<u8>, v2: Seq<u8>) -> bool {
    &&& forall|x: int| 0 <= x < l1.len() && l1[x] >= 0 ==> #[trigger] l2[x] == l1[x]
    &&& forall|x: int| 0 <= x < v1.len() && v1[x] == 1 ==> #[trigger] v2[x] == 1
}

/// The level of stage `idx`, computed from the levels of its known
/// dependencies and remembered; a dependency met again on the current path
/// counts as level 0.
#[verifier::rlimit(30)]
fn calc_level(
    adj: &Vec<Vec<usize>>,
    has_deps: &Vec<bool>,
    idx: usize,
    levels: &mut Vec<i128>,
    visiting: &mut Vec<u8>,
    done: &mut usize,
    ok: &mut bool,
    Ghost(path): Ghost<Seq<int>>,
) -> (r: i128)
    requires
        lv_inv(adj_view(adj@), has_deps@, iv(old(levels)@), old(visiting)@, *old(done) as int, *old(ok)),
        idx < adj.len(),
        on_path(iv(old(levels)@), old(visiting)@, path),
        path_ok(adj_view(adj@), path.push(idx as int)),
        forall|i: int| 0 <= i < path.len() ==> 0 <= #[trigger] path[i] < adj.len(),
        path.no_duplicates(),
    ensures
        (iv(final(levels)@), r as int) == visit(adj_view(adj@), has_deps@, iv(old(levels)@), path, idx as int),
        lv_inv(adj_view(adj@), has_deps@, iv(final(levels)@), final(visiting)@, *final(done) as int, *final(ok)),
        on_path(iv(final(levels)@), final(visiting)@, path),
        lv_mono(iv(old(levels)@), iv(final(levels)@), old(visiting)@, final(visiting)@),
        *final(ok) ==> *old(ok),
        *final(ok) ==> iv(final(levels)@)[idx as int] >= 0,
        *old(done) <= *final(done),
        0 <= r <= *final(done),
        (old(visiting)@[idx as int] == 0 || iv(old(levels)@)[idx as int] >= 0) ==> iv(final(levels)@)[idx as int] >= 0,
        iv(final(levels)@)[idx as int] >= 0 ==> r == iv(final(levels)@)[idx as int],
    decreases count_eq(old(visiting)@, 0),
{
    let ghost g = adj_view(adj@);
    if levels[idx] >= 0 {
        return levels[idx];
    }
    if visiting[idx] == 1 {
        proof {
            let pp = path.push(idx as int);
            assert(path.contains(idx as int));
            let k = choose|k: int| 0 <= k < path.len() && path[k] == idx as int;
            let q = pp.subrange(k, pp.len() as int);
            assert forall|j: int| 0 <= j < q.len() - 1 implies #[trigger] step_ok(g, q, j) by {
                assert(step_ok(g, pp, k + j));
            }
            assert(q[0] == q.last());
            assert(path_ok(g, q));
        }
        *ok = false;
        return 0;
    }
    let ghost l0 = iv(levels@);
    let ghost v0 = visiting@;
    let ghost gpath = path.push(idx as int);
    proof {
        lemma_count_update(visiting@, idx as int, 1, 0);
        assert(!path.contains(idx as int));
        assert(gpath.no_duplicates()) by {
            assert forall|i: int, j: int| 0 <= i < gpath.len() && 0 <= j < gpath.len() && i != j implies gpath[i]
                != gpath[j] by {
                if i < path.len() && j < path.len() {
                    assert(path[i] != path[j]);
                } else if i < path.len() {
                    assert(path.contains(path[i]));
                } else if j < path.len() {
                    assert(path.contains(path[j]));
                }
            }
        }
        lemma_path_short(gpath, g.len() as int);
        assert(path.len() < g.len());
    }
    visiting.set(idx, 1);
    assert(on_path(iv(levels@), visiting@, gpath)) by {
        assert forall|x: int| 0 <= x < iv(levels@).len() implies ((visiting@[x] == 1 && iv(levels@)[x] < 0)
            <==> gpath.contains(x)) by {
            if x == idx as int {
                assert(gpath[gpath.len() - 1] == x);
            } else if path.contains(x) {
                let k = choose|k: int| 0 <= k < path.len() && path[k] == x;
                assert(gpath[k] == x);
            } else if gpath.contains(x) {
                let k = choose|k: int| 0 <= k < gpath.len() && gpath[k] == x;
                assert(path[k] == x);
            }
        }
    }
    let mut mx: i128 = 0;
    if has_deps[idx] {
        let cs = &adj[idx];
        let mut k: usize = 0;
        while k < cs.len()
            invariant
                g == adj_view(adj@),
                idx < adj.len(),
                cs@ == g[idx as int],
                k <= cs.len(),
                lv_inv(g, has_deps@, iv(levels@), visiting@, *done as int, *ok),
                on_path(iv(levels@), visiting@, gpath),
                path_ok(g, gpath),
                gpath == path.push(idx as int),
                forall|i: int| 0 <= i < gpath.len() ==> 0 <= #[trigger] gpath[i] < adj.len(),
                gpath.no_duplicates(),
                (iv(levels@), mx as int) == visit_deps(g, has_deps@, l0, gpath, idx as int, k as nat),
                lv_mono(l0, iv(levels@), v0, visiting@),
                l0.len() == g.len(),
                v0.len() == g.len(),
                v0 == old(visiting)@,
                iv(levels@)[idx as int] < 0,
                visiting@[idx as int] == 1,
                count_eq(visiting@, 0) < count_eq(v0, 0),
                0 <= mx <= *done,
                *old(done) <= *done,
                *ok ==> *old(ok),
                *ok ==> (forall|t: int| 0 <= t < k ==> iv(levels@)[#[trigger] cs@[t] as int] >= 0)
                    && mx == max_over(iv(levels@), cs@.take(k as int)),
            decreases cs.len() - k,
        {
            let c = cs[k];
            assert(c < adj.len());
            let ghost lb = iv(levels@);
            let ghost vb = visiting@;
            let ghost okb = *ok;
            proof {
                let np = gpath.push(c as int);
                assert(is_edge_at(g, idx as int, c as int, k as int));
                assert forall|j: int| 0 <= j < np.len() - 1 implies #[trigger] step_ok(g, np, j) by {
                    if j < gpath.len() - 1 {
                        assert(step_ok(g, gpath, j));
                    }
                }
                assert(count_eq(visiting@, 0) < count_eq(old(visiting)@, 0));
            }
            let v = calc_level(adj, has_deps, c, levels, visiting, done, ok, Ghost(gpath));
            proof {
                lemma_white_mono(vb, visiting@);
                assert(gpath[gpath.len() - 1] == idx as int);
                assert(lv_mono(l0, iv(levels@), v0, visiting@)) by {
                    assert forall|x: int| 0 <= x < l0.len() && l0[x] >= 0 implies #[trigger] iv(levels@)[x]
                        == l0[x] by {
                        assert(lb[x] == l0[x]);
                    }
                    assert forall|x: int| 0 <= x < v0.len() && v0[x] == 1 implies #[trigger] visiting@[x]
                        == 1 by {
                        assert(vb[x] == 1);
                    }
                }
                if *ok {
                    assert(okb);
                    assert forall|t: int| 0 <= t < k + 1 implies iv(levels@)[#[trigger] cs@[t] as int] >= 0 by {
                        if t < k {
                            assert(lb[cs@[t] as int] >= 0);
                        }
                    }
                    lemma_max_over_same(lb, iv(levels@), cs@.take(k as int));
                    assert(cs@.take(k + 1).drop_last() =~= cs@.take(k as int));
                }
            }
            if v > mx {
                mx = v;
            }
            k = k + 1;
        }
        assert(cs@.take(k as int) =~= cs@);
    }
    assert((iv(levels@), mx as int) == visit_deps(g, has_deps@, l0, gpath, idx as int, g[idx as int].len()));
    proof {
        lemma_count_set_le(iv(levels@));
    }
    let level: i128 = if has_deps[idx] {
        mx + 1
    } else {
        0
    };
    let ghost lb = iv(levels@);
    assert(on_path(lb, visiting@, gpath));
    proof {
        lemma_count_set_lt(iv(levels@), idx as int);
        lemma_count_set_update(iv(levels@), idx as int, level as int);
        lemma_max_over_nonneg(iv(levels@), g[idx as int]);
    }
    levels.set(idx, level);
    *done = *done + 1;
    assert(iv(levels@) =~= lb.update(idx as int, level as int));
    proof {
        assert forall|x: int| 0 <= x < l0.len() && l0[x] >= 0 implies #[trigger] iv(levels@)[x] == l0[x] by {
            assert(lb[x] == l0[x]);
        }
        if *ok {
            assert forall|x: int|
                0 <= x < g.len() && #[trigger] iv(levels@)[x] >= 0 implies (forall|k: int|
                0 <= k < g[x].len() ==> iv(levels@)[#[trigger] g[x][k] as int] >= 0) && iv(levels@)[x]
                == if !has_deps@[x] {
                0
            } else {
                1 + max_over(iv(levels@), g[x])
            } by {
                if x == idx as int {
                    if has_deps@[x] {
                        assert forall|t: int| 0 <= t < g[x].len() implies lb[#[trigger] g[x][t] as int]
                            == iv(levels@)[g[x][t] as int] by {
                            assert(lb[g[x][t] as int] >= 0);
                        }
                        lemma_max_over_same(lb, iv(levels@), g[x]);
                    }
                } else {
                    assert(lb[x] >= 0);
                    assert forall|t: int| 0 <= t < g[x].len() implies lb[#[trigger] g[x][t] as int]
                        == iv(levels@)[g[x][t] as int] by {
                        assert(lb[g[x][t] as int] >= 0);
                    }
                    lemma_max_over_same(lb, iv(levels@), g[x]);
                }
            }
        }
        assert(on_path(iv(levels@), visiting@, path)) by {
            assert forall|x: int| 0 <= x < iv(levels@).len() implies ((visiting@[x] == 1 && iv(levels@)[x]
                < 0) <==> path.contains(x)) by {
                assert((visiting@[x] == 1 && lb[x] < 0) <==> gpath.contains(x));
                if x != idx as int {
                    assert(iv(levels@)[x] == lb[x]);
                }
                if path.contains(x) {
                    let k = choose|k: int| 0 <= k < path.len() && path[k] == x;
                    assert(gpath[k] == x);
                    if x == idx as int {
                        assert(v0[idx as int] == 0);
                    }
                }
                if x != idx as int && lb[x] < 0 && visiting@[x] == 1 {
                    assert(gpath.contains(x));
                    let k = choose|k: int| 0 <= k < gpath.len() && gpath[k] == x;
                    assert(k != path.len());
                    assert(path[k] == x);
                }
            }
        }
    }
    level
}

/// `c` is the `k`-th successor of `u`.
spec fn is_edge_at(g: Seq<Seq<usize>>, u: int, c: int, k: int) -> bool {
    0 <= u < g.len() && 0 <= k < g[u].len() && g[u][k] as int == c
}


pub open spec fn max_level(l: Seq<int>) -> int
    decreases l.len(),
{
    if l.len() == 0 {
        0
    } else {
        let m = max_level(l.drop_last());
        if l.last() > m {
            l.last() as int
        } else {
            m
        }
    }
}

/// How many stages sit at level `v`.
pub open spec fn count_level(l: Seq<int>, v: int) -> nat
    decreases l.len(),
{
    if l.len() == 0 {
        0
    } else {
        count_level(l.drop_last(), v) + if l.last() == v {
            1nat
        } else {
            0nat
        }
    }
}

/// The most stages at one level among levels `0..=m`.
pub open spec fn max_count(l: Seq<int>, m: nat) -> nat
    decreases m,
{
    let b = count_level(l, m as int);
    if m == 0 {
        b
    } else {
        let a = max_count(l, (m - 1) as nat);
        if b > a {
            b
        } else {
            a
        }
    }
}

pub open spec fn total_height(l: Seq<int>) -> int {
    40 * 2 + (max_count(l, max_level(l) as nat) - 1) * (60 + 50) + 60
}

/// Top of the first stage of level `v`, which centres the level vertically.
pub open spec fn start_y(l: Seq<int>, v: int) -> int {
    (total_height(l) - ((count_level(l, v) - 1) * (60 + 50) + 60)) / 2
}

pub open spec fn pos_x(l: Seq<int>, i: int) -> int {
    40 + l[i] * (140 + 100)
}

/// Stages of one level are stacked in the order in which they are listed.
pub open spec fn pos_y(l: Seq<int>, i: int) -> int {
    start_y(l, l[i] as int) + count_level(l.take(i), l[i] as int) * (60 + 50)
}

pub open spec fn layout_width(l: Seq<int>) -> int {
    let m = max_level(l);
    let w = 40 * 2 + (m + 1) * 140 + m * 100;
    if w > 200 {
        w
    } else {
        200
    }
}

pub open spec fn layout_height(l: Seq<int>) -> int {
    let h = total_height(l);
    if h > 160 {
        h
    } else {
        160
    }
}

/// How often `j` occurs in `cs`.
pub open spec fn occ(cs: Seq<usize>, j: int) -> nat
    decreases cs.len(),
{
    if cs.len() == 0 {
        0
    } else {
        occ(cs.drop_last(), j) + if cs.last() as int == j {
            1nat
        } else {
            0nat
        }
    }
}

/// How many dependency arrows leave stage `j`.
pub open spec fn out_count(g: Seq<Seq<usize>>, j: int) -> nat
    decreases g.len(),
{
    if g.len() == 0 {
        0
    } else {
        out_count(g.drop_last(), j) + occ(g.last(), j)
    }
}

pub struct DagEdgeView {
    pub from_x: int,
    pub from_y: int,
    pub to_x: int,
    pub to_y: int,
    pub from_status: Seq<char>,
    pub from_name: Seq<char>,
    pub to_name: Seq<char>,
    pub control_offset: int,
}

pub open spec fn edge_view(e: DagEdge) -> DagEdgeView {
    DagEdgeView {
        from_x: e.from_x as int,
        from_y: e.from_y as int,
        to_x: e.to_x as int,
        to_y: e.to_y as int,
        from_status: e.from_status@,
        from_name: e.from_name@,
        to_name: e.to_name@,
        control_offset: e.control_offset as int,
    }
}

/// The arrow for the `k`-th dependency of stage `i`, which names stage `j`,
/// before its control offset is set.
pub open spec fn edge_for(s: Seq<StageView>, l: Seq<int>, i: int, k: int, j: int) -> DagEdgeView {
    DagEdgeView {
        from_x: pos_x(l, j) + 140,
        from_y: pos_y(l, j) + 60int / 2,
        to_x: pos_x(l, i),
        to_y: pos_y(l, i) + 60int / 2,
        from_status: s[j].status@,
        from_name: s[j].name@,
        to_name: s[i].name@,
        control_offset: 0,
    }
}

/// How many of the arrows `es` leave a stage called `name`.
pub open spec fn count_from(es: Seq<DagEdgeView>, name: Seq<char>) -> nat
    decreases es.len(),
{
    if es.len() == 0 {
        0
    } else {
        count_from(es.drop_last(), name) + if es.last().from_name == name {
            1nat
        } else {
            0nat
        }
    }
}

/// How many arrows leave the stage that the name `name` stands for.
pub open spec fn out_of(s: Seq<StageView>, name: Seq<char>) -> int {
    match last_index(stage_names(s), name) {
        Some(j) => out_count(dep_graph(s), j) as int,
        None => 0,
    }
}

/// The arrows with their control offsets set: an arrow's offset is its rank
/// among the arrows leaving the same stage, less half their number, times
/// 20, so that the arrows leaving one stage are spread apart.
pub open spec fn spread(s: Seq<StageView>, es: Seq<DagEdgeView>) -> Seq<DagEdgeView> {
    Seq::new(
        es.len(),
        |p: int|
            DagEdgeView {
                control_offset: (count_from(es.take(p), es[p].from_name) - out_of(s, es[p].from_name) / 2) * 20,
                ..es[p]
            },
    )
}

proof fn lemma_count_from_prefix(es: Seq<DagEdgeView>, a: int, b: int, name: Seq<char>)
    requires
        0 <= a <= b <= es.len(),
    ensures
        count_from(es.take(a), name) <= count_from(es.take(b), name),
    decreases b - a,
{
    if a < b {
        lemma_count_from_prefix(es, a, b - 1, name);
        assert(es.take(b).drop_last() =~= es.take(b - 1));
    }
}

proof fn lemma_count_from_len(es: Seq<DagEdgeView>, name: Seq<char>)
    ensures
        count_from(es, name) <= es.len(),
    decreases es.len(),
{
    if es.len() > 0 {
        lemma_count_from_len(es.drop_last(), name);
    }
}

/// Arrows that leave the same stage get different control offsets.
pub proof fn lemma_offsets_spread(s: Seq<StageView>, es: Seq<DagEdgeView>, p: int, q: int)
    requires
        0 <= p < q < es.len(),
        es[p].from_name == es[q].from_name,
    ensures
        spread(s, es)[p].control_offset != spread(s, es)[q].control_offset,
{
    let n = es[p].from_name;
    lemma_count_from_prefix(es, p + 1, q, n);
    assert(es.take(p + 1).drop_last() =~= es.take(p));
    assert(es.take(p + 1).last() == es[p]);
}

/// The arrows for the first `k` dependencies of stage `i` that name a stage.
pub open spec fn edges_of(s: Seq<StageView>, l: Seq<int>, i: int, k: nat) -> Seq<DagEdgeView>
    decreases k,
{
    if k == 0 {
        Seq::empty()
    } else {
        let rest = edges_of(s, l, i, (k - 1) as nat);
        match last_index(stage_names(s), stage_deps(s, i)[k - 1]) {
            Some(j) => rest.push(edge_for(s, l, i, k - 1, j)),
            None => rest,
        }
    }
}

/// The arrows of the first `i` stages, stage by stage.
pub open spec fn all_edges(s: Seq<StageView>, l: Seq<int>, i: nat) -> Seq<DagEdgeView>
    decreases i,
{
    if i == 0 {
        Seq::empty()
    } else {
        all_edges(s, l, (i - 1) as nat) + edges_of(s, l, i - 1, stage_deps(s, i - 1).len())
    }
}

/// `a` is the start of `b`.
pub open spec fn starts(a: Seq<DagEdgeView>, b: Seq<DagEdgeView>) -> bool {
    a.len() <= b.len() && b.take(a.len() as int) == a
}

proof fn lemma_edges_of_starts(s: Seq<StageView>, l: Seq<int>, i: int, k: nat, k2: nat)
    requires
        k <= k2,
    ensures
        starts(edges_of(s, l, i, k), edges_of(s, l, i, k2)),
    decreases k2,
{
    let a = edges_of(s, l, i, k);
    if k < k2 {
        lemma_edges_of_starts(s, l, i, k, (k2 - 1) as nat);
        let rest = edges_of(s, l, i, (k2 - 1) as nat);
        match last_index(stage_names(s), stage_deps(s, i)[k2 - 1]) {
            Some(j) => {
                assert(rest.push(edge_for(s, l, i, k2 - 1, j)).take(a.len() as int) =~= rest.take(
                    a.len() as int,
                ));
            },
            None => {},
        }
    } else {
        assert(a.take(a.len() as int) =~= a);
    }
}

proof fn lemma_all_edges_starts(s: Seq<StageView>, l: Seq<int>, a: nat, b: nat)
    requires
        a <= b,
    ensures
        starts(all_edges(s, l, a), all_edges(s, l, b)),
    decreases b,
{
    let x = all_edges(s, l, a);
    if a < b {
        lemma_all_edges_starts(s, l, a, (b - 1) as nat);
        let rest = all_edges(s, l, (b - 1) as nat);
        let more = edges_of(s, l, b - 1, stage_deps(s, b - 1).len());
        assert((rest + more).take(x.len() as int) =~= rest.take(x.len() as int));
    } else {
        assert(x.take(x.len() as int) =~= x);
    }
}

/// The arrows drawn while stage `i` is at its `k`-th dependency are the
/// start of all the arrows.
proof fn lemma_partial_edges_start(s: Seq<StageView>, l: Seq<int>, i: nat, k: nat)
    requires
        i < s.len(),
        k <= stage_deps(s, i as int).len(),
    ensures
        starts(all_edges(s, l, i) + edges_of(s, l, i as int, k), all_edges(s, l, s.len() as nat)),
{
    let a = all_edges(s, l, i);
    let b = edges_of(s, l, i as int, k);
    let b2 = edges_of(s, l, i as int, stage_deps(s, i as int).len());
    lemma_edges_of_starts(s, l, i as int, k, stage_deps(s, i as int).len());
    assert((a + b2).take((a + b).len() as int) =~= a + b);
    assert(all_edges(s, l, i + 1) == a + b2);
    lemma_all_edges_starts(s, l, i + 1, s.len() as nat);
    let full = all_edges(s, l, s.len() as nat);
    assert(full.take((a + b).len() as int) =~= (a + b2).take((a + b).len() as int));
}

/// Offsets depend only on the arrows drawn before.
proof fn lemma_spread_start(s: Seq<StageView>, es: Seq<DagEdgeView>, m: int, p: int)
    requires
        0 <= p < m <= es.len(),
    ensures
        spread(s, es.take(m))[p] == spread(s, es)[p],
{
    assert(es.take(m).take(p) =~= es.take(p));
}

/// Counting the arrows that leave a stage, one more arrow at a time.
proof fn lemma_count_from_push(es: Seq<DagEdgeView>, x: DagEdgeView, name: Seq<char>)
    ensures
        count_from(es.push(x), name) == count_from(es, name) + if x.from_name == name {
            1int
        } else {
            0int
        },
{
    assert(es.push(x).drop_last() =~= es);
}

/// The levels a layout was drawn from: set, at most the number of stages,
/// and, where the dependencies have no cycle, obeying the level equation.
pub open spec fn levels_ok(s: Seq<StageView>, l: Seq<int>) -> bool {
    &&& l.len() == s.len()
    &&& forall|i: int| 0 <= i < s.len() ==> 0 <= #[trigger] l[i] <= s.len()
    &&& !has_cycle(dep_graph(s)) ==> forall|i: int| 0 <= i < s.len() ==> #[trigger] level_eq(s, l, i)
}

/// The stages after layout: as before, with their drawing positions set.
pub open spec fn placed(s: Seq<StageView>, l: Seq<int>, s2: Seq<StageView>) -> bool {
    &&& s2.len() == s.len()
    &&& forall|i: int|
        0 <= i < s.len() ==> {
            let a = #[trigger] s2[i];
            let b = s[i];
            &&& a.name@ == b.name@
            &&& a.status@ == b.status@
            &&& a.duration@ == b.duration@
            &&& strings_view(a.dependencies@) == strings_view(b.dependencies@)
            &&& a.column == b.column
            &&& a.row == b.row
            &&& a.x == pos_x(l, i)
            &&& a.y == pos_y(l, i)
        }
}


proof fn lemma_known_deps_len(names: Seq<Seq<char>>, ds: Seq<Seq<char>>)
    ensures
        known_deps(names, ds).len() <= ds.len(),
    decreases ds.len(),
{
    if ds.len() > 0 {
        lemma_known_deps_len(names, ds.drop_last());
    }
}

/// The successor lists and the "has dependencies" flags of the stages.
fn build_graph(stages: &Vec<StageView>) -> (r: (Vec<Vec<usize>>, Vec<bool>))
    ensures
        r.0.len() == stages.len(),
        r.1.len() == stages.len(),
        adj_view(r.0@) == dep_graph(stages@),
        r.1@ == deps_flags(stages@),
{
    let ghost names = stage_names(stages@);
    let mut adj: Vec<Vec<usize>> = Vec::new();
    let mut hd: Vec<bool> = Vec::new();
    let mut i: usize = 0;
    while i < stages.len()
        invariant
            i <= stages.len(),
            names == stage_names(stages@),
            adj.len() == i,
            hd.len() == i,
            forall|t: int| 0 <= t < i ==> (#[trigger] adj@[t])@ == known_deps(names, stage_deps(stages@, t)),
            forall|t: int| 0 <= t < i ==> hd@[t] == ((#[trigger] stages@[t]).dependencies.len() > 0),
        decreases stages.len() - i,
    {
        let deps = &stages[i].dependencies;
        let ghost ds = stage_deps(stages@, i as int);
        let mut succ: Vec<usize> = Vec::new();
        let mut k: usize = 0;
        while k < deps.len()
            invariant
                i < stages.len(),
                deps@ == stages@[i as int].dependencies@,
                ds == strings_view(deps@),
                names == stage_names(stages@),
                k <= deps.len(),
                succ@ == known_deps(names, ds.take(k as int)),
            decreases deps.len() - k,
        {
            assert(ds.take(k + 1).drop_last() =~= ds.take(k as int));
            if let Some(j) = index_by_name(stages, deps[k].as_str()) {
                succ.push(j);
            }
            k = k + 1;
        }
        assert(ds.take(k as int) =~= ds);
        proof {
            lemma_known_deps_len(names, ds);
        }
        adj.push(succ);
        hd.push(deps.len() > 0);
        i = i + 1;
    }
    assert(adj_view(adj@) =~= dep_graph(stages@));
    assert(hd@ =~= deps_flags(stages@));
    (adj, hd)
}

/// The level of every stage.
fn compute_levels(adj: &Vec<Vec<usize>>, has_deps: &Vec<bool>) -> (l: Vec<i128>)
    requires
        wf_graph(adj_view(adj@)),
        has_deps.len() == adj.len(),
        forall|x: int| 0 <= x < adj.len() && !has_deps@[x] ==> (#[trigger] adj@[x])@.len() == 0,
    ensures
        l.len() == adj.len(),
        iv(l@) == levels_from(adj_view(adj@), has_deps@, adj.len() as nat),
        forall|i: int| 0 <= i < adj.len() ==> 0 <= #[trigger] iv(l@)[i] <= adj.len(),
        !has_cycle(adj_view(adj@)) ==> forall|x: int|
            0 <= x < adj.len() ==> #[trigger] iv(l@)[x] == if !has_deps@[x] {
                0
            } else {
                1 + max_over(iv(l@), adj_view(adj@)[x])
            },
{
    let ghost g = adj_view(adj@);
    let n = adj.len();
    let mut levels: Vec<i128> = Vec::new();
    let mut j: usize = 0;
    while j < n
        invariant
            j <= n,
            n == adj.len(),
            levels.len() == j,
            forall|x: int| 0 <= x < j ==> levels@[x] == -1,
        decreases n - j,
    {
        levels.push(-1);
        j = j + 1;
    }
    proof {
        assert(iv(levels@) =~= levels_from(g, has_deps@, 0));
        lemma_count_set_none(iv(levels@));
    }
    let mut done: usize = 0;
    let mut ok = true;
    let mut i: usize = 0;
    while i < n
        invariant
            g == adj_view(adj@),
            n == adj.len(),
            i <= n,
            lv_inv(g, has_deps@, iv(levels@), Seq::new(n as nat, |x: int| 0u8), done as int, ok),
            iv(levels@) == levels_from(g, has_deps@, i as nat),
            forall|t: int| 0 <= t < i ==> #[trigger] iv(levels@)[t] >= 0,
        decreases n - i,
    {
        let mut visiting: Vec<u8> = Vec::new();
        let mut t: usize = 0;
        while t < n
            invariant
                t <= n,
                visiting.len() == t,
                forall|x: int| 0 <= x < t ==> visiting@[x] == 0,
            decreases n - t,
        {
            visiting.push(0);
            t = t + 1;
        }
        assert(visiting@ =~= Seq::new(n as nat, |x: int| 0u8));
        let ghost lb = iv(levels@);
        let _ = calc_level(adj, has_deps, i, &mut levels, &mut visiting, &mut done, &mut ok, Ghost(Seq::empty()));
        proof {
            assert forall|t: int| 0 <= t < i + 1 implies #[trigger] iv(levels@)[t] >= 0 by {
                if t < i {
                    assert(lb[t] >= 0);
                }
            }
        }
        i = i + 1;
    }
    proof {
        lemma_count_set_le(iv(levels@));
    }
    levels
}

proof fn lemma_count_set_none(s: Seq<int>)
    requires
        forall|x: int| 0 <= x < s.len() ==> s[x] < 0,
    ensures
        count_set(s) == 0,
    decreases s.len(),
{
    if s.len() > 0 {
        lemma_count_set_none(s.drop_last());
    }
}


proof fn lemma_max_level(l: Seq<int>, b: int)
    requires
        forall|i: int| 0 <= i < l.len() ==> 0 <= #[trigger] l[i] <= b,
    ensures
        0 <= max_level(l),
        max_level(l) <= b || l.len() == 0,
        forall|i: int| 0 <= i < l.len() ==> #[trigger] l[i] <= max_level(l),
    decreases l.len(),
{
    if l.len() > 0 {
        lemma_max_level(l.drop_last(), b);
        assert(forall|i: int| 0 <= i < l.len() - 1 ==> l.drop_last()[i] == l[i]);
    }
}

proof fn lemma_count_level_le(l: Seq<int>, v: int)
    ensures
        count_level(l, v) <= l.len(),
    decreases l.len(),
{
    if l.len() > 0 {
        lemma_count_level_le(l.drop_last(), v);
    }
}

proof fn lemma_max_count(l: Seq<int>, m: nat, v: int)
    requires
        0 <= v <= m,
    ensures
        count_level(l, v) <= max_count(l, m),
        max_count(l, m) <= l.len(),
    decreases m,
{
    lemma_count_level_le(l, m as int);
    if m > 0 {
        if v < m {
            lemma_max_count(l, (m - 1) as nat, v);
        } else {
            lemma_max_count(l, (m - 1) as nat, 0);
        }
    }
}

proof fn lemma_count_level_prefix(l: Seq<int>, a: int, v: int)
    requires
        0 <= a <= l.len(),
    ensures
        count_level(l.take(a), v) <= count_level(l, v),
    decreases l.len(),
{
    if a == l.len() {
        assert(l.take(a) =~= l);
    } else {
        assert(l.take(a) =~= l.drop_last().take(a));
        lemma_count_level_prefix(l.drop_last(), a, v);
    }
}

proof fn lemma_occ_prefix(cs: Seq<usize>, a: int, j: int)
    requires
        0 <= a <= cs.len(),
    ensures
        occ(cs.take(a), j) <= occ(cs, j),
    decreases cs.len(),
{
    if a == cs.len() {
        assert(cs.take(a) =~= cs);
    } else {
        assert(cs.take(a) =~= cs.drop_last().take(a));
        lemma_occ_prefix(cs.drop_last(), a, j);
    }
}

proof fn lemma_out_count_prefix(g: Seq<Seq<usize>>, i: int, j: int)
    requires
        0 <= i <= g.len(),
    ensures
        out_count(g.take(i), j) <= out_count(g, j),
    decreases g.len(),
{
    if i == g.len() {
        assert(g.take(i) =~= g);
    } else {
        assert(g.take(i) =~= g.drop_last().take(i));
        lemma_out_count_prefix(g.drop_last(), i, j);
    }
}

/// The inputs whose drawing the `i32` arithmetic can hold: the width and
/// the height of the drawing fit, every control offset fits, and the
/// arrows leaving one stage can be counted (they are a list in memory).
pub open spec fn dag_fits(s: Seq<StageView>) -> bool {
    &&& s.len() > 0 ==> 80 + (max_level(layout_levels(s)) + 1) * 140 + max_level(layout_levels(s)) * 100
        <= i32::MAX
    &&& s.len() > 0 ==> total_height(layout_levels(s)) <= i32::MAX
    &&& forall|j: int| 0 <= j < s.len() ==> #[trigger] out_count(dep_graph(s), j) <= usize::MAX
    &&& forall|p: int|
        0 <= p < all_edges(s, layout_levels(s), s.len() as nat).len() ==> i32::MIN <= #[trigger] spread(
            s,
            all_edges(s, layout_levels(s), s.len() as nat),
        )[p].control_offset <= i32::MAX
}

/// Lays the stages out as a left-to-right graph: each stage goes to the
/// column of its level (one right of its deepest dependency, found depth
/// first in list order, a dependency met again on the current path counting
/// as level 0), stages of a level are stacked in list order and centred
/// vertically, and one arrow is drawn per dependency that names a stage;
/// the arrows leaving one stage are spread apart by their control offsets.
/// Returns the arrows and the width and height of the drawing; an empty
/// list gives no arrows and a 200 by 120 drawing. The inputs are those
/// whose drawing fits the `i32` arithmetic.
pub fn compute_dag_layout(stages: &mut Vec<StageView>) -> (r: (Vec<DagEdge>, i32, i32))
    requires
        dag_fits(old(stages)@),
    ensures
        old(stages).len() == 0 ==> r.0.len() == 0 && r.1 == 200 && r.2 == 120 && final(stages)@
            == old(stages)@,
        old(stages).len() > 0 ==> levels_ok(old(stages)@, layout_levels(old(stages)@)),
        old(stages).len() > 0 ==> placed(old(stages)@, layout_levels(old(stages)@), final(stages)@),
        old(stages).len() > 0 ==> r.0@.map_values(|e: DagEdge| edge_view(e)) == spread(
            old(stages)@,
            all_edges(old(stages)@, layout_levels(old(stages)@), old(stages).len() as nat),
        ),
        forall|p: int, q: int|
            0 <= p < q < r.0.len() && r.0@[p].from_name@ == r.0@[q].from_name@ ==> #[trigger] r.0@[p].control_offset
                != #[trigger] r.0@[q].control_offset,
        old(stages).len() > 0 ==> r.1 == layout_width(layout_levels(old(stages)@)),
        old(stages).len() > 0 ==> r.2 == layout_height(layout_levels(old(stages)@)),
{
    let n = stages.len();
    if n == 0 {
        return (Vec::new(), 200, 120);
    }
    let ghost s0 = stages@;
    let ghost names = stage_names(s0);
    let (adj, has_deps) = build_graph(stages);
    let ghost g = adj_view(adj@);
    proof {
        assert forall|u: int, k: int| 0 <= u < g.len() && 0 <= k < g[u].len() implies g[u][k] < g.len() by {
            lemma_known_deps_range(names, stage_deps(s0, u));
            assert(g[u] == known_deps(names, stage_deps(s0, u)));
        }
        assert(wf_graph(g));
        assert forall|x: int| 0 <= x < adj.len() && !has_deps@[x] implies (#[trigger] adj@[x])@.len() == 0 by {
            assert(g[x] == known_deps(names, stage_deps(s0, x)));
            assert(stage_deps(s0, x).len() == 0);
        }
    }
    let levels = compute_levels(&adj, &has_deps);
    let ghost l = iv(levels@);
    proof {
        assert(l == layout_levels(s0));
        lemma_max_level(l, n as int);
    }
    // deepest level
    let mut maxl: i128 = 0;
    let mut i: usize = 0;
    while i < n
        invariant
            n == levels.len(),
            l == iv(levels@),
            i <= n,
            maxl == max_level(l.take(i as int)),
            forall|t: int| 0 <= t < n ==> 0 <= #[trigger] l[t] <= n,
        decreases n - i,
    {
        assert(l.take(i + 1).drop_last() =~= l.take(i as int));
        assert(l[i as int] == levels@[i as int]);
        if levels[i] > maxl {
            maxl = levels[i];
        }
        i = i + 1;
    }
    assert(l.take(n as int) =~= l);
    assert(80 + (maxl + 1) * 140 + maxl * 100 <= i32::MAX);
    let nl: usize = (maxl + 1) as usize;
    // stages per level
    let mut counts: Vec<usize> = Vec::new();
    let mut t: usize = 0;
    while t < nl
        invariant
            t <= nl,
            counts.len() == t,
            forall|v: int| 0 <= v < t ==> counts@[v] == 0,
        decreases nl - t,
    {
        counts.push(0);
        t = t + 1;
    }
    let mut i: usize = 0;
    while i < n
        invariant
            n == levels.len(),
            l == iv(levels@),
            i <= n,
            nl == maxl + 1,
            maxl == max_level(l),
            forall|t: int| 0 <= t < n ==> 0 <= #[trigger] l[t] <= maxl,
            counts.len() == nl,
            forall|v: int| 0 <= v < nl ==> #[trigger] counts@[v] == count_level(l.take(i as int), v),
            forall|v: int| 0 <= v < nl ==> #[trigger] counts@[v] <= i,
        decreases n - i,
    {
        assert(l.take(i + 1).drop_last() =~= l.take(i as int));
        assert(l[i as int] == levels@[i as int]);
        let lv = levels[i] as usize;
        counts.set(lv, counts[lv] + 1);
        i = i + 1;
    }
    assert(l.take(n as int) =~= l);
    // most stages at one level
    let mut mc: usize = counts[0];
    let mut v: usize = 1;
    while v < nl
        invariant
            1 <= v <= nl,
            counts.len() == nl,
            forall|w: int| 0 <= w < nl ==> #[trigger] counts@[w] == count_level(l, w),
            mc == max_count(l, (v - 1) as nat),
        decreases nl - v,
    {
        if counts[v] > mc {
            mc = counts[v];
        }
        v = v + 1;
    }
    proof {
        lemma_max_count(l, maxl as nat, 0);
        lemma_max_count(l, maxl as nat, l[0]);
        lemma_count_level_prefix(l, 1, l[0]);
        assert(count_level(l.take(1), l[0]) == 1) by {
            assert(l.take(1).drop_last() =~= Seq::<int>::empty());
            assert(count_level(Seq::<int>::empty(), l[0]) == 0);
            assert(l.take(1).last() == l[0]);
        }
        assert(mc >= 1);
        assert(total_height(l) <= i32::MAX);
        assert(mc == max_count(l, max_level(l) as nat));
        assert(total_height(l) == 80 + (mc - 1) * 110 + 60);
        assert(mc <= i32::MAX) by (nonlinear_arith)
            requires
                80 + (mc - 1) * 110 + 60 <= i32::MAX,
        ;
    }
    let total: i32 = 40 * 2 + (mc as i32 - 1) * 110 + 60;
    assert(total == total_height(l));
    // positions
    let mut seen: Vec<usize> = Vec::new();
    let mut t: usize = 0;
    while t < nl
        invariant
            t <= nl,
            seen.len() == t,
            forall|w: int| 0 <= w < t ==> seen@[w] == 0,
        decreases nl - t,
    {
        seen.push(0);
        t = t + 1;
    }
    let mut xs: Vec<i32> = Vec::new();
    let mut ys: Vec<i32> = Vec::new();
    let mut i: usize = 0;
    while i < n
        invariant
            n == levels.len(),
            l == iv(levels@),
            i <= n,
            nl == maxl + 1,
            maxl == max_level(l),
            80 + (maxl + 1) * 140 + maxl * 100 <= i32::MAX,
            forall|t: int| 0 <= t < n ==> 0 <= #[trigger] l[t] <= maxl,
            counts.len() == nl,
            forall|w: int| 0 <= w < nl ==> #[trigger] counts@[w] == count_level(l, w),
            mc == max_count(l, maxl as nat),
            total == total_height(l),
            total == 80 + (mc - 1) * 110 + 60,
            seen.len() == nl,
            forall|w: int| 0 <= w < nl ==> #[trigger] seen@[w] == count_level(l.take(i as int), w),
            xs.len() == i,
            ys.len() == i,
            forall|t: int| 0 <= t < i ==> #[trigger] xs@[t] == pos_x(l, t),
            forall|t: int| 0 <= t < i ==> #[trigger] ys@[t] == pos_y(l, t),
            forall|t: int| 0 <= t < i ==> 0 <= #[trigger] xs@[t] <= 40 + maxl * 240,
            forall|t: int| 0 <= t < i ==> 0 <= #[trigger] ys@[t] && ys@[t] + 60 <= total,
        decreases n - i,
    {
        assert(l.take(i + 1).drop_last() =~= l.take(i as int));
        assert(l[i as int] == levels@[i as int]);
        let lv = levels[i];
        let lu = lv as usize;
        let rk = seen[lu];
        proof {
            lemma_max_count(l, maxl as nat, lv as int);
            lemma_count_level_prefix(l, i + 1, lv as int);
            assert(count_level(l.take(i + 1), lv as int) == rk + 1);
        }
        seen.set(lu, rk + 1);
        let x: i32 = 40 + (lv as i32) * 240;
        let cnt = counts[lu];
        assert(rk + 1 <= cnt);
        assert(cnt <= mc);
        let lh: i32 = (cnt as i32 - 1) * 110 + 60;
        assert(total - lh == 80 + (mc - cnt) * 110);
        let sy: i32 = (total - lh) / 2;
        let y: i32 = sy + (rk as i32) * 110;
        assert(y + 60 <= total);
        xs.push(x);
        ys.push(y);
        i = i + 1;
    }
    // arrows leaving each stage
    let mut out: Vec<usize> = Vec::new();
    let mut t: usize = 0;
    while t < n
        invariant
            t <= n,
            out.len() == t,
            forall|w: int| 0 <= w < t ==> out@[w] == 0,
        decreases n - t,
    {
        out.push(0);
        t = t + 1;
    }
    proof {
        assert(g == dep_graph(s0));
    }
    let mut i: usize = 0;
    while i < n
        invariant
            n == adj.len(),
            g == adj_view(adj@),
            g == dep_graph(s0),
            s0.len() == n,
            dag_fits(s0),
            wf_graph(g),
            i <= n,
            out.len() == n,
            forall|j: int| 0 <= j < n ==> #[trigger] out@[j] == out_count(g.take(i as int), j),
        decreases n - i,
    {
        let cs = &adj[i];
        let mut k: usize = 0;
        while k < cs.len()
            invariant
                n == adj.len(),
                g == adj_view(adj@),
                g == dep_graph(s0),
                s0.len() == n,
                dag_fits(s0),
                wf_graph(g),
                i < n,
                cs@ == g[i as int],
                k <= cs.len(),
                out.len() == n,
                forall|j: int| 0 <= j < n ==> #[trigger] out@[j] == out_count(g.take(i as int), j) + occ(cs@.take(k as int), j),
            decreases cs.len() - k,
        {
            assert(cs@.take(k + 1).drop_last() =~= cs@.take(k as int));
            let c = cs[k];
            proof {
                lemma_occ_prefix(cs@, k + 1, c as int);
                assert(g.take(i + 1).drop_last() =~= g.take(i as int));
                lemma_out_count_prefix(g, i + 1, c as int);
                assert(out_count(g, c as int) <= usize::MAX);
            }
            out.set(c, out[c] + 1);
            k = k + 1;
        }
        assert(cs@.take(k as int) =~= cs@);
        assert(g.take(i + 1).drop_last() =~= g.take(i as int));
        i = i + 1;
    }
    assert(g.take(n as int) =~= g);
    // arrows, each numbered among the arrows leaving its stage
    let mut rank: Vec<u128> = Vec::new();
    let mut t: usize = 0;
    while t < n
        invariant
            t <= n,
            rank.len() == t,
            forall|w: int| 0 <= w < t ==> rank@[w] == 0,
        decreases n - t,
    {
        rank.push(0);
        t = t + 1;
    }
    let mut edges: Vec<DagEdge> = Vec::new();
    let mut i: usize = 0;
    while i < n
        invariant
            n == stages.len(),
            stages@ == s0,
            names == stage_names(s0),
            g == dep_graph(s0),
            dag_fits(s0),
            l == layout_levels(s0),
            l.len() == n,
            maxl == max_level(l),
            80 + (maxl + 1) * 140 + maxl * 100 <= i32::MAX,
            total == total_height(l),
            total <= i32::MAX,
            xs.len() == n,
            ys.len() == n,
            forall|t: int| 0 <= t < n ==> #[trigger] xs@[t] == pos_x(l, t),
            forall|t: int| 0 <= t < n ==> #[trigger] ys@[t] == pos_y(l, t),
            forall|t: int| 0 <= t < n ==> 0 <= #[trigger] xs@[t] <= 40 + maxl * 240,
            forall|t: int| 0 <= t < n ==> 0 <= #[trigger] ys@[t] && ys@[t] + 60 <= total,
            out.len() == n,
            forall|j: int| 0 <= j < n ==> #[trigger] out@[j] == out_count(g, j),
            rank.len() == n,
            forall|j: int|
                0 <= j < n && last_index(names, names[j]) == Some(j) ==> #[trigger] rank@[j]
                    == count_from(all_edges(s0, l, i as nat), names[j]),
            i <= n,
            edges@.map_values(|e: DagEdge| edge_view(e)) == spread(s0, all_edges(s0, l, i as nat)),
        decreases n - i,
    {
        let deps = &stages[i].dependencies;
        let ghost ds = stage_deps(s0, i as int);
        let mut k: usize = 0;
        while k < deps.len()
            invariant
                n == stages.len(),
                stages@ == s0,
                names == stage_names(s0),
                g == dep_graph(s0),
                dag_fits(s0),
                l == layout_levels(s0),
                i < n,
                deps@ == s0[i as int].dependencies@,
                ds == strings_view(deps@),
                ds == stage_deps(s0, i as int),
                l.len() == n,
                maxl == max_level(l),
                80 + (maxl + 1) * 140 + maxl * 100 <= i32::MAX,
                total <= i32::MAX,
                xs.len() == n,
                ys.len() == n,
                forall|t: int| 0 <= t < n ==> #[trigger] xs@[t] == pos_x(l, t),
                forall|t: int| 0 <= t < n ==> #[trigger] ys@[t] == pos_y(l, t),
                forall|t: int| 0 <= t < n ==> 0 <= #[trigger] xs@[t] <= 40 + maxl * 240,
                forall|t: int| 0 <= t < n ==> 0 <= #[trigger] ys@[t] && ys@[t] + 60 <= total,
                out.len() == n,
                forall|j: int| 0 <= j < n ==> #[trigger] out@[j] == out_count(g, j),
                rank.len() == n,
                forall|j: int|
                    0 <= j < n && last_index(names, names[j]) == Some(j) ==> #[trigger] rank@[j]
                        == count_from(all_edges(s0, l, i as nat) + edges_of(s0, l, i as int, k as nat), names[j]),
                k <= deps.len(),
                edges@.map_values(|e: DagEdge| edge_view(e)) == spread(
                    s0,
                    all_edges(s0, l, i as nat) + edges_of(s0, l, i as int, k as nat),
                ),
            decreases deps.len() - k,
        {
            let ghost es = all_edges(s0, l, i as nat) + edges_of(s0, l, i as int, k as nat);
            if let Some(j) = index_by_name(stages, deps[k].as_str()) {
                let ghost x = edge_for(s0, l, i as int, k as int, j as int);
                let ghost es2 = es.push(x);
                let ghost full = all_edges(s0, l, n as nat);
                let ghost nm = names[j as int];
                let m = edges.len();
                proof {
                    lemma_last_index(names, ds[k as int]);
                    assert(nm == ds[k as int]);
                    assert(x.from_name == nm);
                    assert(edges_of(s0, l, i as int, (k + 1) as nat) == edges_of(s0, l, i as int, k as nat).push(x));
                    assert(all_edges(s0, l, i as nat) + edges_of(s0, l, i as int, (k + 1) as nat) =~= es2);
                    lemma_partial_edges_start(s0, l, i as nat, (k + 1) as nat);
                    lemma_spread_start(s0, full, es2.len() as int, es.len() as int);
                    assert(full.take(es2.len() as int) == es2);
                    assert(edges@.map_values(|e: DagEdge| edge_view(e)).len() == edges@.len());
                    assert(spread(s0, es).len() == es.len());
                    assert(es.len() == m);
                    assert(i32::MIN <= spread(s0, full)[es.len() as int].control_offset <= i32::MAX);
                    assert(es2.take(es.len() as int) =~= es);
                    assert(out_of(s0, nm) == out_count(g, j as int));
                    lemma_count_from_len(es, nm);
                }
                let rk = rank[j];
                let o = out[j];
                let wide: i128 = (rk as i128 - (o / 2) as i128) * 20;
                assert(wide == spread(s0, es2)[es.len() as int].control_offset);
                let co: i32 = wide as i32;
                rank.set(j, rk + 1);
                let e = DagEdge {
                    from_x: xs[j] + 140,
                    from_y: ys[j] + 60 / 2,
                    to_x: xs[i],
                    to_y: ys[i] + 60 / 2,
                    from_status: stages[j].status.clone(),
                    from_name: stages[j].name.clone(),
                    to_name: stages[i].name.clone(),
                    control_offset: co,
                };
                let ghost before = edges@;
                edges.push(e);
                proof {
                    assert(edge_view(e) == spread(s0, es2)[es.len() as int]);
                    assert forall|p: int| 0 <= p < es.len() implies spread(s0, es2)[p] == spread(s0, es)[p] by {
                        lemma_spread_start(s0, es2, es.len() as int, p);
                    }
                    assert(edges@.map_values(|e: DagEdge| edge_view(e)) =~= spread(s0, es2));
                    assert forall|j2: int|
                        0 <= j2 < n && last_index(names, names[j2]) == Some(j2) implies #[trigger] rank@[j2]
                            == count_from(es2, names[j2]) by {
                        lemma_count_from_push(es, x, names[j2]);
                        if names[j2] == nm {
                            assert(j2 == j);
                        }
                    }
                }
            } else {
                proof {
                    assert(edges_of(s0, l, i as int, (k + 1) as nat) == edges_of(s0, l, i as int, k as nat));
                }
            }
            k = k + 1;
        }
        assert(all_edges(s0, l, (i + 1) as nat) == all_edges(s0, l, i as nat) + edges_of(
            s0,
            l,
            i as int,
            ds.len(),
        ));
        i = i + 1;
    }
    let width: i32 = 40 * 2 + (maxl as i32 + 1) * 140 + (maxl as i32) * 100;
    let width = if width > 200 {
        width
    } else {
        200
    };
    let height = if total > 160 {
        total
    } else {
        160
    };
    // drawing positions
    let mut tmp: Vec<StageView> = Vec::new();
    while stages.len() > 0
        invariant
            s0.len() == n,
            stages.len() + tmp.len() == n,
            forall|t: int| 0 <= t < stages.len() ==> #[trigger] stages@[t] == s0[t],
            forall|t: int| 0 <= t < tmp.len() ==> #[trigger] tmp@[t] == s0[n - 1 - t],
        decreases stages.len(),
    {
        let st = stages.pop().unwrap();
        tmp.push(st);
    }
    let mut i: usize = 0;
    while i < n
        invariant
            i <= n,
            stages.len() == i,
            tmp.len() == n - i,
            xs.len() == n,
            ys.len() == n,
            forall|t: int| 0 <= t < n ==> #[trigger] xs@[t] == pos_x(l, t),
            forall|t: int| 0 <= t < n ==> #[trigger] ys@[t] == pos_y(l, t),
            forall|t: int| 0 <= t < tmp.len() ==> #[trigger] tmp@[t] == s0[n - 1 - t],
            s0.len() == n,
            l.len() == n,
            forall|t: int|
                0 <= t < i ==> {
                    let a = #[trigger] stages@[t];
                    let b = s0[t];
                    &&& a.name == b.name
                    &&& a.status == b.status
                    &&& a.duration == b.duration
                    &&& a.dependencies == b.dependencies
                    &&& a.column == b.column
                    &&& a.row == b.row
                    &&& a.x == pos_x(l, t)
                    &&& a.y == pos_y(l, t)
                },
        decreases n - i,
    {
        let mut st = tmp.pop().unwrap();
        st.x = xs[i];
        st.y = ys[i];
        stages.push(st);
        i = i + 1;
    }
    proof {
        assert(levels_ok(s0, l)) by {
            if !has_cycle(dep_graph(s0)) {
                assert forall|x: int| 0 <= x < n implies #[trigger] level_eq(s0, l, x) by {
                    assert(l[x] == if !has_deps@[x] {
                        0
                    } else {
                        1 + max_over(l, g[x])
                    });
                }
            }
        }
        assert(placed(s0, l, stages@));
        let es = all_edges(s0, l, n as nat);
        assert forall|p: int, q: int|
            0 <= p < q < edges.len() && edges@[p].from_name@ == edges@[q].from_name@ implies #[trigger] edges@[p].control_offset
                != #[trigger] edges@[q].control_offset by {
            assert(edge_view(edges@[p]) == spread(s0, es)[p]);
            assert(edge_view(edges@[q]) == spread(s0, es)[q]);
            lemma_offsets_spread(s0, es, p, q);
        }
    }
    (edges, width, height)
}


/// The characters that `char::to_uppercase` gives for `c`.
pub uninterp spec fn char_upper(c: char) -> Seq<char>;

/// Calls `char::to_uppercase` and collects the characters it yields.
#[verifier::external_body]
fn uppercase_of(c: char) -> (r: Vec<char>)
    ensures
        r@ == char_upper(c),
{
    c.to_uppercase().collect()
}

/// `upper` followed by all but the first character of `s`.
pub fn with_first_replaced(upper: &[char], s: &str) -> (r: String)
    requires
        s@.len() > 0,
    ensures
        r@ == upper@ + s@.drop_first(),
{
    let cs = chars_of(s);
    let mut out: Vec<char> = Vec::new();
    append_chars(&mut out, upper);
    let mut i: usize = 1;
    while i < cs.len()
        invariant
            1 <= i <= cs.len(),
            cs@ == s@,
            out@ == upper@ + s@.subrange(1, i as int),
        decreases cs.len() - i,
    {
        out.push(cs[i]);
        assert(s@.subrange(1, i + 1) =~= s@.subrange(1, i as int).push(cs@[i as int]));
        i = i + 1;
    }
    assert(s@.subrange(1, i as int) =~= s@.drop_first());
    string_of(out.as_slice())
}

/// The text with its first character in upper case.
pub fn capitalize_first(s: &str) -> (r: String)
    ensures
        r@ == if s@.len() == 0 {
            Seq::empty()
        } else {
            char_upper(s@[0]) + s@.drop_first()
        },
{
    let cs = chars_of(s);
    if cs.len() == 0 {
        return String::new();
    }
    let up = uppercase_of(cs[0]);
    with_first_replaced(up.as_slice(), s)
}

/// Whole seconds from `then` to `now`, rounded toward zero.
pub open spec fn secs_between(now: Timestamp, then: Timestamp) -> int {
    let d = (now.secs - then.secs) * 1_000_000_000 + (now.nanos - then.nanos);
    if d >= 0 {
        d / 1_000_000_000
    } else {
        -((-d) / 1_000_000_000)
    }
}

/// A short "how long ago" label for a number of seconds.
pub open spec fn ago_text(s: int) -> Seq<char> {
    if s < 60 {
        signed_decimal(s) + "s ago"@
    } else if s / 60 < 60 {
        decimal((s / 60) as nat) + "m ago"@
    } else if s / 3600 < 24 {
        decimal((s / 3600) as nat) + "h ago"@
    } else {
        decimal((s / 86400) as nat) + "d ago"@
    }
}

/// How long before `now` the instant `then` was, as a short label.
pub fn time_ago_label(now: Timestamp, then: Timestamp) -> (r: String)
    requires
        now.nanos < 2_000_000_000,
        then.nanos < 2_000_000_000,
    ensures
        r@ == ago_text(secs_between(now, then)),
{
    let d: i128 = (now.secs as i128 - then.secs as i128) * 1_000_000_000 + (now.nanos as i128
        - then.nanos as i128);
    let secs: i128 = if d >= 0 {
        (d as u128 / 1_000_000_000) as i128
    } else {
        -(((-d) as u128 / 1_000_000_000) as i128)
    };
    assert(secs == secs_between(now, then));
    let mut out: Vec<char>;
    if secs < 60 {
        out = fmt_i128(secs);
        append_str(&mut out, "s ago");
    } else if secs / 60 < 60 {
        out = fmt_u128((secs / 60) as u128);
        append_str(&mut out, "m ago");
    } else if secs / 3600 < 24 {
        out = fmt_u128((secs / 3600) as u128);
        append_str(&mut out, "h ago");
    } else {
        out = fmt_u128((secs / 86400) as u128);
        append_str(&mut out, "d ago");
    }
    string_of(out.as_slice())
}

/// How long ago `then` was, measured from the current time.
pub fn format_time_ago(then: Timestamp) -> (r: String)
    requires
        then.nanos < 2_000_000_000,
    ensures
        exists|now: Timestamp| r@ == ago_text(secs_between(now, then)),
{
    let now = utc_now();
    time_ago_label(now, then)
}

} // verus!
