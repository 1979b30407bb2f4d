//! Dependency cycles among pipeline stages.
//!
//! A stage name stands for the last stage that carries it; the stage `a`
//! depends on `b` when `b` is among the `needs` of that stage.
use vstd::prelude::*;
use crate::graph::{adj_view, find_cycle, has_cycle, is_edge, path_ok, reaches, search_roots, step_ok, wf_graph};
use crate::pipeline::{Stage, StageView};
use crate::text::{append_str, string_of, str_eq};

verus! {

pub open spec fn stages_view(v: Seq<Stage>) -> Seq<StageView> {
    v.map_values(|s: Stage| s@)
}

/// Index of the last stage called `name`.
pub open spec fn last_named(stages: Seq<StageView>, name: Seq<char>) -> Option<int>
    decreases stages.len(),
{
    if stages.len() == 0 {
        None
    } else if stages.last().name == name {
        Some(stages.len() - 1)
    } else {
        last_named(stages.drop_last(), name)
    }
}

/// The stage called `a` lists `b` among its dependencies.
pub open spec fn depends(stages: Seq<StageView>, a: Seq<char>, b: Seq<char>) -> bool {
    match last_named(stages, a) {
        Some(i) => stages[i].needs.contains(b),
        None => false,
    }
}

pub open spec fn dep_step(stages: Seq<StageView>, p: Seq<Seq<char>>, i: int) -> bool {
    depends(stages, p[i], p[i + 1])
}

pub open spec fn dep_path(stages: Seq<StageView>, p: Seq<Seq<char>>) -> bool {
    forall|i: int| 0 <= i < p.len() - 1 ==> #[trigger] dep_step(stages, p, i)
}

/// A chain of dependencies leads from `a` to `b`.
pub open spec fn dep_reaches(stages: Seq<StageView>, a: Seq<char>, b: Seq<char>) -> bool {
    exists|p: Seq<Seq<char>>| p.len() >= 1 && p[0] == a && p.last() == b && dep_path(stages, p)
}

/// A stage depends, through one or more steps, on itself.
pub open spec fn dep_cycle(stages: Seq<StageView>) -> bool {
    exists|p: Seq<Seq<char>>| p.len() >= 2 && p[0] == p.last() && dep_path(stages, p)
}

pub proof fn lemma_last_named(stages: Seq<StageView>, name: Seq<char>)
    ensures
        match last_named(stages, name) {
            Some(i) => 0 <= i < stages.len() && stages[i].name == name && forall|k: int|
                i < k < stages.len() ==> stages[k].name != name,
            None => forall|k: int| 0 <= k < stages.len() ==> stages[k].name != name,
        },
    decreases stages.len(),
{
    if stages.len() > 0 {
        lemma_last_named(stages.drop_last(), name);
        assert(forall|k: int| 0 <= k < stages.len() - 1 ==> stages.drop_last()[k] == stages[k]);
    }
}

proof fn lemma_last_named_is(stages: Seq<StageView>, name: Seq<char>, i: int)
    requires
        0 <= i < stages.len(),
        stages[i].name == name,
        forall|k: int| i < k < stages.len() ==> stages[k].name != name,
    ensures
        last_named(stages, name) == Some(i),
    decreases stages.len(),
{
    if i < stages.len() - 1 {
        lemma_last_named_is(stages.drop_last(), name, i);
    }
}

proof fn lemma_last_named_none(stages: Seq<StageView>, name: Seq<char>)
    requires
        forall|k: int| 0 <= k < stages.len() ==> stages[k].name != name,
    ensures
        last_named(stages, name) is None,
    decreases stages.len(),
{
    if stages.len() > 0 {
        lemma_last_named_none(stages.drop_last(), name);
    }
}

/// The indices of the dependencies in `ds` that name a stage.
pub open spec fn known_targets(stages: Seq<StageView>, ds: Seq<Seq<char>>) -> Seq<usize>
    decreases ds.len(),
{
    if ds.len() == 0 {
        Seq::empty()
    } else {
        let rest = known_targets(stages, ds.drop_last());
        match last_named(stages, ds.last()) {
            Some(j) => rest.push(j as usize),
            None => rest,
        }
    }
}

proof fn lemma_known_targets(stages: Seq<StageView>, ds: Seq<Seq<char>>)
    requires
        stages.len() <= usize::MAX,
    ensures
        forall|k: int|
            0 <= k < known_targets(stages, ds).len() ==> exists|d: int|
                0 <= d < ds.len() && last_named(stages, #[trigger] ds[d]) == Some(
                    (#[trigger] known_targets(stages, ds)[k]) as int,
                ),
        forall|d: int, j: int|
            0 <= d < ds.len() && last_named(stages, ds[d]) == Some(j) ==> known_targets(
                stages,
                ds,
            ).contains(j as usize),
    decreases ds.len(),
{
    if ds.len() > 0 {
        let rest = ds.drop_last();
        lemma_known_targets(stages, rest);
        lemma_last_named(stages, ds.last());
        let kt = known_targets(stages, ds);
        let kr = known_targets(stages, rest);
        assert forall|k: int| 0 <= k < kt.len() implies exists|d: int|
            0 <= d < ds.len() && last_named(stages, #[trigger] ds[d]) == Some(
                (#[trigger] kt[k]) as int,
            ) by {
            if k < kr.len() {
                assert(kt[k] == kr[k]);
                let d = choose|d: int|
                    0 <= d < rest.len() && last_named(stages, rest[d]) == Some(kr[k] as int);
                assert(ds[d] == rest[d]);
            } else {
                assert(last_named(stages, ds[ds.len() - 1]) == Some(kt[k] as int));
            }
        }
        assert forall|d: int, j: int|
            0 <= d < ds.len() && last_named(stages, ds[d]) == Some(j) implies kt.contains(
            j as usize,
        ) by {
            if d < ds.len() - 1 {
                assert(rest[d] == ds[d]);
                let m = choose|m: int| 0 <= m < kr.len() && kr[m] == j as usize;
                assert(kt[m] == kr[m]);
            } else {
                assert(kt[kt.len() - 1] == j as usize);
            }
        }
    }
}

/// The adjacency lists that the search runs on: a stage that is the last
/// of its name points at the stages its known dependencies name; the
/// others point nowhere.
pub open spec fn adjacency_ok(sv: Seq<StageView>, adj: Seq<Seq<usize>>, roots: Seq<usize>) -> bool {
    &&& sv.len() <= usize::MAX
    &&& adj.len() == sv.len()
    &&& roots.len() == sv.len()
    &&& forall|u: int|
        0 <= u < sv.len() ==> last_named(sv, sv[u].name) == Some(#[trigger] roots[u] as int)
    &&& forall|u: int|
        0 <= u < sv.len() ==> #[trigger] adj[u] == if last_named(sv, sv[u].name) == Some(u) {
            known_targets(sv, sv[u].needs)
        } else {
            Seq::<usize>::empty()
        }
}

/// The graph the search runs on, as `adjacency_ok` describes it.
pub open spec fn name_graph(sv: Seq<StageView>) -> Seq<Seq<usize>> {
    Seq::new(
        sv.len(),
        |u: int|
            if last_named(sv, sv[u].name) == Some(u) {
                known_targets(sv, sv[u].needs)
            } else {
                Seq::<usize>::empty()
            },
    )
}

/// Where the search starts for each stage: the last stage of its name.
pub open spec fn name_roots(sv: Seq<StageView>) -> Seq<usize> {
    Seq::new(sv.len(), |u: int| last_named(sv, sv[u].name)->0 as usize)
}

/// The message for the first dependency that the depth-first search finds
/// leading back onto its own path: stages are taken in list order (a name
/// already searched is skipped), the dependencies of each in the order they
/// are listed.
pub open spec fn cycle_text(sv: Seq<StageView>) -> Seq<char> {
    match search_roots(name_graph(sv), name_roots(sv), Seq::new(sv.len(), |x: int| 0u8), 0) {
        Some((a, b)) => sv[a].name + " -> "@ + sv[b].name,
        None => Seq::empty(),
    }
}

proof fn lemma_edge_depends(sv: Seq<StageView>, adj: Seq<Seq<usize>>, roots: Seq<usize>, x: int, y: int)
    requires
        adjacency_ok(sv, adj, roots),
        is_edge(adj, x, y),
    ensures
        0 <= y < sv.len(),
        depends(sv, sv[x].name, sv[y].name),
{
    let k = choose|k: int| 0 <= k < adj[x].len() && adj[x][k] as int == y;
    assert(last_named(sv, sv[x].name) == Some(x));
    lemma_known_targets(sv, sv[x].needs);
    let d = choose|d: int|
        0 <= d < sv[x].needs.len() && last_named(sv, sv[x].needs[d]) == Some(
            known_targets(sv, sv[x].needs)[k] as int,
        );
    lemma_last_named(sv, sv[x].needs[d]);
}

proof fn lemma_depends_edge(sv: Seq<StageView>, adj: Seq<Seq<usize>>, roots: Seq<usize>, a: Seq<char>, b: Seq<char>)
    requires
        adjacency_ok(sv, adj, roots),
        depends(sv, a, b),
        last_named(sv, b) is Some,
    ensures
        is_edge(adj, last_named(sv, a)->0, last_named(sv, b)->0),
{
    let x = last_named(sv, a)->0;
    let y = last_named(sv, b)->0;
    lemma_last_named(sv, a);
    lemma_last_named(sv, b);
    lemma_known_targets(sv, sv[x].needs);
    let d = choose|d: int| 0 <= d < sv[x].needs.len() && sv[x].needs[d] == b;
    let kt = known_targets(sv, sv[x].needs);
    assert(kt.contains(y as usize));
    let k = choose|k: int| 0 <= k < kt.len() && kt[k] == y as usize;
    assert(adj[x][k] as int == y);
}

/// An index path is a chain of dependencies between the stage names.
proof fn lemma_index_path_names(sv: Seq<StageView>, adj: Seq<Seq<usize>>, roots: Seq<usize>, q: Seq<int>)
    requires
        adjacency_ok(sv, adj, roots),
        path_ok(adj, q),
        q.len() >= 1,
        0 <= q[0] < sv.len(),
    ensures
        dep_path(sv, q.map_values(|x: int| sv[x].name)),
        forall|i: int| 0 <= i < q.len() ==> 0 <= #[trigger] q[i] < sv.len(),
{
    let p = q.map_values(|x: int| sv[x].name);
    assert forall|i: int| 0 <= i < q.len() implies 0 <= #[trigger] q[i] < sv.len() by {
        if i > 0 {
            assert(step_ok(adj, q, i - 1));
            lemma_edge_depends(sv, adj, roots, q[i - 1], q[i]);
        }
    }
    assert forall|i: int| 0 <= i < p.len() - 1 implies #[trigger] dep_step(sv, p, i) by {
        assert(step_ok(adj, q, i));
        lemma_edge_depends(sv, adj, roots, q[i], q[i + 1]);
    }
}

/// A cycle of dependencies between names gives a cycle between indices.
proof fn lemma_name_cycle_index(sv: Seq<StageView>, adj: Seq<Seq<usize>>, roots: Seq<usize>)
    requires
        adjacency_ok(sv, adj, roots),
        dep_cycle(sv),
    ensures
        has_cycle(adj),
{
    let p = choose|p: Seq<Seq<char>>| p.len() >= 2 && p[0] == p.last() && dep_path(sv, p);
    assert forall|i: int| 0 <= i < p.len() implies last_named(sv, #[trigger] p[i]) is Some by {
        if i < p.len() - 1 {
            assert(dep_step(sv, p, i));
        } else {
            assert(dep_step(sv, p, 0));
        }
    }
    let q = p.map_values(|a: Seq<char>| last_named(sv, a)->0);
    assert forall|i: int| 0 <= i < q.len() - 1 implies #[trigger] step_ok(adj, q, i) by {
        assert(dep_step(sv, p, i));
        assert(last_named(sv, p[i + 1]) is Some);
        lemma_depends_edge(sv, adj, roots, p[i], p[i + 1]);
    }
    assert(q[0] == q.last());
    assert(path_ok(adj, q));
}

/// Index of the last stage called `name`.
pub fn last_index_of(stages: &Vec<Stage>, name: &str) -> (r: Option<usize>)
    ensures
        match r {
            Some(i) => last_named(stages_view(stages@), name@) == Some(i as int),
            None => last_named(stages_view(stages@), name@) is None,
        },
{
    let ghost sv = stages_view(stages@);
    let mut i: usize = stages.len();
    while i > 0
        invariant
            i <= stages.len(),
            sv == stages_view(stages@),
            forall|k: int| i <= k < stages.len() ==> sv[k].name != name@,
        decreases i,
    {
        i = i - 1;
        if str_eq(stages[i].name.as_str(), name) {
            proof {
                lemma_last_named_is(sv, name@, i as int);
            }
            return Some(i);
        }
    }
    proof {
        lemma_last_named_none(sv, name@);
    }
    None
}

/// Looks for a dependency cycle. `Err("a -> b")` names a dependency of
/// stage `a` on stage `b` from which a chain of dependencies leads back to
/// `a`.
pub fn detect_cycle(stages: &Vec<Stage>) -> (r: Result<(), String>)
    ensures
        r is Ok <==> !dep_cycle(stages_view(stages@)),
        r matches Err(m) ==> m@ == cycle_text(stages_view(stages@)),
        match r {
            Err(m) => exists|a: Seq<char>, b: Seq<char>|
                m@ == a + " -> "@ + b && depends(stages_view(stages@), a, b) && dep_reaches(
                    stages_view(stages@),
                    b,
                    a,
                ),
            Ok(_) => true,
        },
{
    let ghost sv = stages_view(stages@);
    let n = stages.len();
    let mut adj: Vec<Vec<usize>> = Vec::new();
    let mut roots: Vec<usize> = Vec::new();
    let mut i: usize = 0;
    while i < n
        invariant
            n == stages.len(),
            sv == stages_view(stages@),
            i <= n,
            adj.len() == i,
            roots.len() == i,
            forall|u: int|
                0 <= u < i ==> last_named(sv, sv[u].name) == Some(#[trigger] roots@[u] as int),
            forall|u: int|
                0 <= u < i ==> (#[trigger] adj@[u])@ == if last_named(sv, sv[u].name) == Some(u) {
                    known_targets(sv, sv[u].needs)
                } else {
                    Seq::<usize>::empty()
                },
        decreases n - i,
    {
        let c = match last_index_of(stages, stages[i].name.as_str()) {
            Some(c) => c,
            None => {
                proof {
                    lemma_last_named(sv, sv[i as int].name);
                }
                i
            },
        };
        roots.push(c);
        let mut succ: Vec<usize> = Vec::new();
        if c == i {
            let needs = &stages[i].needs;
            let mut k: usize = 0;
            while k < needs.len()
                invariant
                    sv == stages_view(stages@),
                    i < stages.len(),
                    needs@ == stages@[i as int].needs@,
                    k <= needs.len(),
                    succ@ == known_targets(sv, sv[i as int].needs.take(k as int)),
                decreases needs.len() - k,
            {
                assert(sv[i as int].needs.take(k + 1).drop_last() =~= sv[i as int].needs.take(
                    k as int,
                ));
                if let Some(j) = last_index_of(stages, needs[k].as_str()) {
                    succ.push(j);
                }
                k = k + 1;
            }
            assert(sv[i as int].needs.take(k as int) =~= sv[i as int].needs);
        }
        adj.push(succ);
        i = i + 1;
    }
    proof {
        assert(adjacency_ok(sv, adj_view(adj@), roots@));
        assert(adj_view(adj@) =~= name_graph(sv));
        assert(roots@ =~= name_roots(sv));
        assert forall|u: int, k: int|
            0 <= u < adj@.len() && 0 <= k < adj_view(adj@)[u].len() implies adj_view(adj@)[u][k] < adj@.len() by {
            lemma_known_targets(sv, sv[u].needs);
            let d = choose|d: int|
                0 <= d < sv[u].needs.len() && last_named(sv, sv[u].needs[d]) == Some(
                    known_targets(sv, sv[u].needs)[k] as int,
                );
            lemma_last_named(sv, sv[u].needs[d]);
        }
        assert(wf_graph(adj_view(adj@)));
        assert forall|u: int| 0 <= u < adj.len() && adj_view(adj@)[u].len() > 0 implies roots@.contains(
            u as usize,
        ) by {
            assert(roots@[u] == u as usize);
        }
        assert forall|u: int| 0 <= u < roots.len() implies roots@[u] < adj.len() by {
            lemma_last_named(sv, sv[u].name);
        }
    }
    match find_cycle(&adj, &roots) {
        None => {
            proof {
                if dep_cycle(sv) {
                    lemma_name_cycle_index(sv, adj_view(adj@), roots@);
                }
            }
            Ok(())
        },
        Some((u, v)) => {
            let ghost q = choose|q: Seq<int>|
                q.len() >= 1 && q[0] == v as int && q.last() == u as int && path_ok(adj_view(adj@), q);
            proof {
                lemma_edge_depends(sv, adj_view(adj@), roots@, u as int, v as int);
                lemma_index_path_names(sv, adj_view(adj@), roots@, q);
                let p = q.map_values(|x: int| sv[x].name);
                assert(p[0] == sv[v as int].name);
                assert(p.last() == sv[u as int].name);
                assert(dep_reaches(sv, sv[v as int].name, sv[u as int].name));
                // close the loop with the edge u -> v
                let c = p.push(sv[v as int].name);
                assert forall|i: int| 0 <= i < c.len() - 1 implies #[trigger] dep_step(sv, c, i) by {
                    if i < p.len() - 1 {
                        assert(dep_step(sv, p, i));
                    }
                }
                assert(c[0] == c.last());
                assert(dep_cycle(sv));
            }
            let mut m: Vec<char> = Vec::new();
            append_str(&mut m, stages[u].name.as_str());
            append_str(&mut m, " -> ");
            append_str(&mut m, stages[v].name.as_str());
            Err(string_of(m.as_slice()))
        },
    }
}

} // verus!
