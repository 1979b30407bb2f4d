//! Cycle search in a directed graph given by adjacency lists, by depth-first
//! search with the usual white / grey / black colouring.
use vstd::prelude::*;

verus! {

/// The successor lists of an adjacency table.
pub open spec fn adj_view(adj: Seq<Vec<usize>>) -> Seq<Seq<usize>> {
    adj.map_values(|v: Vec<usize>| v@)
}

/// Every listed successor is a node of the graph.
pub open spec fn wf_graph(adj: Seq<Seq<usize>>) -> bool {
    forall|u: int, k: int| 0 <= u < adj.len() && 0 <= k < adj[u].len() ==> adj[u][k] < adj.len()
}

/// `v` is listed among the successors of `u`.
pub open spec fn is_edge(adj: Seq<Seq<usize>>, u: int, v: int) -> bool {
    0 <= u < adj.len() && exists|k: int| 0 <= k < adj[u].len() && adj[u][k] as int == v
}

pub open spec fn step_ok(adj: Seq<Seq<usize>>, p: Seq<int>, i: int) -> bool {
    is_edge(adj, p[i], p[i + 1])
}

/// Consecutive nodes of `p` are joined by edges.
pub open spec fn path_ok(adj: Seq<Seq<usize>>, p: Seq<int>) -> bool {
    forall|i: int| 0 <= i < p.len() - 1 ==> #[trigger] step_ok(adj, p, i)
}

/// There is a path (possibly empty) from `a` to `b`.
pub open spec fn reaches(adj: Seq<Seq<usize>>, a: int, b: int) -> bool {
    exists|q: Seq<int>| q.len() >= 1 && q[0] == a && q.last() == b && path_ok(adj, q)
}

/// Some non-empty path leads from a node back to itself.
pub open spec fn has_cycle(adj: Seq<Seq<usize>>) -> bool {
    exists|q: Seq<int>| q.len() >= 2 && q[0] == q.last() && path_ok(adj, q)
}

/// How many entries of `s` equal `c`.
pub open spec fn count_eq(s: Seq<u8>, c: u8) -> nat
    decreases s.len(),
{
    if s.len() == 0 {
        0
    } else {
        count_eq(s.drop_last(), c) + if s.last() == c {
            1nat
        } else {
            0nat
        }
    }
}

pub proof fn lemma_count_update(s: Seq<u8>, i: int, x: u8, c: u8)
    requires
        0 <= i < s.len(),
    ensures
        count_eq(s.update(i, x), c) + (if s[i] == c {
            1int
        } else {
            0int
        }) == count_eq(s, c) + (if x == c {
            1int
        } else {
            0int
        }),
    decreases s.len(),
{
    if i == s.len() - 1 {
        assert(s.update(i, x).drop_last() =~= s.drop_last());
    } else {
        assert(s.update(i, x).drop_last() =~= s.drop_last().update(i, x));
        lemma_count_update(s.drop_last(), i, x, c);
    }
}

proof fn lemma_count_lt(s: Seq<u8>, c: u8, i: int)
    requires
        0 <= i < s.len(),
        s[i] != c,
    ensures
        count_eq(s, c) < s.len(),
    decreases s.len(),
{
    lemma_count_le(s.drop_last(), c);
    if i < s.len() - 1 {
        lemma_count_lt(s.drop_last(), c, i);
    }
}

proof fn lemma_count_le(s: Seq<u8>, c: u8)
    ensures
        count_eq(s, c) <= s.len(),
    decreases s.len(),
{
    if s.len() > 0 {
        lemma_count_le(s.drop_last(), c);
    }
}

/// Marking nodes never makes more of them white.
pub proof fn lemma_white_mono(s1: Seq<u8>, s2: Seq<u8>)
    requires
        s1.len() == s2.len(),
        forall|i: int| 0 <= i < s1.len() && s1[i] != 0 ==> s2[i] != 0,
    ensures
        count_eq(s2, 0) <= count_eq(s1, 0),
    decreases s1.len(),
{
    if s1.len() > 0 {
        lemma_white_mono(s1.drop_last(), s2.drop_last());
    }
}

pub open spec fn colors_ok(color: Seq<u8>) -> bool {
    forall|x: int| 0 <= x < color.len() ==> color[x] <= 2
}

/// The grey nodes are exactly those on the current search path.
pub open spec fn gray_is(color: Seq<u8>, path: Seq<int>) -> bool {
    forall|x: int| 0 <= x < color.len() ==> (color[x] == 1 <==> path.contains(x))
}

/// Black nodes have black successors of smaller finishing rank.
pub open spec fn closed(adj: Seq<Seq<usize>>, color: Seq<u8>, rank: Seq<usize>, counter: int) -> bool {
    &&& forall|x: int| 0 <= x < color.len() && color[x] == 2 ==> rank[x] < counter
    &&& forall|x: int, y: int|
        #![trigger is_edge(adj, x, y), color[x]]
        0 <= x < color.len() && color[x] == 2 && is_edge(adj, x, y) ==> 0 <= y < color.len()
            && color[y] == 2 && rank[y] < rank[x]
}

/// Marked nodes stay marked; finished nodes keep their rank.
pub open spec fn mono(c1: Seq<u8>, c2: Seq<u8>, r1: Seq<usize>, r2: Seq<usize>) -> bool {
    &&& forall|x: int| 0 <= x < c1.len() && c1[x] != 0 ==> c2[x] != 0
    &&& forall|x: int| 0 <= x < c1.len() && c1[x] == 2 ==> c2[x] == 2 && r2[x] == r1[x]
}

/// The depth-first search from `u` along the grey `path`, on colours `c`
/// (0 white, 1 grey, 2 black): `u` turns grey, its successors are taken in
/// list order, and the first edge found to a grey node ends the search with
/// that edge; otherwise `u` turns black. Gives the colours at the end and
/// the edge, if one was found. (A path as long as the graph cannot occur;
/// it only bounds the recursion.)
pub open spec fn search(g: Seq<Seq<usize>>, c: Seq<u8>, path: Seq<int>, u: int) -> (Seq<u8>, Option<(int, int)>)
    decreases g.len() - path.len(), 0nat,
{
    if path.len() >= g.len() {
        (c, None)
    } else {
        search_from(g, c.update(u, 1), path.push(u), u, 0)
    }
}

/// The search of `u` from its `i`-th successor on.
pub open spec fn search_from(g: Seq<Seq<usize>>, c: Seq<u8>, p: Seq<int>, u: int, i: int) -> (
    Seq<u8>,
    Option<(int, int)>,
)
    decreases g.len() - p.len(), (g[u].len() - i) as nat + 1,
{
    if i < 0 || i >= g[u].len() {
        (c.update(u, 2), None)
    } else {
        let v = g[u][i] as int;
        if c[v] == 0 {
            let r = search(g, c, p, v);
            if r.1 is Some {
                r
            } else {
                search_from(g, r.0, p, u, i + 1)
            }
        } else if c[v] == 1 {
            (c, Some((u, v)))
        } else {
            search_from(g, c, p, u, i + 1)
        }
    }
}

/// The search started from each white root in turn, from the `i`-th on,
/// until an edge is found.
pub open spec fn search_roots(g: Seq<Seq<usize>>, roots: Seq<usize>, c: Seq<u8>, i: int) -> Option<(int, int)>
    decreases roots.len() - i,
{
    if i < 0 || i >= roots.len() {
        None
    } else {
        let s = roots[i] as int;
        if c[s] == 0 {
            let r = search(g, c, Seq::empty(), s);
            if r.1 is Some {
                r.1
            } else {
                search_roots(g, roots, r.0, i + 1)
            }
        } else {
            search_roots(g, roots, c, i + 1)
        }
    }
}

pub open spec fn pair_view(r: Option<(usize, usize)>) -> Option<(int, int)> {
    match r {
        Some((a, b)) => Some((a as int, b as int)),
        None => None,
    }
}

/// A path without repeats through `n` nodes has at most `n` entries.
pub proof fn lemma_path_short(p: Seq<int>, n: int)
    requires
        p.no_duplicates(),
        0 <= n,
        forall|i: int| 0 <= i < p.len() ==> 0 <= #[trigger] p[i] < n,
    ensures
        p.len() <= n,
{
    p.unique_seq_to_set();
    vstd::set_lib::lemma_int_range(0, n);
    assert(p.to_set().subset_of(vstd::set_lib::set_int_range(0, n))) by {
        assert forall|x: int| p.to_set().contains(x) implies vstd::set_lib::set_int_range(0, n).contains(x) by {
            let i = choose|i: int| 0 <= i < p.len() && p[i] == x;
            assert(0 <= p[i] < n);
        }
    }
    vstd::set_lib::lemma_len_subset(p.to_set(), vstd::set_lib::set_int_range(0, n));
}

fn dfs(
    adj: &Vec<Vec<usize>>,
    u: usize,
    color: &mut Vec<u8>,
    rank: &mut Vec<usize>,
    counter: &mut usize,
    Ghost(path): Ghost<Seq<int>>,
) -> (r: Option<(usize, usize)>)
    requires
        wf_graph(adj_view(adj@)),
        u < adj.len(),
        old(color).len() == adj.len(),
        old(rank).len() == adj.len(),
        colors_ok(old(color)@),
        old(color)@[u as int] == 0,
        gray_is(old(color)@, path),
        path_ok(adj_view(adj@), path.push(u as int)),
        forall|i: int| 0 <= i < path.len() ==> 0 <= #[trigger] path[i] < adj.len(),
        path.no_duplicates(),
        closed(adj_view(adj@), old(color)@, old(rank)@, *old(counter) as int),
        *old(counter) as int == count_eq(old(color)@, 2),
    ensures
        (final(color)@, pair_view(r)) == search(adj_view(adj@), old(color)@, path, u as int),
        final(color).len() == adj.len(),
        final(rank).len() == adj.len(),
        match r {
            Some((x, y)) => is_edge(adj_view(adj@), x as int, y as int) && reaches(adj_view(adj@), y as int, x as int),
            None => {
                &&& colors_ok(final(color)@)
                &&& final(color)@[u as int] == 2
                &&& gray_is(final(color)@, path)
                &&& closed(adj_view(adj@), final(color)@, final(rank)@, *final(counter) as int)
                &&& *final(counter) as int == count_eq(final(color)@, 2)
                &&& mono(old(color)@, final(color)@, old(rank)@, final(rank)@)
            },
        },
    decreases count_eq(old(color)@, 0),
{
    let ghost c0 = color@;
    let ghost r0 = rank@;
    let ghost gpath = path.push(u as int);
    let ghost g = adj_view(adj@);
    proof {
        lemma_count_update(color@, u as int, 1, 0);
        lemma_count_update(color@, u as int, 1, 2);
        assert(!path.contains(u as int));
        assert(gpath.no_duplicates()) by {
            assert forall|i: int, j: int| 0 <= i < gpath.len() && 0 <= j < gpath.len() && i != j implies gpath[i]
                != gpath[j] by {
                if i < path.len() && j < path.len() {
                    assert(path[i] != path[j]);
                } else if i < path.len() {
                    assert(path.contains(path[i]));
                } else if j < path.len() {
                    assert(path.contains(path[j]));
                }
            }
        }
        lemma_path_short(gpath, g.len() as int);
    }
    color.set(u, 1);
    assert(search(g, c0, path, u as int) == search_from(g, color@, gpath, u as int, 0));
    assert(gray_is(color@, gpath)) by {
        assert forall|x: int| 0 <= x < color@.len() implies (color@[x] == 1 <==> gpath.contains(x)) by {
            if x == u as int {
                assert(gpath[gpath.len() - 1] == x);
            } else if path.contains(x) {
                let k = choose|k: int| 0 <= k < path.len() && path[k] == x;
                assert(gpath[k] == x);
            } else if gpath.contains(x) {
                let k = choose|k: int| 0 <= k < gpath.len() && gpath[k] == x;
                assert(k < path.len());
                assert(path[k] == x);
            }
        }
    }
    let succ = &adj[u];
    let mut i: usize = 0;
    while i < succ.len()
        invariant
            wf_graph(adj_view(adj@)),
            u < adj.len(),
            succ@ == adj_view(adj@)[u as int],
            i <= succ.len(),
            color.len() == adj.len(),
            rank.len() == adj.len(),
            colors_ok(color@),
            color@[u as int] == 1,
            gray_is(color@, gpath),
            gpath == path.push(u as int),
            path_ok(adj_view(adj@), gpath),
            forall|j: int| 0 <= j < gpath.len() ==> 0 <= #[trigger] gpath[j] < adj.len(),
            gpath.no_duplicates(),
            g == adj_view(adj@),
            search(g, c0, path, u as int) == search_from(g, color@, gpath, u as int, i as int),
            closed(adj_view(adj@), color@, rank@, *counter as int),
            *counter as int == count_eq(color@, 2),
            mono(c0, color@, r0, rank@),
            c0 == old(color)@,
            c0.len() == adj.len(),
            r0.len() == adj.len(),
            count_eq(color@, 0) < count_eq(c0, 0),
            forall|k: int| 0 <= k < i ==> color@[#[trigger] succ@[k] as int] == 2,
        decreases succ.len() - i,
    {
        let v = succ[i];
        assert(v < adj.len());
        assert(is_edge(adj_view(adj@), u as int, v as int));
        if color[v] == 0 {
            let ghost before = color@;
            let ghost rbefore = rank@;
            proof {
                let np = gpath.push(v as int);
                assert forall|j: int| 0 <= j < np.len() - 1 implies #[trigger] step_ok(adj_view(adj@), np, j) by {
                    if j < gpath.len() - 1 {
                        assert(step_ok(adj_view(adj@), gpath, j));
                    }
                }
                assert(path_ok(adj_view(adj@), np));
                assert(gpath == path.push(u as int));
                assert(count_eq(color@, 0) < count_eq(old(color)@, 0));
            }
            let r = dfs(adj, v, color, rank, counter, Ghost(gpath));
            if r.is_some() {
                return r;
            }
            proof {
                lemma_white_mono(before, color@);
                assert(gpath[gpath.len() - 1] == u as int);
                assert(mono(c0, color@, r0, rank@)) by {
                    assert forall|x: int| 0 <= x < c0.len() && c0[x] == 2 implies color@[x] == 2
                        && rank@[x] == r0[x] by {
                        assert(before[x] == 2);
                    }
                    assert forall|x: int| 0 <= x < c0.len() && c0[x] != 0 implies color@[x] != 0 by {
                        assert(before[x] != 0);
                    }
                }
            }
        } else if color[v] == 1 {
            proof {
                assert(gpath.contains(v as int));
                let k = choose|k: int| 0 <= k < gpath.len() && gpath[k] == v as int;
                let q = gpath.subrange(k, gpath.len() as int);
                assert forall|j: int| 0 <= j < q.len() - 1 implies #[trigger] step_ok(adj_view(adj@), q, j) by {
                    assert(step_ok(adj_view(adj@), gpath, k + j));
                }
                assert(q[0] == v as int);
                assert(q.last() == u as int);
                assert(path_ok(adj_view(adj@), q));
            }
            return Some((u, v));
        }
        i = i + 1;
    }
    let ghost cb = color@;
    let ghost rb = rank@;
    proof {
        lemma_count_lt(color@, 2, u as int);
        lemma_count_update(color@, u as int, 2, 2);
        lemma_count_update(color@, u as int, 2, 0);
    }
    rank.set(u, *counter);
    *counter = *counter + 1;
    color.set(u, 2);
    proof {
        assert forall|x: int, y: int|
            #![trigger is_edge(adj_view(adj@), x, y), color@[x]]
            0 <= x < color@.len() && color@[x] == 2 && is_edge(adj_view(adj@), x, y) implies 0 <= y
            < color@.len() && color@[y] == 2 && rank@[y] < rank@[x] by {
            if x == u as int {
                let k = choose|k: int|
                    0 <= k < adj_view(adj@)[u as int].len() && adj_view(adj@)[u as int][k] as int == y;
                assert(cb[succ@[k] as int] == 2);
            } else {
                assert(cb[x] == 2);
                assert(cb[y] == 2);
            }
        }
        assert(gray_is(color@, path)) by {
            assert forall|x: int| 0 <= x < color@.len() implies (color@[x] == 1 <==> path.contains(
                x,
            )) by {
                if path.contains(x) {
                    let k = choose|k: int| 0 <= k < path.len() && path[k] == x;
                    assert(gpath[k] == x);
                    if x == u as int {
                        // u was white on entry, so it was not grey, so not on the path
                        assert(c0[u as int] == 0);
                    }
                }
                if x != u as int && cb[x] == 1 {
                    assert(gpath.contains(x));
                    let k = choose|k: int| 0 <= k < gpath.len() && gpath[k] == x;
                    assert(k != path.len());
                    assert(path[k] == x);
                }
            }
        }
    }
    None
}

/// Depth-first search from each root in turn, as long as no cycle shows up.
/// `Some((u, v))` names an edge `u -> v` from which a path leads back to
/// `u`; `None` means the graph has no cycle.
pub fn find_cycle(adj: &Vec<Vec<usize>>, roots: &Vec<usize>) -> (r: Option<(usize, usize)>)
    requires
        wf_graph(adj_view(adj@)),
        forall|i: int| 0 <= i < roots.len() ==> roots@[i] < adj.len(),
        forall|u: int| 0 <= u < adj.len() && adj_view(adj@)[u].len() > 0 ==> roots@.contains(u as usize),
    ensures
        pair_view(r) == search_roots(adj_view(adj@), roots@, Seq::new(adj.len() as nat, |x: int| 0u8), 0),
        match r {
            Some((x, y)) => is_edge(adj_view(adj@), x as int, y as int) && reaches(adj_view(adj@), y as int, x as int),
            None => !has_cycle(adj_view(adj@)),
        },
{
    let n = adj.len();
    let mut color: Vec<u8> = Vec::new();
    let mut rank: Vec<usize> = Vec::new();
    let mut j: usize = 0;
    while j < n
        invariant
            j <= n,
            n == adj.len(),
            color.len() == j,
            rank.len() == j,
            forall|x: int| 0 <= x < j ==> color@[x] == 0,
        decreases n - j,
    {
        color.push(0);
        rank.push(0);
        j = j + 1;
    }
    let mut counter: usize = 0;
    let ghost g = adj_view(adj@);
    proof {
        assert(count_eq(color@, 2) == 0) by {
            lemma_zero_count(color@);
        }
        assert(color@ =~= Seq::new(adj.len() as nat, |x: int| 0u8));
    }
    let mut i: usize = 0;
    while i < roots.len()
        invariant
            wf_graph(adj_view(adj@)),
            n == adj.len(),
            forall|k: int| 0 <= k < roots.len() ==> roots@[k] < adj.len(),
            color.len() == n,
            rank.len() == n,
            colors_ok(color@),
            gray_is(color@, Seq::<int>::empty()),
            closed(adj_view(adj@), color@, rank@, counter as int),
            counter as int == count_eq(color@, 2),
            forall|k: int| 0 <= k < i ==> color@[#[trigger] roots@[k] as int] == 2,
            i <= roots.len(),
            g == adj_view(adj@),
            search_roots(g, roots@, Seq::new(adj.len() as nat, |x: int| 0u8), 0) == search_roots(g, roots@, color@, i as int),
        decreases roots.len() - i,
    {
        let s = roots[i];
        if color[s] == 0 {
            proof {
                assert(path_ok(adj_view(adj@), Seq::<int>::empty().push(s as int)));
            }
            let ghost before = color@;
            let r = dfs(adj, s, &mut color, &mut rank, &mut counter, Ghost(Seq::empty()));
            if r.is_some() {
                return r;
            }
        } else {
            assert(!Seq::<int>::empty().contains(s as int));
        }
        i = i + 1;
    }
    proof {
        if has_cycle(adj_view(adj@)) {
            let q = choose|q: Seq<int>| q.len() >= 2 && q[0] == q.last() && path_ok(adj_view(adj@), q);
            assert(step_ok(adj_view(adj@), q, 0));
            let k0 = choose|k: int|
                0 <= k < adj_view(adj@)[q[0]].len() && adj_view(adj@)[q[0]][k] as int == q[1];
            assert(roots@.contains(q[0] as usize));
            let m = choose|m: int| 0 <= m < roots.len() && roots@[m] == q[0] as usize;
            assert(color@[roots@[m] as int] == 2);
            lemma_ranks_fall(adj_view(adj@), color@, rank@, counter as int, q, q.len() - 1);
        }
    }
    None
}

proof fn lemma_zero_count(s: Seq<u8>)
    requires
        forall|x: int| 0 <= x < s.len() ==> s[x] == 0,
    ensures
        count_eq(s, 2) == 0,
    decreases s.len(),
{
    if s.len() > 0 {
        lemma_zero_count(s.drop_last());
    }
}

/// Along a path that starts at a black node, every node is black and the
/// finishing ranks fall strictly.
proof fn lemma_ranks_fall(
    adj: Seq<Seq<usize>>,
    color: Seq<u8>,
    rank: Seq<usize>,
    counter: int,
    q: Seq<int>,
    i: int,
)
    requires
        closed(adj, color, rank, counter),
        color.len() == adj.len(),
        path_ok(adj, q),
        0 <= i < q.len(),
        0 <= q[0] < color.len(),
        color[q[0]] == 2,
    ensures
        0 <= q[i] < color.len(),
        color[q[i]] == 2,
        rank[q[i]] + i <= rank[q[0]],
    decreases i,
{
    if i > 0 {
        lemma_ranks_fall(adj, color, rank, counter, q, i - 1);
        assert(step_ok(adj, q, i - 1));
        assert(is_edge(adj, q[i - 1], q[i]));
    }
}

} // verus!
