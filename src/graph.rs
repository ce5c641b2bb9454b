//! Directed graphs held as adjacency lists, and the searches over them that
//! the taint engine and the control-flow queries share.

use vstd::prelude::*;

verus! {

/// Every listed successor names a node of the graph.
pub open spec fn graph_wf(g: Seq<Vec<usize>>) -> bool {
    forall|a: int, j: int|
        0 <= a < g.len() && 0 <= j < g[a]@.len() ==> (#[trigger] g[a]@[j]) < g.len()
}

/// `b` is listed among the successors of `a`.
pub open spec fn edge(g: Seq<Vec<usize>>, a: usize, b: usize) -> bool {
    a < g.len() && g[a as int]@.contains(b)
}

/// `p` is a non-empty walk along edges, starting inside the graph.
pub open spec fn is_path(g: Seq<Vec<usize>>, p: Seq<usize>) -> bool {
    &&& p.len() >= 1
    &&& p[0] < g.len()
    &&& forall|i: int| 0 <= i < p.len() - 1 ==> #[trigger] edge(g, p[i], p[i + 1])
}

pub open spec fn path_between(g: Seq<Vec<usize>>, p: Seq<usize>, u: usize, v: usize) -> bool {
    is_path(g, p) && p[0] == u && p.last() == v
}

/// Some walk leads from `u` to `v`; every node reaches itself.
pub open spec fn reaches(g: Seq<Vec<usize>>, u: usize, v: usize) -> bool {
    exists|p: Seq<usize>| #[trigger] path_between(g, p, u, v)
}

/// Some walk of at most `d` edges leads from `u` to `v`.
pub open spec fn reaches_within(g: Seq<Vec<usize>>, u: usize, v: usize, d: nat) -> bool {
    exists|p: Seq<usize>| #[trigger] path_between(g, p, u, v) && p.len() <= d + 1
}

/// The number of unset entries.
pub open spec fn count_unset(s: Seq<bool>) -> nat
    decreases s.len(),
{
    if s.len() == 0 {
        0
    } else {
        count_unset(s.drop_last()) + if s.last() {
            0nat
        } else {
            1nat
        }
    }
}

proof fn lemma_count_unset_set(s: Seq<bool>, i: int)
    requires
        0 <= i < s.len(),
        !s[i],
    ensures
        count_unset(s.update(i, true)) + 1 == count_unset(s),
    decreases s.len(),
{
    let t = s.update(i, true);
    if i == s.len() - 1 {
        assert(t.drop_last() =~= s.drop_last());
    } else {
        lemma_count_unset_set(s.drop_last(), i);
        assert(t.drop_last() =~= s.drop_last().update(i, true));
    }
}

proof fn lemma_count_unset_all(s: Seq<bool>)
    requires
        forall|i: int| 0 <= i < s.len() ==> !s[i],
    ensures
        count_unset(s) == s.len(),
    decreases s.len(),
{
    if s.len() > 0 {
        lemma_count_unset_all(s.drop_last());
    }
}

/// The walk of one node.
pub proof fn lemma_reaches_self(g: Seq<Vec<usize>>, u: usize)
    requires
        u < g.len(),
    ensures
        reaches(g, u, u),
        reaches_within(g, u, u, 0),
{
    let p = seq![u];
    assert(path_between(g, p, u, u));
}

proof fn lemma_path_push(g: Seq<Vec<usize>>, p: Seq<usize>, u: usize, a: usize, b: usize)
    requires
        path_between(g, p, u, a),
        edge(g, a, b),
    ensures
        path_between(g, p.push(b), u, b),
{
    let q = p.push(b);
    assert forall|i: int| 0 <= i < q.len() - 1 implies #[trigger] edge(g, q[i], q[i + 1]) by {
        if i < p.len() - 1 {
            assert(q[i] == p[i] && q[i + 1] == p[i + 1]);
        } else {
            assert(q[i] == a && q[i + 1] == b);
        }
    }
}

proof fn lemma_reaches_step(g: Seq<Vec<usize>>, u: usize, a: usize, b: usize)
    requires
        reaches(g, u, a),
        edge(g, a, b),
    ensures
        reaches(g, u, b),
{
    let p = choose|p: Seq<usize>| path_between(g, p, u, a);
    lemma_path_push(g, p, u, a, b);
}

/// Along a walk from a node of a set closed under successors, in which no
/// edge raises the distance by more than one, the distance grows by at most
/// one per edge.
proof fn lemma_relaxed_bound(g: Seq<Vec<usize>>, vis: Seq<bool>, dist: Seq<int>, p: Seq<usize>)
    requires
        graph_wf(g),
        vis.len() == g.len(),
        dist.len() == g.len(),
        forall|a: int, j: int|
            0 <= a < g.len() && vis[a] && 0 <= j < g[a]@.len() ==> vis[#[trigger] g[a]@[j] as int] && dist[g[a]@[j] as int]
                <= dist[a] + 1,
        is_path(g, p),
        vis[p[0] as int],
    ensures
        vis[p.last() as int],
        dist[p.last() as int] <= dist[p[0] as int] + p.len() - 1,
    decreases p.len(),
{
    if p.len() > 1 {
        let q = p.drop_last();
        assert forall|i: int| 0 <= i < q.len() - 1 implies #[trigger] edge(g, q[i], q[i + 1]) by {
            assert(edge(g, p[i], p[i + 1]));
        }
        lemma_relaxed_bound(g, vis, dist, q);
        let i = p.len() - 2;
        assert(edge(g, p[i], p[i + 1]));
        let a = p[i];
        let j = choose|j: int| 0 <= j < g[a as int]@.len() && g[a as int]@[j] == p.last();
        assert(vis[g[a as int]@[j] as int]);
    }
}

/// A shortest walk repeats no node: cutting out a cycle would shorten it.
proof fn lemma_shortest_no_repeat(g: Seq<Vec<usize>>, p: Seq<usize>, u: usize, v: usize)
    requires
        path_between(g, p, u, v),
        forall|q: Seq<usize>| #[trigger] path_between(g, q, u, v) ==> p.len() <= q.len(),
    ensures
        p.no_duplicates(),
{
    assert forall|i: int, j: int| 0 <= i < j < p.len() implies p[i] != p[j] by {
        if p[i] == p[j] {
            let q = p.subrange(0, i) + p.subrange(j, p.len() as int);
            assert(q.len() == p.len() - (j - i));
            assert(q[0] == p[0]);
            assert(q.last() == p.last());
            assert forall|k: int| 0 <= k < q.len() - 1 implies #[trigger] edge(g, q[k], q[k + 1]) by {
                if k < i - 1 {
                    assert(q[k] == p[k] && q[k + 1] == p[k + 1]);
                    assert(edge(g, p[k], p[k + 1]));
                } else if k == i - 1 {
                    assert(q[k] == p[i - 1] && q[k + 1] == p[j]);
                    assert(edge(g, p[i - 1], p[(i - 1) + 1]));
                } else {
                    assert(q[k] == p[k - i + j] && q[k + 1] == p[k - i + j + 1]);
                    assert(edge(g, p[k - i + j], p[(k - i + j) + 1]));
                }
            }
            assert(path_between(g, q, u, v));
        }
    }
}

/// A set holding `p[0]` and closed under successors holds the whole walk.
proof fn lemma_closed_holds_path(g: Seq<Vec<usize>>, vis: Seq<bool>, p: Seq<usize>)
    requires
        graph_wf(g),
        vis.len() == g.len(),
        forall|a: int, j: int|
            0 <= a < g.len() && vis[a] && 0 <= j < g[a]@.len() ==> vis[#[trigger] g[a]@[j] as int],
        is_path(g, p),
        vis[p[0] as int],
    ensures
        vis[p.last() as int],
    decreases p.len(),
{
    if p.len() > 1 {
        let q = p.drop_last();
        assert forall|i: int| 0 <= i < q.len() - 1 implies #[trigger] edge(g, q[i], q[i + 1]) by {
            assert(edge(g, p[i], p[i + 1]));
        }
        lemma_closed_holds_path(g, vis, q);
        let i = p.len() - 2;
        assert(edge(g, p[i], p[i + 1]));
        let a = p[i];
        let j = choose|j: int| 0 <= j < g[a as int]@.len() && g[a as int]@[j] == p.last();
        assert(vis[g[a as int]@[j] as int]);
    }
}

/// Breadth-first search from `from`: the nodes it reaches, each with the node
/// it was first reached from; in ghost state the order in which nodes were
/// reached and their distance in edges.
fn search(g: &Vec<Vec<usize>>, from: usize) -> (res: (Vec<bool>, Vec<usize>, Ghost<Seq<int>>, Ghost<Seq<int>>))
    requires
        graph_wf(g@),
        from < g@.len(),
    ensures
        res.0@.len() == g@.len(),
        res.1@.len() == g@.len(),
        res.2@.len() == g@.len(),
        forall|v: usize| v < g@.len() ==> (res.0@[v as int] <==> reaches(g@, from, v)),
        res.2@[from as int] == 0,
        res.3@.len() == g@.len(),
        res.3@[from as int] == 0,
        forall|v: usize|
            v < g@.len() && res.0@[v as int] && v != from ==> {
                let w = #[trigger] res.1@[v as int];
                &&& w < g@.len()
                &&& res.0@[w as int]
                &&& edge(g@, w, v)
                &&& 0 <= res.2@[w as int] < res.2@[v as int]
                &&& res.3@[w as int] + 1 == res.3@[v as int]
            },
        forall|v: usize, q: Seq<usize>| #[trigger] path_between(g@, q, from, v) ==> res.3@[v as int] <= q.len() - 1,
{
    let n = g.len();
    let mut visited: Vec<bool> = Vec::new();
    let mut parent: Vec<usize> = Vec::new();
    let mut k: usize = 0;
    while k < n
        invariant
            k <= n,
            visited@.len() == k,
            parent@.len() == k,
            forall|i: int| 0 <= i < k ==> !visited@[i],
        decreases n - k,
    {
        visited.push(false);
        parent.push(from);
        k = k + 1;
    }
    let ghost mut order: Seq<int> = Seq::new(n as nat, |i: int| 0int);
    let ghost mut dist: Seq<int> = Seq::new(n as nat, |i: int| 0int);
    proof {
        lemma_count_unset_all(visited@);
        lemma_count_unset_set(visited@, from as int);
        lemma_reaches_self(g@, from);
    }
    visited.set(from, true);
    let mut queue: Vec<usize> = Vec::new();
    queue.push(from);
    let mut head: usize = 0;
    while head < queue.len()
        invariant
            graph_wf(g@),
            n == g@.len(),
            from < n,
            visited@.len() == n,
            parent@.len() == n,
            order.len() == n,
            dist.len() == n,
            head <= queue@.len(),
            queue@.len() + count_unset(visited@) == n,
            visited@[from as int],
            order[from as int] == 0,
            dist[from as int] == 0,
            forall|i: int, k: int| 0 <= i <= k < queue@.len() ==> dist[#[trigger] queue@[i] as int] <= dist[#[trigger] queue@[k] as int],
            head < queue@.len() ==> forall|k: int| head <= k < queue@.len() ==> dist[#[trigger] queue@[k] as int] <= dist[queue@[head as int] as int] + 1,
            forall|i: int| 0 <= i < queue@.len() ==> (#[trigger] queue@[i]) < n && visited@[queue@[i] as int]
                && order[queue@[i] as int] == i,
            forall|v: usize| v < n && visited@[v as int] ==> 0 <= order[v as int] < queue@.len()
                && queue@[order[v as int]] == v,
            forall|v: usize| v < n && visited@[v as int] ==> reaches(g@, from, v),
            forall|v: usize|
                v < n && visited@[v as int] && v != from ==> {
                    let w = #[trigger] parent@[v as int];
                    &&& w < n
                    &&& visited@[w as int]
                    &&& edge(g@, w, v)
                    &&& 0 <= order[w as int] < order[v as int]
                    &&& dist[w as int] + 1 == dist[v as int]
                },
            forall|i: int, j: int|
                0 <= i < head && 0 <= j < g@[queue@[i] as int]@.len() ==> visited@[#[trigger] g@[
                    queue@[i] as int]@[j] as int] && dist[g@[queue@[i] as int]@[j] as int] <= dist[queue@[i] as int] + 1,
        decreases n - head,
    {
        let cur = queue[head];
        let nbrs = &g[cur];
        let mut j: usize = 0;
        while j < nbrs.len()
            invariant
                graph_wf(g@),
                n == g@.len(),
                from < n,
                cur < n,
                nbrs@ == g@[cur as int]@,
                cur == queue@[head as int],
                visited@.len() == n,
                parent@.len() == n,
                order.len() == n,
                dist.len() == n,
                head < queue@.len(),
                queue@.len() + count_unset(visited@) == n,
                visited@[from as int],
                visited@[cur as int],
                order[from as int] == 0,
                order[cur as int] == head,
                dist[from as int] == 0,
                forall|i: int, k: int| 0 <= i <= k < queue@.len() ==> dist[#[trigger] queue@[i] as int] <= dist[#[trigger] queue@[k] as int],
                forall|k: int| head <= k < queue@.len() ==> dist[#[trigger] queue@[k] as int] <= dist[cur as int] + 1,
                j <= nbrs@.len(),
                forall|i: int| 0 <= i < queue@.len() ==> (#[trigger] queue@[i]) < n && visited@[queue@[i] as int]
                    && order[queue@[i] as int] == i,
                forall|v: usize| v < n && visited@[v as int] ==> 0 <= order[v as int] < queue@.len()
                    && queue@[order[v as int]] == v,
                forall|v: usize| v < n && visited@[v as int] ==> reaches(g@, from, v),
                forall|v: usize|
                    v < n && visited@[v as int] && v != from ==> {
                        let w = #[trigger] parent@[v as int];
                        &&& w < n
                        &&& visited@[w as int]
                        &&& edge(g@, w, v)
                        &&& 0 <= order[w as int] < order[v as int]
                        &&& dist[w as int] + 1 == dist[v as int]
                    },
                forall|i: int, jj: int|
                    0 <= i < head && 0 <= jj < g@[queue@[i] as int]@.len() ==> visited@[#[trigger] g@[
                        queue@[i] as int]@[jj] as int] && dist[g@[queue@[i] as int]@[jj] as int] <= dist[queue@[i] as int] + 1,
                forall|jj: int| 0 <= jj < j ==> visited@[#[trigger] nbrs@[jj] as int] && dist[nbrs@[jj] as int] <= dist[cur as int] + 1,
            decreases nbrs@.len() - j,
        {
            let nx = nbrs[j];
            assert(g@[cur as int]@[j as int] == nx);
            if !visited[nx] {
                proof {
                    lemma_count_unset_set(visited@, nx as int);
                    assert(edge(g@, cur, nx));
                    lemma_reaches_step(g@, from, cur, nx);
                    order = order.update(nx as int, queue@.len() as int);
                    dist = dist.update(nx as int, dist[cur as int] + 1);
                }
                visited.set(nx, true);
                parent.set(nx, cur);
                queue.push(nx);
            } else {
                proof {
                    let i = order[nx as int];
                    assert(queue@[i] == nx);
                    if i <= head {
                        assert(dist[queue@[i] as int] <= dist[queue@[head as int] as int]);
                    }
                }
            }
            j = j + 1;
        }
        proof {
            if head + 1 < queue@.len() {
                assert(dist[queue@[head as int] as int] <= dist[queue@[head + 1] as int]);
            }
        }
        head = head + 1;
    }
    proof {
        assert forall|v: usize| v < n && reaches(g@, from, v) implies visited@[v as int] by {
            let p = choose|p: Seq<usize>| path_between(g@, p, from, v);
            assert forall|a: int, jj: int|
                0 <= a < g@.len() && visited@[a] && 0 <= jj < g@[a]@.len() implies visited@[
                #[trigger] g@[a]@[jj] as int] by {
                let i = order[a];
                assert(queue@[i] == a as usize);
            }
            lemma_closed_holds_path(g@, visited@, p);
        }
        assert forall|a: int, jj: int|
            0 <= a < g@.len() && visited@[a] && 0 <= jj < g@[a]@.len() implies visited@[#[trigger] g@[a]@[jj] as int]
                && dist[g@[a]@[jj] as int] <= dist[a] + 1 by {
            let i = order[a];
            assert(queue@[i] == a as usize);
        }
        assert forall|v: usize, q: Seq<usize>| #[trigger] path_between(g@, q, from, v) implies dist[v as int] <= q.len() - 1 by {
            lemma_relaxed_bound(g@, visited@, dist, q);
        }
    }
    (visited, parent, Ghost(order), Ghost(dist))
}

/// The nodes that `from` reaches.
pub fn reachable_from(g: &Vec<Vec<usize>>, from: usize) -> (vis: Vec<bool>)
    requires
        graph_wf(g@),
        from < g@.len(),
    ensures
        vis@.len() == g@.len(),
        forall|v: usize| v < g@.len() ==> (vis@[v as int] <==> reaches(g@, from, v)),
{
    let (vis, _parent, _order, _dist) = search(g, from);
    vis
}

/// A walk from `from` to `target` along the search tree, if there is any.
pub fn path_to(g: &Vec<Vec<usize>>, from: usize, target: usize) -> (r: Option<Vec<usize>>)
    requires
        graph_wf(g@),
        from < g@.len(),
        target < g@.len(),
    ensures
        r.is_some() <==> reaches(g@, from, target),
        r matches Some(p) ==> path_between(g@, p@, from, target),
        r matches Some(p) ==> forall|q: Seq<usize>| #[trigger] path_between(g@, q, from, target) ==> p@.len() <= q.len(),
        r matches Some(p) ==> p@.no_duplicates(),
        from == target ==> (r matches Some(p) && p@ == seq![from]),
{
    let (vis, parent, order, dist) = search(g, from);
    proof {
        lemma_reaches_self(g@, from);
    }
    if !vis[target] {
        return None;
    }
    let mut path: Vec<usize> = Vec::new();
    path.push(target);
    let mut step = target;
    proof {
        assert(path_between(g@, path@, step, target));
        if target != from {
            let w = parent@[target as int];
        }
    }
    while step != from
        invariant
            graph_wf(g@),
            from < g@.len(),
            step < g@.len(),
            vis@.len() == g@.len(),
            parent@.len() == g@.len(),
            order@.len() == g@.len(),
            dist@.len() == g@.len(),
            vis@[step as int],
            order@[from as int] == 0,
            dist@[from as int] == 0,
            0 <= order@[step as int],
            path_between(g@, path@, step, target),
            path@.len() == dist@[target as int] - dist@[step as int] + 1,
            forall|v: usize|
                v < g@.len() && vis@[v as int] && v != from ==> {
                    let w = #[trigger] parent@[v as int];
                    &&& w < g@.len()
                    &&& vis@[w as int]
                    &&& edge(g@, w, v)
                    &&& 0 <= order@[w as int] < order@[v as int]
                    &&& dist@[w as int] + 1 == dist@[v as int]
                },
        decreases order@[step as int],
    {
        let prev = parent[step];
        proof {
            let q = seq![prev] + path@;
            assert forall|i: int| 0 <= i < q.len() - 1 implies #[trigger] edge(g@, q[i], q[i + 1]) by {
                if i > 0 {
                    assert(q[i] == path@[i - 1] && q[i + 1] == path@[i]);
                    assert(edge(g@, path@[i - 1], path@[(i - 1) + 1]));
                }
            }
            assert(path_between(g@, q, prev, target));
        }
        let ghost before = path@;
        path.insert(0, prev);
        proof {
            assert(path@ =~= seq![prev] + before);
        }
        step = prev;
    }
    proof {
        assert forall|q: Seq<usize>| #[trigger] path_between(g@, q, from, target) implies path@.len() <= q.len() by {}
        lemma_shortest_no_repeat(g@, path@, from, target);
        if from == target {
            lemma_reaches_self(g@, from);
            assert(path_between(g@, seq![from], from, target));
            assert(path@.len() == 1);
            assert(path@ =~= seq![from]);
        }
    }
    Some(path)
}

/// Some node of `cur` below `upto` has an edge to `v`.
pub open spec fn steps_into(g: Seq<Vec<usize>>, cur: Seq<bool>, upto: int, v: usize) -> bool {
    exists|b: usize| b < upto && cur[b as int] && #[trigger] edge(g, b, v)
}

proof fn lemma_within_zero(g: Seq<Vec<usize>>, u: usize, v: usize)
    requires
        u < g.len(),
    ensures
        reaches_within(g, u, v, 0) <==> v == u,
{
    if v == u {
        lemma_reaches_self(g, u);
    }
}

/// One more edge: the walks of `d + 1` edges end where those of `d` edges end
/// or one edge further.
proof fn lemma_within_succ(g: Seq<Vec<usize>>, u: usize, v: usize, d: nat)
    requires
        u < g.len(),
    ensures
        reaches_within(g, u, v, d + 1) <==> (reaches_within(g, u, v, d) || exists|a: usize|
            reaches_within(g, u, a, d) && #[trigger] edge(g, a, v)),
{
    if reaches_within(g, u, v, d + 1) && !reaches_within(g, u, v, d) {
        let p = choose|p: Seq<usize>| #[trigger] path_between(g, p, u, v) && p.len() <= d + 2;
        assert(p.len() == d + 2);
        let q = p.drop_last();
        let a = q.last();
        assert forall|i: int| 0 <= i < q.len() - 1 implies #[trigger] edge(g, q[i], q[i + 1]) by {
            assert(edge(g, p[i], p[i + 1]));
        }
        assert(path_between(g, q, u, a));
        assert(edge(g, p[q.len() - 1], p[q.len() - 1 + 1]));
        assert(reaches_within(g, u, a, d) && edge(g, a, v));
    }
    if exists|a: usize| reaches_within(g, u, a, d) && #[trigger] edge(g, a, v) {
        let a = choose|a: usize| reaches_within(g, u, a, d) && #[trigger] edge(g, a, v);
        let p = choose|p: Seq<usize>| #[trigger] path_between(g, p, u, a) && p.len() <= d + 1;
        lemma_path_push(g, p, u, a, v);
        assert(path_between(g, p.push(v), u, v));
    }
    if reaches_within(g, u, v, d) {
        let p = choose|p: Seq<usize>| #[trigger] path_between(g, p, u, v) && p.len() <= d + 1;
        assert(path_between(g, p, u, v) && p.len() <= d + 2);
    }
}

/// The nodes that `from` reaches in at most `depth` edges.
pub fn reachable_within(g: &Vec<Vec<usize>>, from: usize, depth: usize) -> (vis: Vec<bool>)
    requires
        graph_wf(g@),
        from < g@.len(),
    ensures
        vis@.len() == g@.len(),
        forall|v: usize| v < g@.len() ==> (vis@[v as int] <==> reaches_within(g@, from, v, depth as nat)),
{
    let n = g.len();
    let mut cur: Vec<bool> = Vec::new();
    let mut k: usize = 0;
    while k < n
        invariant
            k <= n,
            cur@.len() == k,
            forall|i: int| 0 <= i < k ==> !cur@[i],
        decreases n - k,
    {
        cur.push(false);
        k = k + 1;
    }
    cur.set(from, true);
    proof {
        assert forall|v: usize| v < n implies (cur@[v as int] <==> reaches_within(g@, from, v, 0)) by {
            lemma_within_zero(g@, from, v);
        }
    }
    let mut d: usize = 0;
    while d < depth
        invariant
            graph_wf(g@),
            n == g@.len(),
            from < n,
            d <= depth,
            cur@.len() == n,
            forall|v: usize| v < n ==> (cur@[v as int] <==> reaches_within(g@, from, v, d as nat)),
        decreases depth - d,
    {
        let mut next: Vec<bool> = Vec::new();
        let mut k: usize = 0;
        while k < n
            invariant
                k <= n,
                cur@.len() == n,
                next@.len() == k,
                forall|i: int| 0 <= i < k ==> next@[i] == cur@[i],
            decreases n - k,
        {
            next.push(cur[k]);
            k = k + 1;
        }
        let mut a: usize = 0;
        while a < n
            invariant
                graph_wf(g@),
                n == g@.len(),
                a <= n,
                cur@.len() == n,
                next@.len() == n,
                forall|v: usize| v < n ==> (next@[v as int] <==> (cur@[v as int] || steps_into(g@, cur@, a as int, v))),
            decreases n - a,
        {
            if cur[a] {
                let nbrs = &g[a];
                let mut j: usize = 0;
                while j < nbrs.len()
                    invariant
                        graph_wf(g@),
                        n == g@.len(),
                        a < n,
                        cur@[a as int],
                        nbrs@ == g@[a as int]@,
                        j <= nbrs@.len(),
                        cur@.len() == n,
                        next@.len() == n,
                        forall|v: usize| v < n ==> (next@[v as int] <==> (cur@[v as int] || steps_into(g@, cur@, a as int, v)
                            || exists|jj: int| 0 <= jj < j && nbrs@[jj] == v)),
                    decreases nbrs@.len() - j,
                {
                    let w = nbrs[j];
                    assert(g@[a as int]@[j as int] == w);
                    next.set(w, true);
                    proof {
                        assert forall|v: usize| v < n implies (next@[v as int] <==> (cur@[v as int] || steps_into(g@, cur@, a as int, v)
                            || exists|jj: int| 0 <= jj < j + 1 && nbrs@[jj] == v)) by {
                            if v == w {
                                assert(nbrs@[j as int] == v);
                            } else if exists|jj: int| 0 <= jj < j + 1 && nbrs@[jj] == v {
                                let jj = choose|jj: int| 0 <= jj < j + 1 && nbrs@[jj] == v;
                                assert(jj < j);
                            }
                        }
                    }
                    j = j + 1;
                }
                proof {
                    assert forall|v: usize| v < n implies (next@[v as int] <==> (cur@[v as int] || steps_into(g@, cur@, a + 1, v))) by {
                        if steps_into(g@, cur@, a + 1, v) && !steps_into(g@, cur@, a as int, v) {
                            let b = choose|b: usize| b < a + 1 && cur@[b as int] && #[trigger] edge(g@, b, v);
                            assert(b == a);
                            assert(g@[a as int]@.contains(v));
                        }
                        if exists|jj: int| 0 <= jj < nbrs@.len() && nbrs@[jj] == v {
                            assert(edge(g@, a, v));
                        }
                    }
                }
            } else {
                proof {
                    assert forall|v: usize| v < n implies (next@[v as int] <==> (cur@[v as int] || steps_into(g@, cur@, a + 1, v))) by {
                        if steps_into(g@, cur@, a + 1, v) && !steps_into(g@, cur@, a as int, v) {
                            let b = choose|b: usize| b < a + 1 && cur@[b as int] && #[trigger] edge(g@, b, v);
                            assert(b == a);
                        }
                    }
                }
            }
            a = a + 1;
        }
        proof {
            assert forall|v: usize| v < n implies (next@[v as int] <==> reaches_within(g@, from, v, (d + 1) as nat)) by {
                lemma_within_succ(g@, from, v, d as nat);
                if exists|b: usize| reaches_within(g@, from, b, d as nat) && #[trigger] edge(g@, b, v) {
                    let b = choose|b: usize| reaches_within(g@, from, b, d as nat) && #[trigger] edge(g@, b, v);
                    assert(b < n);
                    assert(steps_into(g@, cur@, n as int, v));
                }
            }
        }
        cur = next;
        d = d + 1;
    }
    cur
}

/// Whether `x` is listed.
pub fn list_contains(v: &Vec<usize>, x: usize) -> (r: bool)
    ensures
        r == v@.contains(x),
{
    let mut i: usize = 0;
    while i < v.len()
        invariant
            i <= v@.len(),
            forall|k: int| 0 <= k < i ==> v@[k] != x,
        decreases v@.len() - i,
    {
        if v[i] == x {
            return true;
        }
        i = i + 1;
    }
    false
}

/// Every node reaches itself.
pub proof fn lemma_reachability_reflexive(g: Seq<Vec<usize>>, s: usize)
    requires
        s < g.len(),
    ensures
        reaches(g, s, s),
{
    lemma_reaches_self(g, s);
}

/// `sub` occurs in `arr` as a run of consecutive entries.
pub open spec fn occurs_in(sub: Seq<usize>, arr: Seq<usize>) -> bool {
    exists|i: int| 0 <= i && i + sub.len() <= arr.len() && #[trigger] arr.subrange(i, i + sub.len()) == sub
}

/// Whether `sub`, of more than three blocks, occurs in `arr`: two paths that
/// share such a stretch run together rather than part early.
pub fn is_subarray(sub: &[usize], arr: &[usize]) -> (r: bool)
    ensures
        r == (sub@.len() > 3 && occurs_in(sub@, arr@)),
{
    if sub.len() <= 3 {
        return false;
    }
    if sub.len() > arr.len() {
        proof {
            assert forall|i: int| 0 <= i && i + sub@.len() <= arr@.len() implies #[trigger] arr@.subrange(
                i,
                i + sub@.len(),
            ) != sub@ by {}
        }
        return false;
    }
    let n = arr.len();
    let m = sub.len();
    let mut i: usize = 0;
    while i <= n - m
        invariant
            n == arr@.len(),
            m == sub@.len(),
            m > 3,
            m <= n,
            i <= n - m + 1,
            forall|k: int| 0 <= k < i ==> #[trigger] arr@.subrange(k, k + m) != sub@,
        decreases n - m + 1 - i,
    {
        let mut j: usize = 0;
        let mut same = true;
        while j < m
            invariant
                n == arr@.len(),
                m == sub@.len(),
                i + m <= n,
                j <= m,
                same == (forall|k: int| 0 <= k < j ==> arr@[i + k] == sub@[k]),
                !same ==> exists|k: int| 0 <= k < m && arr@[i + k] != sub@[k],
            decreases m - j,
        {
            if arr[i + j] != sub[j] {
                same = false;
            }
            j = j + 1;
        }
        if same {
            assert(arr@.subrange(i as int, i + m) =~= sub@);
            assert(arr@.subrange(i as int, i + sub@.len()) == sub@);
            return true;
        }
        proof {
            let k = choose|k: int| 0 <= k < m && arr@[i + k] != sub@[k];
            assert(arr@.subrange(i as int, i + m)[k] != sub@[k]);
        }
        i = i + 1;
    }
    proof {
        assert forall|k: int| 0 <= k && k + sub@.len() <= arr@.len() implies #[trigger] arr@.subrange(
            k,
            k + sub@.len(),
        ) != sub@ by {
            assert(k < i);
        }
    }
    false
}

} // verus!
