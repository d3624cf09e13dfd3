//! The schedule dependency graph: an edge `task_id -> depends_on_task_id`
//! says that `task_id` cannot proceed before `depends_on_task_id`.
use vstd::prelude::*;

verus! {

broadcast use vstd::seq_lib::group_seq_properties;

/// One dependency edge: `task_id` depends on `depends_on_task_id`.
#[derive(Clone, Copy, Debug, PartialEq, Eq, Structural)]
pub struct Dependency {
    pub task_id: u128,
    pub depends_on_task_id: u128,
}

/// `edges` holds an edge from `x` to `y` (x depends on y).
pub open spec fn has_edge(edges: Seq<Dependency>, x: u128, y: u128) -> bool {
    exists|i: int| 0 <= i < edges.len() && #[trigger] edges[i] == Dependency { task_id: x, depends_on_task_id: y }
}

/// `p` is a walk of at least one edge through `edges`.
pub open spec fn is_walk(edges: Seq<Dependency>, p: Seq<u128>) -> bool {
    &&& p.len() >= 2
    &&& forall|i: int| 0 <= i < p.len() - 1 ==> #[trigger] has_edge(edges, p[i], p[i + 1])
}

/// `b` is reachable from `a` by following at least one edge.
pub open spec fn reaches(edges: Seq<Dependency>, a: u128, b: u128) -> bool {
    exists|p: Seq<u128>| #[trigger] is_walk(edges, p) && p[0] == a && p.last() == b
}

/// No task (transitively) depends on itself.
pub open spec fn acyclic(edges: Seq<Dependency>) -> bool {
    forall|x: u128| !#[trigger] reaches(edges, x, x)
}

/// Whether a walk of at least one edge leads from `a` to `b`, or `a == b`.
pub open spec fn reaches_or_same(edges: Seq<Dependency>, a: u128, b: u128) -> bool {
    a == b || reaches(edges, a, b)
}

proof fn lemma_edge_walk(edges: Seq<Dependency>, x: u128, y: u128)
    requires
        has_edge(edges, x, y),
    ensures
        reaches(edges, x, y),
{
    let p = seq![x, y];
    assert(has_edge(edges, p[0], p[1]));
    assert(is_walk(edges, p));
}

proof fn lemma_walk_concat(edges: Seq<Dependency>, p: Seq<u128>, q: Seq<u128>)
    requires
        is_walk(edges, p),
        is_walk(edges, q),
        p.last() == q[0],
    ensures
        is_walk(edges, p + q.drop_first()),
        (p + q.drop_first())[0] == p[0],
        (p + q.drop_first()).last() == q.last(),
{
    let r = p + q.drop_first();
    assert forall|i: int| 0 <= i < r.len() - 1 implies #[trigger] has_edge(edges, r[i], r[i + 1]) by {
        if i < p.len() - 1 {
            assert(r[i] == p[i] && r[i + 1] == p[i + 1]);
        } else {
            let j = i - (p.len() - 1);
            assert(r[i] == q[j]);
            assert(r[i + 1] == q[j + 1]);
            assert(has_edge(edges, q[j], q[j + 1]));
        }
    }
}

/// Reachability is transitive.
pub proof fn lemma_reaches_transitive(edges: Seq<Dependency>, a: u128, b: u128, c: u128)
    requires
        reaches(edges, a, b),
        reaches(edges, b, c),
    ensures
        reaches(edges, a, c),
{
    let p = choose|p: Seq<u128>| #[trigger] is_walk(edges, p) && p[0] == a && p.last() == b;
    let q = choose|q: Seq<u128>| #[trigger] is_walk(edges, q) && q[0] == b && q.last() == c;
    lemma_walk_concat(edges, p, q);
    let r = p + q.drop_first();
    assert(is_walk(edges, r) && r[0] == a && r.last() == c);
}

proof fn lemma_reaches_or_same_transitive(edges: Seq<Dependency>, a: u128, b: u128, c: u128)
    requires
        reaches_or_same(edges, a, b),
        reaches_or_same(edges, b, c),
    ensures
        reaches_or_same(edges, a, c),
{
    if a != b && b != c {
        lemma_reaches_transitive(edges, a, b, c);
    }
}

/// Every edge `x -> y` with `x` reachable from `a` extends the reach to `y`.
proof fn lemma_reaches_step(edges: Seq<Dependency>, a: u128, x: u128, y: u128)
    requires
        reaches_or_same(edges, a, x),
        has_edge(edges, x, y),
    ensures
        reaches(edges, a, y),
{
    lemma_edge_walk(edges, x, y);
    if a != x {
        lemma_reaches_transitive(edges, a, x, y);
    }
}

/// A walk in the graph extended by the edge `t -> d` either avoids that edge
/// or passes through it: then it reaches `t` first and continues from `d`.
proof fn lemma_walk_with_new_edge(edges: Seq<Dependency>, t: u128, d: u128, p: Seq<u128>)
    requires
        is_walk(edges.push(Dependency { task_id: t, depends_on_task_id: d }), p),
    ensures
        reaches(edges, p[0], p.last()) || (reaches_or_same(edges, p[0], t) && reaches_or_same(
            edges,
            d,
            p.last(),
        )),
    decreases p.len(),
{
    let new_edges = edges.push(Dependency { task_id: t, depends_on_task_id: d });
    let n = p.len();
    let last = n - 2;
    let x = p[last];
    let y = p[last + 1];
    assert(has_edge(new_edges, p[last], p[last + 1]));
    let k = choose|k: int|
        0 <= k < new_edges.len() && #[trigger] new_edges[k] == Dependency {
            task_id: x,
            depends_on_task_id: y,
        };
    let old_edge = k < edges.len();
    if old_edge {
        assert(edges[k] == new_edges[k]);
        assert(has_edge(edges, x, y));
    }
    if n == 2 {
        if old_edge {
            lemma_edge_walk(edges, x, y);
        } else {
            assert(x == t && y == d);
        }
    } else {
        let q = p.drop_last();
        assert forall|i: int| 0 <= i < q.len() - 1 implies #[trigger] has_edge(new_edges, q[i], q[i + 1]) by {
            assert(q[i] == p[i] && q[i + 1] == p[i + 1]);
            assert(has_edge(new_edges, p[i], p[i + 1]));
        }
        lemma_walk_with_new_edge(edges, t, d, q);
        assert(q[0] == p[0] && q.last() == x);
        if old_edge {
            if reaches(edges, p[0], x) {
                lemma_reaches_step(edges, p[0], x, y);
            } else {
                lemma_reaches_step(edges, d, x, y);
            }
        } else {
            assert(x == t && y == d);
            if reaches(edges, p[0], x) {
                assert(reaches_or_same(edges, p[0], t));
            }
        }
    }
}

/// Law: refusing exactly the edges that close a cycle keeps the dependency
/// graph acyclic. If the graph is acyclic, `t != d`, and `t` is not reachable
/// from `d`, then the graph with the extra edge `t -> d` is still acyclic.
pub proof fn lemma_insert_keeps_acyclic(edges: Seq<Dependency>, t: u128, d: u128)
    requires
        acyclic(edges),
        t != d,
        !reaches(edges, d, t),
    ensures
        acyclic(edges.push(Dependency { task_id: t, depends_on_task_id: d })),
{
    let new_edges = edges.push(Dependency { task_id: t, depends_on_task_id: d });
    assert forall|x: u128| !#[trigger] reaches(new_edges, x, x) by {
        if reaches(new_edges, x, x) {
            let p = choose|p: Seq<u128>| #[trigger] is_walk(new_edges, p) && p[0] == x && p.last() == x;
            lemma_walk_with_new_edge(edges, t, d, p);
            if !reaches(edges, x, x) {
                lemma_reaches_or_same_transitive(edges, d, x, t);
            }
        }
    }
}

fn contains_id(v: &Vec<u128>, x: u128) -> (r: bool)
    ensures
        r == v@.contains(x),
{
    let mut i: usize = 0;
    while i < v.len()
        invariant
            i <= v.len(),
            forall|j: int| 0 <= j < i ==> v@[j] != x,
        decreases v.len() - i,
    {
        if v[i] == x {
            return true;
        }
        i = i + 1;
    }
    false
}

/// The set of tasks that appear as the target of some edge.
spec fn targets(edges: Seq<Dependency>) -> Set<u128> {
    Set::new(|y: u128| exists|i: int| 0 <= i < edges.len() && #[trigger] edges[i].depends_on_task_id == y)
}

proof fn lemma_targets_finite_len(edges: Seq<Dependency>)
    ensures
        targets(edges).finite(),
        targets(edges).len() <= edges.len(),
    decreases edges.len(),
{
    if edges.len() == 0 {
        assert(targets(edges) =~= Set::empty());
    } else {
        let init = edges.drop_last();
        lemma_targets_finite_len(init);
        assert(targets(edges) =~= targets(init).insert(edges.last().depends_on_task_id)) by {
            assert forall|y: u128| targets(edges).contains(y) implies targets(init).insert(
                edges.last().depends_on_task_id,
            ).contains(y) by {
                let i = choose|i: int| 0 <= i < edges.len() && #[trigger] edges[i].depends_on_task_id == y;
                if i < init.len() {
                    assert(init[i] == edges[i]);
                }
            }
            assert forall|y: u128| targets(init).insert(edges.last().depends_on_task_id).contains(y) implies targets(
                edges,
            ).contains(y) by {
                if y != edges.last().depends_on_task_id {
                    let i = choose|i: int| 0 <= i < init.len() && #[trigger] init[i].depends_on_task_id == y;
                    assert(edges[i] == init[i]);
                } else {
                    assert(edges[edges.len() - 1].depends_on_task_id == y);
                }
            }
        }
    }
}

proof fn lemma_distinct_targets_bound(edges: Seq<Dependency>, r: Seq<u128>)
    requires
        r.no_duplicates(),
        forall|i: int| 0 <= i < r.len() ==> targets(edges).contains(#[trigger] r[i]),
    ensures
        r.len() <= edges.len(),
{
    lemma_targets_finite_len(edges);
    r.unique_seq_to_set();
    assert(r.to_set().subset_of(targets(edges))) by {
        assert forall|y: u128| r.to_set().contains(y) implies targets(edges).contains(y) by {
            let i = choose|i: int| 0 <= i < r.len() && r[i] == y;
        }
    }
    vstd::set_lib::lemma_len_subset(r.to_set(), targets(edges));
}

/// Whether adding the edge `task_id -> depends_on_task_id` would close a
/// cycle, i.e. whether `task_id` is already reachable from
/// `depends_on_task_id` by at least one edge.
pub fn would_create_cycle(edges: &Vec<Dependency>, task_id: u128, depends_on_task_id: u128) -> (r: bool)
    ensures
        r == reaches(edges@, depends_on_task_id, task_id),
{
    let ghost es = edges@;
    let mut reached: Vec<u128> = Vec::new();
    // Seed with the direct dependencies of `depends_on_task_id`.
    let mut i: usize = 0;
    while i < edges.len()
        invariant
            i <= edges.len(),
            es == edges@,
            reached@.no_duplicates(),
            forall|k: int| 0 <= k < reached@.len() ==> reaches(es, depends_on_task_id, #[trigger] reached@[k]),
            forall|k: int| 0 <= k < reached@.len() ==> targets(es).contains(#[trigger] reached@[k]),
            forall|j: int|
                0 <= j < i && (#[trigger] es[j]).task_id == depends_on_task_id ==> reached@.contains(
                    es[j].depends_on_task_id,
                ),
        decreases edges.len() - i,
    {
        let e = edges[i];
        if e.task_id == depends_on_task_id && !contains_id(&reached, e.depends_on_task_id) {
            proof {
                assert(es[i as int] == e);
                assert(has_edge(es, depends_on_task_id, e.depends_on_task_id));
                lemma_edge_walk(es, depends_on_task_id, e.depends_on_task_id);
                assert(targets(es).contains(e.depends_on_task_id)) by {
                    assert(es[i as int].depends_on_task_id == e.depends_on_task_id);
                }
            }
            reached.push(e.depends_on_task_id);
        }
        i = i + 1;
    }
    // Close `reached` under following edges.
    let mut changed = true;
    while changed
        invariant
            es == edges@,
            reached@.no_duplicates(),
            forall|k: int| 0 <= k < reached@.len() ==> reaches(es, depends_on_task_id, #[trigger] reached@[k]),
            forall|k: int| 0 <= k < reached@.len() ==> targets(es).contains(#[trigger] reached@[k]),
            forall|j: int|
                0 <= j < es.len() && (#[trigger] es[j]).task_id == depends_on_task_id ==> reached@.contains(
                    es[j].depends_on_task_id,
                ),
            !changed ==> forall|j: int|
                0 <= j < es.len() && reached@.contains((#[trigger] es[j]).task_id) ==> reached@.contains(
                    es[j].depends_on_task_id,
                ),
        decreases edges.len() - reached.len(), if changed { 1int } else { 0int },
    {
        proof {
            lemma_distinct_targets_bound(es, reached@);
        }
        changed = false;
        let ghost start_len = reached.len();
        let mut j: usize = 0;
        while j < edges.len()
            invariant
                j <= edges.len(),
                es == edges@,
                reached@.no_duplicates(),
                reached.len() >= start_len,
                start_len <= es.len(),
                forall|k: int| 0 <= k < reached@.len() ==> reaches(es, depends_on_task_id, #[trigger] reached@[k]),
                forall|k: int| 0 <= k < reached@.len() ==> targets(es).contains(#[trigger] reached@[k]),
                forall|k: int|
                    0 <= k < es.len() && (#[trigger] es[k]).task_id == depends_on_task_id ==> reached@.contains(
                        es[k].depends_on_task_id,
                    ),
                changed <==> reached.len() > start_len,
                !changed ==> forall|k: int|
                    0 <= k < j && reached@.contains((#[trigger] es[k]).task_id) ==> reached@.contains(
                        es[k].depends_on_task_id,
                    ),
            decreases edges.len() - j,
        {
            let e = edges[j];
            if contains_id(&reached, e.task_id) && !contains_id(&reached, e.depends_on_task_id) {
                proof {
                    assert(es[j as int] == e);
                    let k = choose|k: int| 0 <= k < reached@.len() && reached@[k] == e.task_id;
                    assert(reaches(es, depends_on_task_id, reached@[k]));
                    assert(has_edge(es, e.task_id, e.depends_on_task_id));
                    lemma_reaches_step(es, depends_on_task_id, e.task_id, e.depends_on_task_id);
                    assert(targets(es).contains(e.depends_on_task_id)) by {
                        assert(es[j as int].depends_on_task_id == e.depends_on_task_id);
                    }
                }
                reached.push(e.depends_on_task_id);
                changed = true;
            }
            j = j + 1;
        }
        proof {
            if changed {
                lemma_distinct_targets_bound(es, reached@);
            }
        }
    }
    let r = contains_id(&reached, task_id);
    proof {
        if reaches(es, depends_on_task_id, task_id) {
            let p = choose|p: Seq<u128>| #[trigger] is_walk(es, p) && p[0] == depends_on_task_id && p.last() == task_id;
            assert forall|m: int| 1 <= m < p.len() implies reached@.contains(#[trigger] p[m]) by {
                lemma_walk_prefix_reached(es, p, reached@, depends_on_task_id, m);
            }
            assert(reached@.contains(p[p.len() - 1]));
        }
        if r {
            let k = choose|k: int| 0 <= k < reached@.len() && reached@[k] == task_id;
            assert(reaches(es, depends_on_task_id, reached@[k]));
        }
    }
    r
}

proof fn lemma_walk_prefix_reached(es: Seq<Dependency>, p: Seq<u128>, reached: Seq<u128>, a: u128, m: int)
    requires
        is_walk(es, p),
        p[0] == a,
        1 <= m < p.len(),
        forall|j: int|
            0 <= j < es.len() && (#[trigger] es[j]).task_id == a ==> reached.contains(es[j].depends_on_task_id),
        forall|j: int|
            0 <= j < es.len() && reached.contains((#[trigger] es[j]).task_id) ==> reached.contains(
                es[j].depends_on_task_id,
            ),
    ensures
        reached.contains(p[m]),
    decreases m,
{
    let prev = m - 1;
    assert(has_edge(es, p[prev], p[prev + 1]));
    let k = choose|k: int|
        0 <= k < es.len() && #[trigger] es[k] == Dependency { task_id: p[prev], depends_on_task_id: p[prev + 1] };
    if m == 1 {
        assert(es[k].task_id == a);
    } else {
        lemma_walk_prefix_reached(es, p, reached, a, m - 1);
        assert(reached.contains(es[k].task_id));
    }
}

} // verus!
