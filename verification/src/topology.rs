//! Walks, reachability and acyclicity of a graph given by its incoming lists.
//!
//! A graph over the vertices `0..n` is a sequence of `n` lists; list `v` holds
//! the inputs of vertex `v`, that is the vertices with an edge into `v`.  A
//! walk follows edges backwards, from a vertex to one of its inputs.

use vstd::prelude::*;

verus! {

/// The lists of a vector of vectors.
pub open spec fn lists_of(edges: &Vec<Vec<usize>>) -> Seq<Seq<usize>> {
    Seq::new(edges@.len(), |i: int| edges@[i]@)
}

/// Whether every input named in the lists is a vertex.
pub open spec fn in_range(edges: Seq<Seq<usize>>) -> bool {
    forall|v: int, k: int|
        0 <= v < edges.len() && 0 <= k < edges[v].len() ==> (#[trigger] edges[v][k]) < edges.len()
}

/// Whether `u` is an input of `v`.
pub open spec fn is_input(edges: Seq<Seq<usize>>, v: int, u: int) -> bool {
    0 <= v < edges.len() && exists|k: int| 0 <= k < edges[v].len() && #[trigger] edges[v][k] == u
}

/// Whether `p` is a walk: a non-empty sequence of vertices, each an input of
/// the one before it.
pub open spec fn is_walk(edges: Seq<Seq<usize>>, p: Seq<int>) -> bool {
    &&& p.len() >= 1
    &&& forall|i: int| 0 <= i < p.len() ==> 0 <= #[trigger] p[i] < edges.len()
    &&& forall|i: int| 0 <= i < p.len() - 1 ==> is_input(edges, #[trigger] p[i], p[i + 1])
}

/// Whether a walk leads from `x` to `y`: `y` is `x` itself or lies upstream
/// of it.
pub open spec fn reaches(edges: Seq<Seq<usize>>, x: int, y: int) -> bool {
    exists|p: Seq<int>| #[trigger] is_walk(edges, p) && p[0] == x && p.last() == y
}

/// Whether no walk of at least one edge returns to where it began.
pub open spec fn acyclic(edges: Seq<Seq<usize>>) -> bool {
    forall|p: Seq<int>| #[trigger] is_walk(edges, p) && p.len() >= 2 ==> p[0] != p.last()
}

/// The graph with `a` appended to the inputs of `b`.
pub open spec fn with_edge(edges: Seq<Seq<usize>>, a: usize, b: usize) -> Seq<Seq<usize>> {
    edges.update(b as int, edges[b as int].push(a))
}

/// A vertex reaches itself.
pub proof fn lemma_reaches_self(edges: Seq<Seq<usize>>, x: int)
    requires
        0 <= x < edges.len(),
    ensures
        reaches(edges, x, x),
{
    let p = seq![x];
    assert(is_walk(edges, p));
    assert(p[0] == x && p.last() == x);
}

/// A walk goes on to any input of its last vertex.
pub proof fn lemma_walk_push(edges: Seq<Seq<usize>>, p: Seq<int>, u: int)
    requires
        is_walk(edges, p),
        is_input(edges, p.last(), u),
        0 <= u < edges.len(),
    ensures
        is_walk(edges, p.push(u)),
{
    let q = p.push(u);
    assert forall|i: int| 0 <= i < q.len() - 1 implies is_input(edges, #[trigger] q[i], q[i + 1]) by {
        if i < p.len() - 1 {
            assert(is_input(edges, p[i], p[i + 1]));
        }
    }
}

/// A stretch of a walk is a walk.
pub proof fn lemma_walk_part(edges: Seq<Seq<usize>>, p: Seq<int>, i: int, j: int)
    requires
        is_walk(edges, p),
        0 <= i <= j < p.len(),
    ensures
        is_walk(edges, p.subrange(i, j + 1)),
{
    let q = p.subrange(i, j + 1);
    assert forall|k: int| 0 <= k < q.len() implies 0 <= #[trigger] q[k] < edges.len() by {
        assert(q[k] == p[i + k]);
    }
    assert forall|k: int| 0 <= k < q.len() - 1 implies is_input(edges, #[trigger] q[k], q[k + 1]) by {
        assert(is_input(edges, p[i + k], p[i + k + 1]));
    }
}

/// Two walks that meet make one walk.
pub proof fn lemma_walk_join(edges: Seq<Seq<usize>>, p: Seq<int>, q: Seq<int>)
    requires
        is_walk(edges, p),
        is_walk(edges, q),
        p.last() == q[0],
    ensures
        is_walk(edges, p + q.drop_first()),
        (p + q.drop_first())[0] == p[0],
        (p + q.drop_first()).last() == q.last(),
{
    let w = p + q.drop_first();
    assert forall|k: int| 0 <= k < w.len() implies 0 <= #[trigger] w[k] < edges.len() by {
        if k >= p.len() {
            assert(w[k] == q[k - p.len() + 1]);
        }
    }
    assert forall|k: int| 0 <= k < w.len() - 1 implies is_input(edges, #[trigger] w[k], w[k + 1]) by {
        if k < p.len() - 1 {
            assert(is_input(edges, p[k], p[k + 1]));
        } else {
            let m = k - p.len() + 1;
            assert(is_input(edges, q[m], q[m + 1]));
            assert(w[k + 1] == q[m + 1]);
            if k == p.len() - 1 {
                assert(w[k] == p.last());
            } else {
                assert(w[k] == q[m]);
            }
        }
    }
}

/// Reaching is transitive.
pub proof fn lemma_reaches_trans(edges: Seq<Seq<usize>>, x: int, y: int, z: int)
    requires
        reaches(edges, x, y),
        reaches(edges, y, z),
    ensures
        reaches(edges, x, z),
{
    let p = choose|p: Seq<int>| #[trigger] is_walk(edges, p) && p[0] == x && p.last() == y;
    let q = choose|q: Seq<int>| #[trigger] is_walk(edges, q) && q[0] == y && q.last() == z;
    lemma_walk_join(edges, p, q);
    assert(is_walk(edges, p + q.drop_first()));
}

/// A vertex reaches what its inputs reach.
pub proof fn lemma_reaches_step(edges: Seq<Seq<usize>>, x: int, u: int, y: int)
    requires
        is_input(edges, x, u),
        0 <= u < edges.len(),
        reaches(edges, u, y),
    ensures
        reaches(edges, x, y),
{
    let p = seq![x, u];
    assert(is_walk(edges, p)) by {
        assert forall|i: int| 0 <= i < p.len() - 1 implies is_input(edges, #[trigger] p[i], p[i + 1]) by {
            assert(i == 0);
        }
    }
    assert(p[0] == x && p.last() == u);
    lemma_reaches_trans(edges, x, u, y);
}

/// What a vertex reaches, other than itself, one of its inputs reaches.
pub proof fn lemma_reaches_through_input(edges: Seq<Seq<usize>>, x: int, y: int) -> (u: int)
    requires
        reaches(edges, x, y),
        x != y,
    ensures
        is_input(edges, x, u),
        0 <= u < edges.len(),
        reaches(edges, u, y),
{
    let p = choose|p: Seq<int>| #[trigger] is_walk(edges, p) && p[0] == x && p.last() == y;
    assert(p.len() >= 2);
    assert(is_input(edges, p[0], p[1]));
    lemma_walk_part(edges, p, 1, p.len() - 1);
    let q = p.subrange(1, p.len() as int);
    assert(q[0] == p[1] && q.last() == y);
    p[1]
}

/// In an acyclic graph no vertex occurs twice on a walk.
pub proof fn lemma_walk_no_duplicates(edges: Seq<Seq<usize>>, p: Seq<int>)
    requires
        acyclic(edges),
        is_walk(edges, p),
    ensures
        p.no_duplicates(),
{
    assert forall|i: int, j: int| 0 <= i < p.len() && 0 <= j < p.len() && i != j implies p[i] != p[j] by {
        if p[i] == p[j] {
            let (lo, hi) = if i < j {
                (i, j)
            } else {
                (j, i)
            };
            lemma_walk_part(edges, p, lo, hi);
            let q = p.subrange(lo, hi + 1);
            assert(q.len() >= 2);
            assert(q[0] == p[lo] && q.last() == p[hi]);
        }
    }
}

/// In an acyclic graph a walk visits at most as many vertices as there are.
pub proof fn lemma_walk_short(edges: Seq<Seq<usize>>, p: Seq<int>)
    requires
        acyclic(edges),
        is_walk(edges, p),
    ensures
        p.len() <= edges.len(),
{
    lemma_walk_no_duplicates(edges, p);
    p.unique_seq_to_set();
    let all = vstd::set_lib::set_int_range(0, edges.len() as int);
    vstd::set_lib::lemma_int_range(0, edges.len() as int);
    assert(p.to_set().subset_of(all)) by {
        assert forall|x: int| p.to_set().contains(x) implies all.contains(x) by {
            let i = choose|i: int| 0 <= i < p.len() && p[i] == x;
            assert(0 <= p[i] < edges.len());
        }
    }
    vstd::set_lib::lemma_len_subset(p.to_set(), all);
}

/// An input in the graph with one more edge was an input before, or is the
/// new one.
proof fn lemma_with_edge_input(edges: Seq<Seq<usize>>, a: usize, b: usize, v: int, u: int)
    requires
        b < edges.len(),
        is_input(with_edge(edges, a, b), v, u),
    ensures
        is_input(edges, v, u) || (v == b && u == a),
{
    let grown = with_edge(edges, a, b);
    let k = choose|k: int| 0 <= k < grown[v].len() && #[trigger] grown[v][k] == u;
    if v == b {
        if k < edges[v].len() {
            assert(edges[v][k] == u);
        }
    } else {
        assert(edges[v][k] == u);
    }
}

/// In the graph with the edge from `a` into `b` added, a walk that ends in `b`
/// starts at a vertex that reached `b` before.
proof fn lemma_walk_to_target(edges: Seq<Seq<usize>>, a: usize, b: usize, w: Seq<int>)
    requires
        b < edges.len(),
        is_walk(with_edge(edges, a, b), w),
        w.last() == b,
    ensures
        reaches(edges, w[0], b as int),
    decreases w.len(),
{
    let grown = with_edge(edges, a, b);
    if w[0] == b {
        lemma_reaches_self(edges, b as int);
    } else {
        assert(w.len() >= 2);
        assert(is_input(grown, w[0], w[1]));
        lemma_with_edge_input(edges, a, b, w[0], w[1]);
        lemma_walk_part(grown, w, 1, w.len() - 1);
        let rest = w.subrange(1, w.len() as int);
        assert(rest.last() == b);
        lemma_walk_to_target(edges, a, b, rest);
        assert(rest[0] == w[1]);
        lemma_reaches_step(edges, w[0], w[1], b as int);
    }
}

/// Adding an edge from `a` into `b` keeps a graph acyclic when `a` did not
/// reach `b` before.
pub proof fn lemma_with_edge_acyclic(edges: Seq<Seq<usize>>, a: usize, b: usize)
    requires
        acyclic(edges),
        a < edges.len(),
        b < edges.len(),
        !reaches(edges, a as int, b as int),
    ensures
        acyclic(with_edge(edges, a, b)),
{
    let grown = with_edge(edges, a, b);
    assert forall|p: Seq<int>| #[trigger] is_walk(grown, p) && p.len() >= 2 implies p[0] != p.last() by {
        if p[0] == p.last() {
            if forall|i: int| 0 <= i < p.len() - 1 ==> is_input(edges, #[trigger] p[i], p[i + 1]) {
                assert(is_walk(edges, p));
            } else {
                let i = choose|i: int| 0 <= i < p.len() - 1 && !is_input(edges, #[trigger] p[i], p[i + 1]);
                assert(is_input(grown, p[i], p[i + 1]));
                lemma_with_edge_input(edges, a, b, p[i], p[i + 1]);
                // From `a` on to the end of the walk, which is its start, and
                // from there on to `b`.
                lemma_walk_part(grown, p, i + 1, p.len() - 1);
                lemma_walk_part(grown, p, 0, i);
                let tail = p.subrange(i + 1, p.len() as int);
                let front = p.subrange(0, i + 1);
                assert(tail[0] == a && tail.last() == p.last());
                assert(front[0] == p[0] && front.last() == b);
                lemma_walk_join(grown, tail, front);
                lemma_walk_to_target(edges, a, b, tail + front.drop_first());
            }
        }
    }
}

/// Searches upstream of `x` for `b`.
///
/// `stack` is the walk that led to `x`; in an acyclic graph it cannot grow
/// beyond the number of vertices, which bounds the search.
pub(crate) fn has_loop(x: usize, b: usize, edges: &Vec<Vec<usize>>, Ghost(stack): Ghost<Seq<int>>) -> (found: bool)
    requires
        in_range(lists_of(edges)),
        acyclic(lists_of(edges)),
        x < edges@.len(),
        b < edges@.len(),
        is_walk(lists_of(edges), stack),
        stack.last() == x,
    ensures
        found == reaches(lists_of(edges), x as int, b as int),
    decreases edges@.len() - stack.len(),
{
    let ghost g = lists_of(edges);
    if x == b {
        proof {
            lemma_reaches_self(g, x as int);
        }
        return true;
    }
    let n: usize = edges[x].len();
    let mut k: usize = 0;
    while k < n
        invariant
            k <= n,
            n == g[x as int].len(),
            g == lists_of(edges),
            in_range(g),
            acyclic(g),
            x < edges@.len(),
            b < edges@.len(),
            is_walk(g, stack),
            stack.last() == x,
            forall|j: int| 0 <= j < k ==> !reaches(g, #[trigger] g[x as int][j] as int, b as int),
        decreases n - k,
    {
        let y: usize = edges[x][k];
        proof {
            assert(g[x as int][k as int] == y);
            assert(is_input(g, x as int, y as int));
            lemma_walk_push(g, stack, y as int);
            lemma_walk_short(g, stack.push(y as int));
        }
        if has_loop(y, b, edges, Ghost(stack.push(y as int))) {
            proof {
                lemma_reaches_step(g, x as int, y as int, b as int);
            }
            return true;
        }
        k += 1;
    }
    proof {
        if reaches(g, x as int, b as int) {
            let u = lemma_reaches_through_input(g, x as int, b as int);
            let j = choose|j: int| 0 <= j < g[x as int].len() && #[trigger] g[x as int][j] == u;
            assert(!reaches(g, g[x as int][j] as int, b as int));
        }
    }
    false
}

/// Whether vertex `u` occurs in `order`.
pub open spec fn scheduled(order: Seq<usize>, u: int) -> bool {
    exists|j: int| 0 <= j < order.len() && #[trigger] order[j] == u
}

/// Whether every vertex in `order` comes after all of its inputs.
pub open spec fn inputs_first(edges: Seq<Seq<usize>>, order: Seq<usize>) -> bool {
    forall|k: int, u: int|
        0 <= k < order.len() && #[trigger] is_input(edges, order[k] as int, u) ==> scheduled(order.take(k), u)
}

/// Whether `order` is the schedule of a chunk with output `root`: it holds
/// exactly the vertices that `root` reaches, each once, each after all of its
/// inputs, and so `root` last.
pub open spec fn is_schedule(edges: Seq<Seq<usize>>, root: int, order: Seq<usize>) -> bool {
    &&& order.no_duplicates()
    &&& forall|v: int| scheduled(order, v) <==> #[trigger] reaches(edges, root, v)
    &&& inputs_first(edges, order)
    &&& order.len() > 0 && order.last() == root
}

/// Number of vertices that have not run.
pub open spec fn count_unmarked(ran: Seq<bool>) -> nat
    decreases ran.len(),
{
    if ran.len() == 0 {
        0
    } else {
        count_unmarked(ran.drop_last()) + if ran.last() {
            0nat
        } else {
            1nat
        }
    }
}

proof fn lemma_mark(ran: Seq<bool>, i: int)
    requires
        0 <= i < ran.len(),
        !ran[i],
    ensures
        count_unmarked(ran.update(i, true)) + 1 == count_unmarked(ran),
    decreases ran.len(),
{
    let marked = ran.update(i, true);
    if i == ran.len() - 1 {
        assert(marked.drop_last() =~= ran.drop_last());
    } else {
        assert(marked.drop_last() =~= ran.drop_last().update(i, true));
        lemma_mark(ran.drop_last(), i);
    }
}

/// The run flags and the order after vertex `index` ran: unless it had run
/// already, everything upstream of it that had not run is run first, input
/// by input in the order the inputs were connected, and then the vertex
/// itself.  `fuel` bounds the depth; it never runs out when it starts at the
/// number of vertices of an acyclic graph.
pub open spec fn run_from(
    edges: Seq<Seq<usize>>,
    index: int,
    ran: Seq<bool>,
    order: Seq<usize>,
    fuel: nat,
) -> (Seq<bool>, Seq<usize>)
    decreases fuel, 0nat, 0nat,
{
    if fuel == 0 || index < 0 || index >= ran.len() || index >= edges.len() || ran[index] {
        (ran, order)
    } else {
        let after = run_inputs(edges, index, 0, ran.update(index, true), order, (fuel - 1) as nat);
        (after.0, after.1.push(index as usize))
    }
}

/// The run flags and the order after the inputs of `index` from the `k`-th on
/// ran, one after the other.
pub open spec fn run_inputs(
    edges: Seq<Seq<usize>>,
    index: int,
    k: int,
    ran: Seq<bool>,
    order: Seq<usize>,
    fuel: nat,
) -> (Seq<bool>, Seq<usize>)
    decreases fuel, 1nat, edges[index].len() - k,
{
    if k < 0 || k >= edges[index].len() {
        (ran, order)
    } else {
        let after = run_from(edges, edges[index][k] as int, ran, order, fuel);
        run_inputs(edges, index, k + 1, after.0, after.1, fuel)
    }
}

/// The order in which a chunk with output `root` runs the vertices.
pub open spec fn chunk_order(edges: Seq<Seq<usize>>, root: int) -> Seq<usize> {
    run_from(edges, root, Seq::new(edges.len(), |i: int| false), Seq::empty(), edges.len()).1
}

/// What holds while a chunk is being scheduled: the vertices marked as run
/// are those already in the order and those on the stack; the order holds
/// every vertex once and after its inputs, and only vertices `root` reaches.
pub open spec fn search_inv(
    edges: Seq<Seq<usize>>,
    root: int,
    ran: Seq<bool>,
    order: Seq<usize>,
    stack: Seq<int>,
) -> bool {
    &&& ran.len() == edges.len()
    &&& forall|w: int| 0 <= w < ran.len() ==> (#[trigger] ran[w] <==> (scheduled(order, w) || stack.contains(w)))
    &&& forall|k: int| 0 <= k < order.len() ==> (#[trigger] order[k]) < edges.len()
    &&& order.no_duplicates()
    &&& forall|k: int| 0 <= k < order.len() ==> !stack.contains(#[trigger] order[k] as int)
    &&& inputs_first(edges, order)
    &&& forall|k: int| 0 <= k < order.len() ==> reaches(edges, root, #[trigger] order[k] as int)
}

/// Whether `stack` leads from `root` to a vertex that has `index` as input,
/// or is empty with `index` being `root`.
pub open spec fn leads_to(edges: Seq<Seq<usize>>, root: int, stack: Seq<int>, index: int) -> bool {
    if stack.len() == 0 {
        index == root
    } else {
        is_walk(edges, stack) && stack[0] == root && is_input(edges, stack.last(), index)
    }
}

proof fn lemma_stack_grows(edges: Seq<Seq<usize>>, root: int, stack: Seq<int>, index: int)
    requires
        acyclic(edges),
        0 <= index < edges.len(),
        leads_to(edges, root, stack, index),
    ensures
        is_walk(edges, stack.push(index)),
        stack.push(index)[0] == root,
        !stack.contains(index),
        reaches(edges, root, index),
{
    let grown = stack.push(index);
    if stack.len() == 0 {
        assert(is_walk(edges, grown));
    } else {
        lemma_walk_push(edges, stack, index);
    }
    lemma_walk_no_duplicates(edges, grown);
    if stack.contains(index) {
        let i = choose|i: int| 0 <= i < stack.len() && stack[i] == index;
        assert(grown[i] == grown[stack.len() as int]);
    }
    assert(grown.last() == index);
}

/// Runs `index` after everything upstream of it that has not run yet, and
/// appends what ran to `order`.
pub(crate) fn visit(
    edges: &Vec<Vec<usize>>,
    ran: &mut Vec<bool>,
    order: &mut Vec<usize>,
    index: usize,
    Ghost(root): Ghost<int>,
    Ghost(stack): Ghost<Seq<int>>,
)
    requires
        in_range(lists_of(edges)),
        acyclic(lists_of(edges)),
        index < edges@.len(),
        leads_to(lists_of(edges), root, stack, index as int),
        search_inv(lists_of(edges), root, old(ran)@, old(order)@, stack),
    ensures
        search_inv(lists_of(edges), root, final(ran)@, final(order)@, stack),
        scheduled(final(order)@, index as int),
        final(order)@.len() >= old(order)@.len(),
        final(order)@.take(old(order)@.len() as int) == old(order)@,
        count_unmarked(final(ran)@) <= count_unmarked(old(ran)@),
        !old(ran)@[index as int] ==> final(order)@.last() == index,
        (final(ran)@, final(order)@) == run_from(
            lists_of(edges),
            index as int,
            old(ran)@,
            old(order)@,
            (edges@.len() - stack.len()) as nat,
        ),
    decreases count_unmarked(old(ran)@),
{
    let ghost g = lists_of(edges);
    let ghost fuel = (edges@.len() - stack.len()) as nat;
    proof {
        lemma_stack_grows(g, root, stack, index as int);
        lemma_walk_short(g, stack.push(index as int));
    }
    if ran[index] {
        assert(order@.take(order@.len() as int) =~= order@);
        return ;
    }
    let ghost ran0 = ran@;
    let ghost order0 = order@;
    let ghost deeper = stack.push(index as int);
    ran.set(index, true);
    proof {
        lemma_mark(ran0, index as int);
        assert forall|w: int| 0 <= w < ran@.len() implies (#[trigger] ran@[w] <==> (scheduled(order@, w)
            || deeper.contains(w))) by {
            if w == index {
                assert(deeper[stack.len() as int] == w);
            } else {
                assert(ran0[w] <==> (scheduled(order0, w) || stack.contains(w)));
                if stack.contains(w) {
                    let i = choose|i: int| 0 <= i < stack.len() && stack[i] == w;
                    assert(deeper[i] == w);
                }
                if deeper.contains(w) {
                    let i = choose|i: int| 0 <= i < deeper.len() && deeper[i] == w;
                    assert(stack[i] == w);
                }
            }
        }
        assert forall|k: int| 0 <= k < order@.len() implies !deeper.contains(#[trigger] order@[k] as int) by {
            let w = order@[k] as int;
            assert(!stack.contains(w));
            assert(scheduled(order0, w));
            assert(ran0[w]);
            if deeper.contains(w) {
                let i = choose|i: int| 0 <= i < deeper.len() && deeper[i] == w;
                assert(stack[i] == w);
            }
        }
        assert(order@.take(order@.len() as int) =~= order@);
    }
    let n: usize = edges[index].len();
    let mut k: usize = 0;
    while k < n
        invariant
            k <= n,
            n == g[index as int].len(),
            g == lists_of(edges),
            in_range(g),
            acyclic(g),
            index < edges@.len(),
            is_walk(g, deeper),
            deeper[0] == root,
            deeper.last() == index,
            search_inv(g, root, ran@, order@, deeper),
            order@.len() >= order0.len(),
            order@.take(order0.len() as int) == order0,
            ran0 == old(ran)@,
            order0 == old(order)@,
            count_unmarked(ran@) < count_unmarked(ran0),
            forall|j: int| 0 <= j < k ==> scheduled(order@, #[trigger] g[index as int][j] as int),
            fuel == edges@.len() - stack.len(),
            fuel >= 1,
            deeper.len() == stack.len() + 1,
            run_inputs(g, index as int, k as int, ran@, order@, (fuel - 1) as nat) == run_inputs(
                g,
                index as int,
                0,
                ran0.update(index as int, true),
                order0,
                (fuel - 1) as nat,
            ),
        decreases n - k,
    {
        let y: usize = edges[index][k];
        let ghost before = order@;
        proof {
            assert(g[index as int][k as int] == y);
            assert(is_input(g, index as int, y as int));
        }
        visit(edges, ran, order, y, Ghost(root), Ghost(deeper));
        proof {
            assert(order@.take(order0.len() as int) =~= before.take(order0.len() as int)) by {
                assert(order@.take(before.len() as int) == before);
                assert forall|i: int| 0 <= i < order0.len() implies order@[i] == before[i] by {
                    assert(order@.take(before.len() as int)[i] == before[i]);
                }
            }
            assert forall|j: int| 0 <= j < k + 1 implies scheduled(
                order@,
                #[trigger] g[index as int][j] as int,
            ) by {
                if j < k {
                    let u = g[index as int][j] as int;
                    assert(scheduled(before, u));
                    let i = choose|i: int| 0 <= i < before.len() && #[trigger] before[i] == u;
                    assert(order@.take(before.len() as int)[i] == before[i]);
                    assert(order@[i] == u);
                }
            }
        }
        k += 1;
    }
    let ghost ran1 = ran@;
    let ghost order1 = order@;
    order.push(index);
    proof {
        let order2 = order@;
        assert((ran1, order1) == run_inputs(g, index as int, n as int, ran1, order1, (fuel - 1) as nat));
        assert(order2.take(order1.len() as int) =~= order1);
        assert(!scheduled(order1, index as int)) by {
            if scheduled(order1, index as int) {
                let i = choose|i: int| 0 <= i < order1.len() && #[trigger] order1[i] == index as int;
                assert(!deeper.contains(order1[i] as int));
                assert(deeper[stack.len() as int] == index);
            }
        }
        assert(scheduled(order2, index as int)) by {
            assert(order2[order1.len() as int] == index);
        }
        assert forall|w: int| 0 <= w < ran1.len() implies (#[trigger] ran1[w] <==> (scheduled(order2, w)
            || stack.contains(w))) by {
            assert(ran1[w] <==> (scheduled(order1, w) || deeper.contains(w)));
            if w == index {
                assert(deeper[stack.len() as int] == w);
            } else {
                if scheduled(order1, w) {
                    let i = choose|i: int| 0 <= i < order1.len() && #[trigger] order1[i] == w;
                    assert(order2[i] == w);
                }
                if scheduled(order2, w) {
                    let i = choose|i: int| 0 <= i < order2.len() && #[trigger] order2[i] == w;
                    assert(order1[i] == w);
                }
                if stack.contains(w) {
                    let i = choose|i: int| 0 <= i < stack.len() && stack[i] == w;
                    assert(deeper[i] == w);
                }
                if deeper.contains(w) {
                    let i = choose|i: int| 0 <= i < deeper.len() && deeper[i] == w;
                    assert(stack[i] == w);
                }
            }
        }
        assert(order2.no_duplicates()) by {
            assert forall|i: int, j: int| 0 <= i < order2.len() && 0 <= j < order2.len() && i != j implies order2[i]
                != order2[j] by {
                if i < order1.len() && j < order1.len() {
                    assert(order1[i] != order1[j]);
                } else if i < order1.len() {
                    assert(order1[i] == order2[i]);
                } else {
                    assert(order1[j] == order2[j]);
                }
            }
        }
        assert forall|k: int| 0 <= k < order2.len() implies !stack.contains(#[trigger] order2[k] as int) by {
            if k < order1.len() {
                let w = order1[k] as int;
                assert(!deeper.contains(w));
                if stack.contains(w) {
                    let i = choose|i: int| 0 <= i < stack.len() && stack[i] == w;
                    assert(deeper[i] == w);
                }
            }
        }
        assert(inputs_first(g, order2)) by {
            assert forall|k: int, u: int| 0 <= k < order2.len() && #[trigger] is_input(
                g,
                order2[k] as int,
                u,
            ) implies scheduled(order2.take(k), u) by {
                if k < order1.len() {
                    assert(order2[k] == order1[k]);
                    assert(is_input(g, order1[k] as int, u));
                    assert(order2.take(k) =~= order1.take(k));
                } else {
                    let j = choose|j: int| 0 <= j < g[index as int].len() && #[trigger] g[index as int][j] == u;
                    assert(scheduled(order1, g[index as int][j] as int));
                    assert(order2.take(k) =~= order1);
                }
            }
        }
        assert forall|k: int| 0 <= k < order2.len() implies reaches(g, root, #[trigger] order2[k] as int) by {
            if k < order1.len() {
                assert(order2[k] == order1[k]);
            }
        }
        assert forall|k: int| 0 <= k < order2.len() implies (#[trigger] order2[k]) < g.len() by {
            if k < order1.len() {
                assert(order2[k] == order1[k]);
            }
        }
        assert(order2.take(order0.len() as int) =~= order0) by {
            assert forall|i: int| 0 <= i < order0.len() implies order2[i] == order0[i] by {
                assert(order1.take(order0.len() as int)[i] == order0[i]);
                assert(order2[i] == order1[i]);
            }
        }
    }
}

/// An order that holds `root` and puts inputs first holds everything a walk
/// from `root` visits.
proof fn lemma_walk_scheduled(edges: Seq<Seq<usize>>, order: Seq<usize>, p: Seq<int>, i: int)
    requires
        inputs_first(edges, order),
        is_walk(edges, p),
        scheduled(order, p[0]),
        0 <= i < p.len(),
    ensures
        scheduled(order, p[i]),
    decreases i,
{
    if i > 0 {
        lemma_walk_scheduled(edges, order, p, i - 1);
        let k = choose|k: int| 0 <= k < order.len() && #[trigger] order[k] == p[i - 1];
        assert(is_input(edges, p[i - 1], p[i]));
        assert(is_input(edges, order[k] as int, p[i]));
        assert(scheduled(order.take(k), p[i]));
        let j = choose|j: int| 0 <= j < order.take(k).len() && #[trigger] order.take(k)[j] == p[i];
        assert(order[j] == p[i]);
    }
}

/// `n` flags, none set.
pub(crate) fn unmarked(n: usize) -> (ran: Vec<bool>)
    ensures
        ran@.len() == n,
        forall|i: int| 0 <= i < n ==> !#[trigger] ran@[i],
{
    let mut ran: Vec<bool> = Vec::new();
    let mut i: usize = 0;
    while i < n
        invariant
            i <= n,
            ran@.len() == i,
            forall|j: int| 0 <= j < i ==> !#[trigger] ran@[j],
        decreases n - i,
    {
        ran.push(false);
        i += 1;
    }
    ran
}

/// The schedule of a chunk with output `root`, and the flags of the vertices
/// that run in it.
pub fn schedule(edges: &Vec<Vec<usize>>, root: usize) -> (r: (Vec<bool>, Vec<usize>))
    requires
        in_range(lists_of(edges)),
        acyclic(lists_of(edges)),
        root < edges@.len(),
    ensures
        is_schedule(lists_of(edges), root as int, r.1@),
        r.0@.len() == edges@.len(),
        forall|v: int| 0 <= v < edges@.len() ==> (#[trigger] r.0@[v] <==> reaches(lists_of(edges), root as int, v)),
        forall|k: int| 0 <= k < r.1@.len() ==> (#[trigger] r.1@[k]) < edges@.len(),
        r.1@ == chunk_order(lists_of(edges), root as int),
{
    let ghost g = lists_of(edges);
    let mut ran: Vec<bool> = unmarked(edges.len());
    let mut order: Vec<usize> = Vec::new();
    let ghost none: Seq<int> = Seq::empty();
    proof {
        assert(ran@ =~= Seq::new(g.len(), |i: int| false));
        assert(order@ =~= Seq::empty());
        assert forall|w: int| 0 <= w < ran@.len() implies (#[trigger] ran@[w] <==> (scheduled(order@, w)
            || none.contains(w))) by {
            assert(!ran@[w]);
        }
    }
    visit(edges, &mut ran, &mut order, root, Ghost(root as int), Ghost(none));
    proof {
        assert forall|v: int| scheduled(order@, v) <==> #[trigger] reaches(g, root as int, v) by {
            if scheduled(order@, v) {
                let k = choose|k: int| 0 <= k < order@.len() && #[trigger] order@[k] == v;
                assert(reaches(g, root as int, order@[k] as int));
            }
            if reaches(g, root as int, v) {
                let p = choose|p: Seq<int>| #[trigger] is_walk(g, p) && p[0] == root as int && p.last() == v;
                lemma_walk_scheduled(g, order@, p, p.len() - 1);
            }
        }
        assert forall|v: int| 0 <= v < edges@.len() implies (#[trigger] ran@[v] <==> reaches(
            g,
            root as int,
            v,
        )) by {
            assert(ran@[v] <==> (scheduled(order@, v) || none.contains(v)));
        }
    }
    (ran, order)
}

/// A graph stays in range and acyclic when a vertex without inputs is added.
pub proof fn lemma_add_vertex(edges: Seq<Seq<usize>>)
    requires
        in_range(edges),
        acyclic(edges),
    ensures
        in_range(edges.push(Seq::empty())),
        acyclic(edges.push(Seq::empty())),
{
    let grown = edges.push(Seq::empty());
    let n = edges.len() as int;
    assert forall|v: int, k: int| 0 <= v < grown.len() && 0 <= k < grown[v].len() implies (#[trigger] grown[v][k])
        < grown.len() by {
        assert(v < n);
        assert(edges[v][k] < edges.len());
    }
    assert forall|p: Seq<int>| #[trigger] is_walk(grown, p) && p.len() >= 2 implies p[0] != p.last() by {
        if p[0] == p.last() {
            assert(is_input(grown, p[0], p[1]));
            assert(p[0] != n);
            if forall|i: int| 0 <= i < p.len() ==> #[trigger] p[i] < n {
                assert forall|i: int| 0 <= i < p.len() - 1 implies is_input(edges, #[trigger] p[i], p[i + 1]) by {
                    assert(is_input(grown, p[i], p[i + 1]));
                    assert(p[i] < n);
                    let k = choose|k: int| 0 <= k < grown[p[i]].len() && #[trigger] grown[p[i]][k] == p[i + 1];
                    assert(edges[p[i]][k] == p[i + 1]);
                }
                assert(is_walk(edges, p));
            } else {
                let i = choose|i: int| 0 <= i < p.len() && !(#[trigger] p[i] < n);
                assert(p[i] == n);
                assert(i < p.len() - 1);
                assert(is_input(grown, p[i], p[i + 1]));
            }
        }
    }
}

/// A graph stays in range when an edge between two of its vertices is added.
pub proof fn lemma_with_edge_in_range(edges: Seq<Seq<usize>>, a: usize, b: usize)
    requires
        in_range(edges),
        a < edges.len(),
        b < edges.len(),
    ensures
        in_range(with_edge(edges, a, b)),
{
    let grown = with_edge(edges, a, b);
    assert forall|v: int, k: int| 0 <= v < grown.len() && 0 <= k < grown[v].len() implies (#[trigger] grown[v][k])
        < grown.len() by {
        if v == b {
            if k < edges[v].len() {
                assert(edges[v][k] < edges.len());
            }
        } else {
            assert(edges[v][k] < edges.len());
        }
    }
}

} // verus!
